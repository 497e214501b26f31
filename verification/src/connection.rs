//! The connections of this device: which one speaks for a peer, and what is known of it.
//!
//! A device has at most one connection at a time. Every connection gets a generation of
//! its own, so that whatever comes late for an earlier one leaves its successor alone.

use vstd::prelude::*;

use crate::handshake::PeerAuthContext;
use crate::message::Message;
use crate::qos::{
    BulkFrame, ClassifiedMessage, ControlFrame, LaneDiscriminator, ReliableCompatFrame,
    TelemetryFrame, TransportSendError,
};
use crate::registry::{without_generation, ConnectionRegistry, RegisteredPeer};
use crate::table::{strictly_ascending, DeviceTable};
use crate::transport::{
    bits_of, without_pooled_generation, ConnectionPool, PooledConnection, PooledSendIdentity,
    TransportConnectionDiagnostics,
};
use crate::types::{ControlConnectionId, DeviceId};

verus! {

/// How far a connection is.
#[derive(Debug, Clone, Copy, PartialEq, Eq, Structural)]
pub enum ConnectionState {
    Connecting,
    Connected,
    Disconnected,
    Error,
}

/// What is known of a connection. Times are in nanoseconds of a clock that never goes
/// back.
#[derive(Debug, PartialEq, Eq)]
pub struct ConnectionInfo {
    pub device_id: DeviceId,
    pub address: String,
    pub state: ConnectionState,
    pub last_activity_ns: u64,
    pub messages_sent: u64,
    pub messages_received: u64,
    pub transport: String,
    pub datagram_available: bool,
    pub rtt_ms: Option<u64>,
    pub last_datagram_rx_ms: Option<u64>,
    pub datagram_tx_dropped: u64,
    pub reliable_stream_reset_count: u64,
    pub cert_trust_state: Option<String>,
    pub control_connection_id: Option<ControlConnectionId>,
}

impl Clone for ConnectionInfo {
    fn clone(&self) -> (copy: Self)
        ensures
            copy == *self,
    {
        ConnectionInfo {
            device_id: self.device_id,
            address: self.address.clone(),
            state: self.state,
            last_activity_ns: self.last_activity_ns,
            messages_sent: self.messages_sent,
            messages_received: self.messages_received,
            transport: self.transport.clone(),
            datagram_available: self.datagram_available,
            rtt_ms: self.rtt_ms,
            last_datagram_rx_ms: self.last_datagram_rx_ms,
            datagram_tx_dropped: self.datagram_tx_dropped,
            reliable_stream_reset_count: self.reliable_stream_reset_count,
            cert_trust_state: match &self.cert_trust_state {
                Some(label) => Some(label.clone()),
                None => None,
            },
            control_connection_id: self.control_connection_id,
        }
    }
}

impl ConnectionInfo {
    /// Whether this is what is known of a connection that is just being made.
    pub open spec fn is_fresh(self, device_id: DeviceId, address: Seq<char>, now_ns: u64) -> bool {
        &&& self.device_id == device_id
        &&& self.address@ == address
        &&& self.state == ConnectionState::Connecting
        &&& self.last_activity_ns == now_ns
        &&& self.messages_sent == 0
        &&& self.messages_received == 0
        &&& self.transport@ == "quic"@
        &&& !self.datagram_available
        &&& self.rtt_ms is None
        &&& self.last_datagram_rx_ms is None
        &&& self.datagram_tx_dropped == 0
        &&& self.reliable_stream_reset_count == 0
        &&& self.cert_trust_state is None
        &&& self.control_connection_id is None
    }

    /// A connection that is just being made.
    pub fn new(device_id: DeviceId, address: String, now_ns: u64) -> (info: Self)
        ensures
            info.is_fresh(device_id, address@, now_ns),
    {
        ConnectionInfo {
            device_id,
            address,
            state: ConnectionState::Connecting,
            last_activity_ns: now_ns,
            messages_sent: 0,
            messages_received: 0,
            transport: "quic".to_owned(),
            datagram_available: false,
            rtt_ms: None,
            last_datagram_rx_ms: None,
            datagram_tx_dropped: 0,
            reliable_stream_reset_count: 0,
            cert_trust_state: None,
            control_connection_id: None,
        }
    }

    /// Whether a connection has come to nothing for longer than `timeout_ns`.
    pub open spec fn stale(self, now_ns: u64, timeout_ns: u64) -> bool {
        self.state != ConnectionState::Connected && now_ns - self.last_activity_ns > timeout_ns
    }

    /// Whether a connection has come to nothing for longer than `timeout_ns`.
    pub fn is_stale(&self, now_ns: u64, timeout_ns: u64) -> (stale: bool)
        ensures
            stale == self.stale(now_ns, timeout_ns),
    {
        self.state != ConnectionState::Connected && now_ns > self.last_activity_ns && now_ns
            - self.last_activity_ns > timeout_ns
    }
}

/// What the connections of this device have to tell.
#[derive(Debug)]
#[allow(inconsistent_fields)]
pub enum ManagerEvent {
    Connected(PeerAuthContext),
    Disconnected { peer_id: DeviceId, control_connection_id: ControlConnectionId },
    MessageReceived { from: DeviceId, message: Message },
    ControlReceived { auth: PeerAuthContext, frame: ControlFrame },
    ProtocolError { auth: PeerAuthContext, error: String },
    Error {
        peer_id: Option<DeviceId>,
        control_connection_id: Option<ControlConnectionId>,
        error: String,
    },
}

/// The connection that speaks for a device, and its generation.
pub struct CanonicalConnection {
    pub generation: u64,
    pub info: ConnectionInfo,
}

/// Which connection a message went out on.
#[derive(Debug, Clone, Copy, PartialEq, Eq)]
pub enum SelectedSendIdentity {
    Control(ControlConnectionId),
    Pool(PooledSendIdentity),
}

impl CanonicalConnection {
    /// Whether a message went out on this very connection.
    pub open spec fn sent(self, identity: SelectedSendIdentity) -> bool {
        match identity {
            SelectedSendIdentity::Control(id) => self.info.control_connection_id == Some(id),
            SelectedSendIdentity::Pool(pooled) => self.generation == pooled.lifecycle_generation
                && self.info.control_connection_id == pooled.control_connection_id,
        }
    }

    fn has_sent(&self, identity: SelectedSendIdentity) -> (sent: bool)
        ensures
            sent == self.sent(identity),
    {
        match identity {
            SelectedSendIdentity::Control(id) => same_connection(
                self.info.control_connection_id,
                Some(id),
            ),
            SelectedSendIdentity::Pool(pooled) => self.generation == pooled.lifecycle_generation
                && same_connection(self.info.control_connection_id, pooled.control_connection_id),
        }
    }
}

fn same_connection(a: Option<ControlConnectionId>, b: Option<ControlConnectionId>) -> (same: bool)
    ensures
        same == (a == b),
{
    match (a, b) {
        (Some(x), Some(y)) => x == y,
        (None, None) => true,
        _ => false,
    }
}

/// All connections, as a value.
#[verifier::ext_equal]
pub struct ManagerState<C, T> {
    pub connections: Map<u128, CanonicalConnection>,
    pub next_generation: u64,
    pub peers: Map<u128, RegisteredPeer<T>>,
    pub pool: Map<u128, PooledConnection<C>>,
}

impl<C, T> ManagerState<C, T> {
    /// What holds of every manager: each entry stands under its own device, and every
    /// generation was given out before the next one.
    pub open spec fn well_formed(self) -> bool {
        &&& forall|id: u128| #[trigger]
            self.connections.contains_key(id) ==> self.connections[id].info.device_id.0 == id
                && self.connections[id].generation < self.next_generation
        &&& forall|id: u128| #[trigger]
            self.pool.contains_key(id) ==> self.pool[id].generation < self.next_generation
    }

    /// Whether a device's connection is the one of `generation`.
    pub open spec fn current(self, device_id: DeviceId, generation: u64) -> bool {
        self.connections.contains_key(device_id.0)
            && self.connections[device_id.0].generation == generation
    }

    /// The authenticated connection of a device.
    pub open spec fn authenticated(self, device_id: DeviceId) -> Option<ControlConnectionId> {
        if self.connections.contains_key(device_id.0) {
            self.connections[device_id.0].info.control_connection_id
        } else {
            None
        }
    }

    /// The connection that is kept for a device.
    pub open spec fn pooled(self, device_id: DeviceId) -> Option<C> {
        if self.pool.contains_key(device_id.0) {
            Some(self.pool[device_id.0].connection)
        } else {
            None
        }
    }

    /// The state without a device's connection, and without what was registered for it.
    pub open spec fn without(self, device_id: DeviceId) -> ManagerState<C, T> {
        ManagerState {
            connections: self.connections.remove(device_id.0),
            peers: match self.authenticated(device_id) {
                Some(id) => without_generation(self.peers, device_id, id),
                None => self.peers,
            },
            ..self
        }
    }

    /// The state after the connection of `generation` has ended.
    pub open spec fn after_retire(self, device_id: DeviceId, generation: u64) -> ManagerState<
        C,
        T,
    > {
        if self.current(device_id, generation) {
            ManagerState {
                pool: without_pooled_generation(self.pool, device_id, generation),
                ..self.without(device_id)
            }
        } else {
            self
        }
    }

    /// The state after a device was disconnected.
    pub open spec fn after_disconnect(self, device_id: DeviceId) -> ManagerState<C, T> {
        ManagerState { pool: self.pool.remove(device_id.0), ..self.without(device_id) }
    }

    /// The state after some devices were disconnected, one after the other.
    pub open spec fn after_disconnects(self, ids: Seq<DeviceId>) -> ManagerState<C, T>
        decreases ids.len(),
    {
        if ids.len() == 0 {
            self
        } else {
            self.after_disconnects(ids.drop_last()).after_disconnect(ids.last())
        }
    }

    /// The state after a message went out.
    pub open spec fn after_send(
        self,
        device_id: DeviceId,
        identity: SelectedSendIdentity,
        now_ns: u64,
    ) -> ManagerState<C, T> {
        if self.connections.contains_key(device_id.0) && self.connections[device_id.0].sent(
            identity,
        ) {
            let before = self.connections[device_id.0];
            ManagerState {
                connections: self.connections.insert(
                    device_id.0,
                    CanonicalConnection {
                        info: ConnectionInfo {
                            messages_sent: (before.info.messages_sent + 1) as u64,
                            last_activity_ns: now_ns,
                            ..before.info
                        },
                        ..before
                    },
                ),
                ..self
            }
        } else {
            self
        }
    }
}

/// What came of a connection that a peer was authenticated on.
#[derive(Debug, PartialEq, Eq)]
pub struct Installed {
    pub generation: u64,
    /// The authenticated connection that it took the place of.
    pub stale: Option<ControlConnectionId>,
}

/// What ended with a connection.
pub struct Retired<C> {
    /// The authenticated connection whose end is to be announced.
    pub control_connection_id: Option<ControlConnectionId>,
    /// The connection itself, to be closed.
    pub connection: Option<C>,
}

/// A device that another connection speaks for already.
pub struct AlreadyConnected<C, T> {
    pub connection: C,
    pub transport: T,
}

/// The connections of this device.
pub struct ConnectionManager<C, T> {
    pub local_device_id: DeviceId,
    pub connections: DeviceTable<CanonicalConnection>,
    pub next_generation: u64,
    pub qos_registry: ConnectionRegistry<T>,
    pub pool: ConnectionPool<C>,
}

impl<C, T> View for ConnectionManager<C, T> {
    type V = ManagerState<C, T>;

    open spec fn view(&self) -> ManagerState<C, T> {
        ManagerState {
            connections: self.connections@,
            next_generation: self.next_generation,
            peers: self.qos_registry@,
            pool: self.pool@,
        }
    }
}

/// Gives the next generation out.
pub fn allocate_generation(next_generation: &mut u64) -> (generation: u64)
    requires
        *old(next_generation) < u64::MAX,
    ensures
        generation == *old(next_generation),
        *final(next_generation) == *old(next_generation) + 1,
{
    let generation: u64 = *next_generation;
    *next_generation = generation + 1;
    generation
}

impl<C, T> ConnectionManager<C, T> {
    /// A manager without connections.
    pub fn new(local_device_id: DeviceId) -> (manager: Self)
        ensures
            manager.local_device_id == local_device_id,
            manager@ == (ManagerState::<C, T> {
                connections: Map::empty(),
                next_generation: 1,
                peers: Map::empty(),
                pool: Map::empty(),
            }),
            manager@.well_formed(),
    {
        ConnectionManager {
            local_device_id,
            connections: DeviceTable::new(),
            next_generation: 1,
            qos_registry: ConnectionRegistry::new(),
            pool: ConnectionPool::new(),
        }
    }

    /// Lets an authenticated connection speak for its peer. `active` says whether the
    /// peer's pooled connection is alive; then the new one is handed back. Only a peer
    /// that came to us has the end of its former connection announced.
    pub fn install(
        &mut self,
        auth: PeerAuthContext,
        address: String,
        connection: C,
        transport: T,
        active: bool,
        incoming: bool,
        now_ns: u64,
    ) -> (installed: Result<Installed, AlreadyConnected<C, T>>)
        requires
            old(self)@.well_formed(),
            old(self)@.next_generation < u64::MAX,
        ensures
            final(self)@.well_formed(),
            final(self).local_device_id == old(self).local_device_id,
            match installed {
                Err(refused) => active && final(self)@ == old(self)@ && refused.connection
                    == connection && refused.transport == transport,
                Ok(new) => {
                    let id = auth.peer_id.0;
                    let entry = final(self)@.connections[id];
                    &&& !active
                    &&& new.generation == old(self)@.next_generation
                    &&& new.stale == (if incoming {
                        old(self)@.authenticated(auth.peer_id)
                    } else {
                        None
                    })
                    &&& final(self)@.next_generation == old(self)@.next_generation + 1
                    &&& final(self)@.connections == old(self)@.connections.insert(id, entry)
                    &&& final(self)@.peers == old(self)@.peers.insert(
                        id,
                        RegisteredPeer { auth, transport },
                    )
                    &&& final(self)@.pool == old(self)@.pool.insert(
                        id,
                        PooledConnection {
                            generation: new.generation,
                            control_connection_id: Some(auth.control_connection_id),
                            connection,
                        },
                    )
                    &&& entry.generation == new.generation
                    &&& entry.info.state == ConnectionState::Connected
                    &&& entry.info.cert_trust_state matches Some(label) && label@ == "trusted"@
                    &&& entry.info.control_connection_id == Some(auth.control_connection_id)
                    &&& (ConnectionInfo {
                        state: ConnectionState::Connecting,
                        cert_trust_state: None,
                        control_connection_id: None,
                        ..entry.info
                    }).is_fresh(auth.peer_id, address@, now_ns)
                },
            },
    {
        if active {
            return Err(AlreadyConnected { connection, transport });
        }
        let device_id = auth.peer_id;
        let control_connection_id = auth.control_connection_id;
        let former = self.connections.remove(device_id);
        let stale = match former {
            Some(entry) => if incoming {
                entry.info.control_connection_id
            } else {
                None
            },
            None => None,
        };
        let generation = allocate_generation(&mut self.next_generation);
        self.qos_registry.insert(device_id, RegisteredPeer { auth, transport });
        self.pool.insert_with_generation(
            device_id,
            generation,
            Some(control_connection_id),
            connection,
        );
        let mut info = ConnectionInfo::new(device_id, address, now_ns);
        info.state = ConnectionState::Connected;
        info.cert_trust_state = Some("trusted".to_owned());
        info.control_connection_id = Some(control_connection_id);
        self.connections.insert(device_id, CanonicalConnection { generation, info });
        proof {
            let entry = self@.connections[device_id.0];
            assert(self@.connections =~= old(self)@.connections.insert(device_id.0, entry));
            assert forall|id: u128| #[trigger] self@.connections.contains_key(id) implies
                self@.connections[id].info.device_id.0 == id && self@.connections[id].generation
                < self@.next_generation by {
                if id != device_id.0 {
                    assert(old(self)@.connections.contains_key(id));
                }
            }
            assert forall|id: u128| #[trigger] self@.pool.contains_key(id) implies
                self@.pool[id].generation < self@.next_generation by {
                if id != device_id.0 {
                    assert(old(self)@.pool.contains_key(id));
                }
            }
        }
        Ok(Installed { generation, stale })
    }

    /// Whether a device's connection is the one of `generation`.
    pub fn is_current_generation(&self, device_id: DeviceId, generation: u64) -> (current: bool)
        ensures
            current == self@.current(device_id, generation),
    {
        match self.connections.get(device_id) {
            Some(entry) => entry.generation == generation,
            None => false,
        }
    }

    /// Whether what a peer says on a connection is still passed on: its connection has to
    /// be the one that speaks for it.
    pub fn is_current_peer(&self, auth: &PeerAuthContext, generation: u64) -> (current: bool)
        ensures
            current == (self@.current(auth.peer_id, generation) && self@.authenticated(auth.peer_id)
                == Some(auth.control_connection_id)),
    {
        match self.connections.get(auth.peer_id) {
            Some(entry) => entry.generation == generation && same_connection(
                entry.info.control_connection_id,
                Some(auth.control_connection_id),
            ),
            None => false,
        }
    }

    /// Takes a device out of everything but the pool.
    fn take_out(&mut self, device_id: DeviceId) -> (id: Option<ControlConnectionId>)
        requires
            old(self)@.well_formed(),
        ensures
            final(self)@ == old(self)@.without(device_id),
            final(self)@.well_formed(),
            final(self).local_device_id == old(self).local_device_id,
            id == old(self)@.authenticated(device_id),
    {
        let id = match self.connections.remove(device_id) {
            Some(entry) => entry.info.control_connection_id,
            None => None,
        };
        if let Some(id) = id {
            self.qos_registry.remove_if_generation(device_id, id);
        }
        proof {
            assert forall|other: u128| #[trigger] self@.connections.contains_key(other) implies
                self@.connections[other].info.device_id.0 == other
                && self@.connections[other].generation < self@.next_generation by {
                assert(old(self)@.connections.contains_key(other));
            }
        }
        id
    }

    /// A connection has ended. Where another one speaks for the device by now, nothing
    /// happens.
    pub fn retire_generation(&mut self, device_id: DeviceId, generation: u64) -> (retired: Option<
        Retired<C>,
    >)
        requires
            old(self)@.well_formed(),
        ensures
            final(self)@ == old(self)@.after_retire(device_id, generation),
            final(self)@.well_formed(),
            final(self).local_device_id == old(self).local_device_id,
            match retired {
                Some(gone) => old(self)@.current(device_id, generation)
                    && gone.control_connection_id == old(self)@.authenticated(device_id) && (
                match gone.connection {
                    Some(connection) => old(self)@.pool.contains_key(device_id.0)
                        && old(self)@.pool[device_id.0].generation == generation && connection
                        == old(self)@.pool[device_id.0].connection,
                    None => !(old(self)@.pool.contains_key(device_id.0)
                        && old(self)@.pool[device_id.0].generation == generation),
                }),
                None => !old(self)@.current(device_id, generation),
            },
    {
        if !self.is_current_generation(device_id, generation) {
            return None;
        }
        let control_connection_id = self.take_out(device_id);
        let ghost before = self@;
        let connection = self.pool.remove_generation(device_id, generation);
        proof {
            assert forall|other: u128| #[trigger] self@.pool.contains_key(other) implies
                self@.pool[other].generation < self@.next_generation by {
                assert(before.pool.contains_key(other));
            }
        }
        Some(Retired { control_connection_id, connection })
    }

    /// An authenticated peer could not be handed on: its connection is taken out again,
    /// unless another one speaks for it by now. The connection comes back to be closed.
    pub fn fail_authenticated_publication(
        &mut self,
        auth: &PeerAuthContext,
        generation: u64,
    ) -> (failed: Option<Option<C>>)
        requires
            old(self)@.well_formed(),
        ensures
            final(self)@.well_formed(),
            final(self).local_device_id == old(self).local_device_id,
            ({
                let current = old(self)@.current(auth.peer_id, generation) && old(self)@.authenticated(auth.peer_id) == Some(auth.control_connection_id);
                let pooled = old(self)@.pool.contains_key(auth.peer_id.0) && old(self)@.pool[auth.peer_id.0].generation == generation;
                match failed {
                    Some(connection) => current && final(self)@ == old(self)@.after_retire(
                        auth.peer_id,
                        generation,
                    ) && (connection is Some <==> pooled) && (connection is Some ==> connection
                        == Some(old(self)@.pool[auth.peer_id.0].connection)),
                    None => !current && final(self)@ == old(self)@,
                }
            }),
    {
        if !self.is_current_peer(auth, generation) {
            return None;
        }
        match self.retire_generation(auth.peer_id, generation) {
            Some(retired) => Some(retired.connection),
            None => None,
        }
    }

    /// Disconnects a device. Its end is announced where it was authenticated.
    pub fn disconnect(&mut self, device_id: DeviceId) -> (gone: Retired<C>)
        requires
            old(self)@.well_formed(),
        ensures
            final(self)@ == old(self)@.after_disconnect(device_id),
            final(self)@.well_formed(),
            final(self).local_device_id == old(self).local_device_id,
            gone.control_connection_id == old(self)@.authenticated(device_id),
            gone.connection == old(self)@.pooled(device_id),
    {
        let control_connection_id = self.take_out(device_id);
        let ghost before = self@;
        let connection = self.pool.remove(device_id);
        proof {
            assert forall|other: u128| #[trigger] self@.pool.contains_key(other) implies
                self@.pool[other].generation < self@.next_generation by {
                assert(before.pool.contains_key(other));
            }
        }
        Retired { control_connection_id, connection }
    }

    /// A message went out. It is counted for the connection that it went out on, if that
    /// one still speaks for the device.
    pub fn record_send(
        &mut self,
        device_id: DeviceId,
        identity: SelectedSendIdentity,
        now_ns: u64,
    )
        requires
            old(self)@.well_formed(),
            old(self)@.connections.contains_key(device_id.0) ==> old(self)@.connections[device_id.0].info.messages_sent < u64::MAX,
        ensures
            final(self)@ == old(self)@.after_send(device_id, identity, now_ns),
            final(self)@.well_formed(),
            final(self).local_device_id == old(self).local_device_id,
    {
        let counts = match self.connections.get(device_id) {
            Some(entry) => entry.has_sent(identity),
            None => false,
        };
        if !counts {
            return;
        }
        if let Some(mut entry) = self.connections.remove(device_id) {
            entry.info.messages_sent = entry.info.messages_sent + 1;
            entry.info.last_activity_ns = now_ns;
            self.connections.insert(device_id, entry);
        }
        proof {
            assert(self@.connections =~= old(self)@.after_send(
                device_id,
                identity,
                now_ns,
            ).connections);
            assert forall|other: u128| #[trigger] self@.connections.contains_key(other) implies
                self@.connections[other].info.device_id.0 == other
                && self@.connections[other].generation < self@.next_generation by {
                assert(old(self)@.connections.contains_key(other));
            }
        }
    }

    /// What is known of a device's connection.
    pub fn get_connection(&self, device_id: DeviceId) -> (info: Option<ConnectionInfo>)
        ensures
            match info {
                Some(known) => self@.connections.contains_key(device_id.0) && known
                    == self@.connections[device_id.0].info,
                None => !self@.connections.contains_key(device_id.0),
            },
    {
        match self.connections.get(device_id) {
            Some(entry) => Some(entry.info.clone()),
            None => None,
        }
    }

    /// What is known of all connections, by ascending device.
    pub fn connections(&self) -> (infos: Vec<ConnectionInfo>)
        requires
            self@.well_formed(),
        ensures
            infos@.len() == self@.connections.dom().len(),
            strictly_ascending(infos@.map_values(|info: ConnectionInfo| info.device_id)),
            forall|i: int|
                0 <= i < infos@.len() ==> self@.connections.contains_key(
                    (#[trigger] infos@[i]).device_id.0,
                ) && infos@[i] == self@.connections[infos@[i].device_id.0].info,
    {
        let ids = self.connections.ids();
        let mut infos: Vec<ConnectionInfo> = Vec::new();
        let mut i: usize = 0;
        while i < ids.len()
            invariant
                i <= ids@.len(),
                infos@.len() == i,
                self@.well_formed(),
                forall|id: DeviceId| #[trigger]
                    ids@.contains(id) <==> self@.connections.contains_key(id.0),
                forall|k: int|
                    0 <= k < i ==> (#[trigger] infos@[k]).device_id == ids@[k]
                        && self@.connections.contains_key(infos@[k].device_id.0) && infos@[k]
                        == self@.connections[infos@[k].device_id.0].info,
            decreases ids@.len() - i,
        {
            let id = ids[i];
            assert(ids@.contains(id));
            if let Some(entry) = self.connections.get(id) {
                assert(self@.connections.contains_key(id.0));
                infos.push(entry.info.clone());
            }
            i += 1;
        }
        assert(infos@.map_values(|info: ConnectionInfo| info.device_id) =~= ids@);
        infos
    }

    /// The devices whose connection has come to nothing for longer than `timeout_ns`, in
    /// ascending order.
    pub fn stale_devices(&self, now_ns: u64, timeout_ns: u64) -> (stale: Vec<DeviceId>)
        ensures
            strictly_ascending(stale@),
            forall|id: DeviceId| #[trigger]
                stale@.contains(id) <==> self@.connections.contains_key(id.0)
                    && self@.connections[id.0].info.stale(now_ns, timeout_ns),
    {
        let ids = self.connections.ids();
        let mut stale: Vec<DeviceId> = Vec::new();
        let mut i: usize = 0;
        while i < ids.len()
            invariant
                i <= ids@.len(),
                strictly_ascending(ids@),
                strictly_ascending(stale@),
                i < ids@.len() ==> (stale@.len() > 0 ==> stale@.last().0 < ids@[i as int].0),
                forall|id: DeviceId| #[trigger]
                    ids@.contains(id) <==> self@.connections.contains_key(id.0),
                forall|id: DeviceId| #[trigger]
                    stale@.contains(id) <==> ids@.take(i as int).contains(id)
                        && self@.connections[id.0].info.stale(now_ns, timeout_ns),
            decreases ids@.len() - i,
        {
            let id = ids[i];
            assert(ids@.contains(id));
            let ghost before = stale@;
            let ghost seen = ids@.take(i as int);
            if let Some(entry) = self.connections.get(id) {
                if entry.info.is_stale(now_ns, timeout_ns) {
                    stale.push(id);
                }
            }
            proof {
                assert(ids@.take(i + 1) =~= seen.push(id));
                assert forall|other: DeviceId| #[trigger] stale@.contains(other) <==> ids@.take(
                    i + 1,
                ).contains(other) && self@.connections[other.0].info.stale(
                    now_ns,
                    timeout_ns,
                ) by {
                    vstd::seq_lib::lemma_seq_contains_after_push(seen, id, other);
                    vstd::seq_lib::lemma_seq_contains_after_push(before, id, other);
                }
            }
            i += 1;
        }
        assert(ids@.take(i as int) =~= ids@);
        stale
    }

    /// Disconnects every device whose connection has come to nothing for longer than
    /// `timeout_ns`, and takes out of the pool what `closed` names. What ended comes back,
    /// by ascending device.
    pub fn cleanup_stale(&mut self, now_ns: u64, timeout_ns: u64, closed: &Vec<DeviceId>) -> (gone:
        Vec<(DeviceId, Retired<C>)>)
        requires
            old(self)@.well_formed(),
        ensures
            final(self)@.well_formed(),
            final(self).local_device_id == old(self).local_device_id,
            ({
                let stale = gone@.map_values(|entry: (DeviceId, Retired<C>)| entry.0);
                let disconnected = old(self)@.after_disconnects(stale);
                &&& strictly_ascending(stale)
                &&& forall|id: DeviceId| #[trigger]
                    stale.contains(id) <==> old(self)@.connections.contains_key(id.0) && old(self)@.connections[id.0].info.stale(now_ns, timeout_ns)
                &&& final(self)@ == (ManagerState {
                    pool: disconnected.pool.remove_keys(bits_of(closed@)),
                    ..disconnected
                })
            }),
            forall|i: int|
                0 <= i < gone@.len() ==> (#[trigger] gone@[i]).1 == (Retired {
                    control_connection_id: old(self)@.authenticated(gone@[i].0),
                    connection: old(self)@.pooled(gone@[i].0),
                }),
    {
        let stale = self.stale_devices(now_ns, timeout_ns);
        let mut gone: Vec<(DeviceId, Retired<C>)> = Vec::new();
        let mut i: usize = 0;
        assert(stale@.take(0) =~= seq![]);
        while i < stale.len()
            invariant
                i <= stale@.len(),
                gone@.len() == i,
                strictly_ascending(stale@),
                self@.well_formed(),
                self.local_device_id == old(self).local_device_id,
                self@ == old(self)@.after_disconnects(stale@.take(i as int)),
                forall|k: int|
                    i <= k < stale@.len() ==> self@.authenticated(#[trigger] stale@[k]) == old(self)@.authenticated(stale@[k])
                        && self@.pooled(stale@[k]) == old(self)@.pooled(stale@[k]),
                forall|k: int|
                    0 <= k < i ==> (#[trigger] gone@[k]).0 == stale@[k]
                        && gone@[k].1.control_connection_id == old(self)@.authenticated(stale@[k])
                        && gone@[k].1.connection == old(self)@.pooled(stale@[k]),
            decreases stale@.len() - i,
        {
            let id = stale[i];
            let ghost before = self@;
            let retired = self.disconnect(id);
            gone.push((id, retired));
            proof {
                assert(stale@.take(i + 1).drop_last() =~= stale@.take(i as int));
                assert forall|k: int| i < k < stale@.len() implies self@.authenticated(
                    #[trigger] stale@[k],
                ) == old(self)@.authenticated(stale@[k]) && self@.pooled(stale@[k])
                    == old(self)@.pooled(stale@[k]) by {
                    assert(before.authenticated(stale@[k]) == old(self)@.authenticated(stale@[k]));
                    assert(before.pooled(stale@[k]) == old(self)@.pooled(stale@[k]));
                }
            }
            i += 1;
        }
        assert(stale@.take(i as int) =~= stale@);
        let ghost before = self@;
        self.pool.cleanup(closed);
        proof {
            assert(gone@.map_values(|entry: (DeviceId, Retired<C>)| entry.0) =~= stale@);
            assert forall|id: u128| #[trigger] self@.pool.contains_key(id) implies
                self@.pool[id].generation < self@.next_generation by {
                assert(before.pool.contains_key(id));
            }
        }
        gone
    }

    /// What is known of all connections, by ascending device, with how those are doing
    /// that are `active`. A connection that counts as connected but is not active any more
    /// is shown as disconnected.
    pub fn collect_connection_infos(
        &self,
        active: &Vec<(DeviceId, TransportConnectionDiagnostics)>,
        now_ns: u64,
    ) -> (infos: Vec<ConnectionInfo>)
        requires
            self@.well_formed(),
            active@.map_values(
                |entry: (DeviceId, TransportConnectionDiagnostics)| entry.0,
            ).no_duplicates(),
        ensures
            strictly_ascending(infos@.map_values(|info: ConnectionInfo| info.device_id)),
            forall|i: int|
                0 <= i < infos@.len() ==> #[trigger] is_reported(
                    self@.connections,
                    active@,
                    now_ns,
                    infos@[i],
                ),
            forall|id: DeviceId|
                (exists|i: int| 0 <= i < infos@.len() && (#[trigger] infos@[i]).device_id == id)
                    <==> #[trigger] self@.connections.contains_key(id.0) || is_active(active@, id),
    {
        let mut table: DeviceTable<ConnectionInfo> = DeviceTable::new();
        let known = self.connections.ids();
        let mut i: usize = 0;
        while i < known.len()
            invariant
                i <= known@.len(),
                self@.well_formed(),
                forall|id: DeviceId| #[trigger]
                    known@.contains(id) <==> self@.connections.contains_key(id.0),
                forall|id: u128| #[trigger]
                    table@.contains_key(id) <==> known@.take(i as int).contains(DeviceId(id)),
                forall|id: u128| #[trigger]
                    table@.contains_key(id) ==> self@.connections.contains_key(id) && table@[id]
                        == lapsed(self@.connections[id].info),
            decreases known@.len() - i,
        {
            let id = known[i];
            let ghost seen = known@.take(i as int);
            let ghost before = table@;
            assert(known@.contains(id));
            if let Some(entry) = self.connections.get(id) {
                assert(self@.connections.contains_key(id.0));
                let info = lapse(entry.info.clone());
                table.insert(id, info);
            }
            proof {
                assert(known@.take(i + 1) =~= seen.push(id));
                assert forall|other: u128| #[trigger] table@.contains_key(other) <==> known@.take(
                    i + 1,
                ).contains(DeviceId(other)) by {
                    vstd::seq_lib::lemma_seq_contains_after_push(seen, id, DeviceId(other));
                    assert(table@.contains_key(other) <==> before.contains_key(other) || other
                        == id.0);
                }
                assert forall|other: u128| #[trigger] table@.contains_key(other) implies
                    self@.connections.contains_key(other) && table@[other] == lapsed(
                    self@.connections[other].info,
                ) by {
                    if other != id.0 {
                        assert(before.contains_key(other));
                    }
                }
            }
            i += 1;
        }
        assert(known@.take(i as int) =~= known@);
        assert forall|id: u128| #[trigger]
            table@.contains_key(id) <==> self@.connections.contains_key(id) by {
            assert(known@.contains(DeviceId(id)) <==> self@.connections.contains_key(
                DeviceId(id).0,
            ));
        }
        let ghost ids = active@.map_values(
            |entry: (DeviceId, TransportConnectionDiagnostics)| entry.0,
        );
        let mut j: usize = 0;
        while j < active.len()
            invariant
                j <= active@.len(),
                self@.well_formed(),
                ids == active@.map_values(
                    |entry: (DeviceId, TransportConnectionDiagnostics)| entry.0,
                ),
                ids.no_duplicates(),
                forall|id: u128| #[trigger]
                    table@.contains_key(id) <==> self@.connections.contains_key(id) || ids.take(
                        j as int,
                    ).contains(DeviceId(id)),
                forall|id: u128| #[trigger]
                    table@.contains_key(id) && !ids.take(j as int).contains(DeviceId(id)) ==>
                        table@[id] == lapsed(self@.connections[id].info),
                forall|k: int|
                    0 <= k < j ==> table@.contains_key((#[trigger] active@[k]).0.0) && is_refreshed(
                        self@.connections,
                        active@[k].0,
                        active@[k].1,
                        now_ns,
                        table@[active@[k].0.0],
                    ),
            decreases active@.len() - j,
        {
            let id = active[j].0;
            let diagnostics = &active[j].1;
            let ghost before = table@;
            let ghost seen = ids.take(j as int);
            assert(ids[j as int] == id);
            assert(!seen.contains(id)) by {
                if seen.contains(id) {
                    let k = choose|k: int| 0 <= k < seen.len() && seen[k] == id;
                    assert(ids[k] == ids[j as int]);
                }
            }
            let base = match table.remove(id) {
                Some(info) => info,
                None => ConnectionInfo::new(id, diagnostics.address.clone(), now_ns),
            };
            let info = refresh(base, diagnostics);
            table.insert(id, info);
            proof {
                assert(ids.take(j + 1) =~= seen.push(id));
                assert forall|other: u128| #[trigger] table@.contains_key(other) <==>
                    self@.connections.contains_key(other) || ids.take(j + 1).contains(
                    DeviceId(other),
                ) by {
                    vstd::seq_lib::lemma_seq_contains_after_push(seen, id, DeviceId(other));
                    assert(table@.contains_key(other) <==> before.contains_key(other) || other
                        == id.0);
                }
                assert forall|other: u128| #[trigger] table@.contains_key(other) && !ids.take(
                    j + 1,
                ).contains(DeviceId(other)) implies table@[other] == lapsed(
                    self@.connections[other].info,
                ) by {
                    vstd::seq_lib::lemma_seq_contains_after_push(seen, id, DeviceId(other));
                    assert(before.contains_key(other));
                }
                assert forall|k: int| 0 <= k < j + 1 implies table@.contains_key(
                    (#[trigger] active@[k]).0.0,
                ) && is_refreshed(
                    self@.connections,
                    active@[k].0,
                    active@[k].1,
                    now_ns,
                    table@[active@[k].0.0],
                ) by {
                    if k < j {
                        assert(seen[k] == active@[k].0);
                        assert(ids[k] != ids[j as int]);
                    }
                }
            }
            j += 1;
        }
        assert(ids.take(j as int) =~= ids);
        let order = table.ids();
        let mut infos: Vec<ConnectionInfo> = Vec::new();
        let mut k: usize = 0;
        while k < order.len()
            invariant
                k <= order@.len(),
                infos@.len() == k,
                self@.well_formed(),
                ids == active@.map_values(
                    |entry: (DeviceId, TransportConnectionDiagnostics)| entry.0,
                ),
                forall|id: DeviceId| #[trigger] order@.contains(id) <==> table@.contains_key(id.0),
                forall|id: u128| #[trigger]
                    table@.contains_key(id) <==> self@.connections.contains_key(id) || ids.contains(
                        DeviceId(id),
                    ),
                forall|id: u128| #[trigger]
                    table@.contains_key(id) && !ids.contains(DeviceId(id)) ==> table@[id]
                        == lapsed(self@.connections[id].info),
                forall|n: int|
                    0 <= n < active@.len() ==> table@.contains_key((#[trigger] active@[n]).0.0)
                        && is_refreshed(
                        self@.connections,
                        active@[n].0,
                        active@[n].1,
                        now_ns,
                        table@[active@[n].0.0],
                    ),
                forall|n: int|
                    0 <= n < k ==> (#[trigger] infos@[n]).device_id == order@[n],
                forall|n: int|
                    0 <= n < k ==> #[trigger] is_reported(
                        self@.connections,
                        active@,
                        now_ns,
                        infos@[n],
                    ),
            decreases order@.len() - k,
        {
            let id = order[k];
            assert(order@.contains(id));
            if let Some(info) = table.get(id) {
                assert(table@.contains_key(id.0));
                let copy = info.clone();
                proof {
                    if ids.contains(id) {
                        let n = choose|n: int| 0 <= n < ids.len() && ids[n] == id;
                        assert(active@[n].0 == id);
                        assert(is_refreshed(
                            self@.connections,
                            active@[n].0,
                            active@[n].1,
                            now_ns,
                            copy,
                        ));
                    } else {
                        assert(self@.connections.contains_key(id.0));
                        assert(!is_active(active@, id)) by {
                            if is_active(active@, id) {
                                let n = choose|n: int|
                                    0 <= n < active@.len() && (#[trigger] active@[n]).0 == id;
                                assert(ids[n] == id);
                            }
                        }
                    }
                    assert(is_reported(self@.connections, active@, now_ns, copy));
                }
                infos.push(copy);
            }
            k += 1;
        }
        proof {
            assert(infos@.map_values(|info: ConnectionInfo| info.device_id) =~= order@);
            assert forall|id: DeviceId|
                (exists|i: int| 0 <= i < infos@.len() && (#[trigger] infos@[i]).device_id == id)
                    <==> #[trigger] self@.connections.contains_key(id.0) || is_active(
                    active@,
                    id,
                ) by {
                if exists|i: int| 0 <= i < infos@.len() && (#[trigger] infos@[i]).device_id == id {
                    let i = choose|i: int|
                        0 <= i < infos@.len() && (#[trigger] infos@[i]).device_id == id;
                    assert(order@[i] == id);
                    assert(order@.contains(id));
                    if ids.contains(id) {
                        let n = choose|n: int| 0 <= n < ids.len() && ids[n] == id;
                        assert(active@[n].0 == id);
                    }
                }
                if is_active(active@, id) {
                    let n = choose|n: int|
                        0 <= n < active@.len() && (#[trigger] active@[n]).0 == id;
                    assert(ids[n] == id);
                }
                if self@.connections.contains_key(id.0) || is_active(active@, id) {
                    assert(table@.contains_key(id.0));
                    assert(order@.contains(id));
                    let i = choose|i: int| 0 <= i < order@.len() && order@[i] == id;
                    assert(infos@[i].device_id == id);
                }
            }
        }
        infos
    }
}

/// Whether a device's connection is among the active ones.
pub open spec fn is_active(
    active: Seq<(DeviceId, TransportConnectionDiagnostics)>,
    id: DeviceId,
) -> bool {
    exists|i: int| 0 <= i < active.len() && (#[trigger] active[i]).0 == id
}

/// What is shown of a connection that is not active.
pub open spec fn lapsed(info: ConnectionInfo) -> ConnectionInfo {
    if info.state == ConnectionState::Connected {
        ConnectionInfo {
            state: ConnectionState::Disconnected,
            datagram_available: false,
            rtt_ms: None,
            last_datagram_rx_ms: None,
            cert_trust_state: None,
            ..info
        }
    } else {
        info
    }
}

/// Whether `info` is what is shown of a connection that is active: how it is doing, and
/// what was known of it before.
pub open spec fn is_refreshed(
    connections: Map<u128, CanonicalConnection>,
    id: DeviceId,
    diagnostics: TransportConnectionDiagnostics,
    now_ns: u64,
    info: ConnectionInfo,
) -> bool {
    let known = connections.contains_key(id.0);
    let before = connections[id.0].info;
    &&& info.device_id == id
    &&& info.state == ConnectionState::Connected
    &&& info.address@ == diagnostics.address@
    &&& info.transport@ == diagnostics.transport@
    &&& info.datagram_available == diagnostics.datagram_available
    &&& info.rtt_ms == diagnostics.rtt_ms
    &&& info.last_datagram_rx_ms == diagnostics.last_datagram_rx_ms
    &&& info.datagram_tx_dropped == diagnostics.datagram_tx_dropped
    &&& info.reliable_stream_reset_count == diagnostics.reliable_stream_reset_count
    &&& info.cert_trust_state == diagnostics.cert_trust_state
    &&& info.last_activity_ns == if known {
        before.last_activity_ns
    } else {
        now_ns
    }
    &&& info.messages_sent == if known {
        before.messages_sent
    } else {
        0
    }
    &&& info.messages_received == if known {
        before.messages_received
    } else {
        0
    }
    &&& info.control_connection_id == if known {
        before.control_connection_id
    } else {
        None
    }
}

/// Whether `info` is what is shown of its device's connection.
pub open spec fn is_reported(
    connections: Map<u128, CanonicalConnection>,
    active: Seq<(DeviceId, TransportConnectionDiagnostics)>,
    now_ns: u64,
    info: ConnectionInfo,
) -> bool {
    let id = info.device_id;
    if is_active(active, id) {
        exists|i: int|
            0 <= i < active.len() && (#[trigger] active[i]).0 == id && is_refreshed(
                connections,
                id,
                active[i].1,
                now_ns,
                info,
            )
    } else {
        connections.contains_key(id.0) && info == lapsed(connections[id.0].info)
    }
}

fn lapse(info: ConnectionInfo) -> (shown: ConnectionInfo)
    ensures
        shown == lapsed(info),
{
    let mut shown = info;
    if shown.state == ConnectionState::Connected {
        shown.state = ConnectionState::Disconnected;
        shown.datagram_available = false;
        shown.rtt_ms = None;
        shown.last_datagram_rx_ms = None;
        shown.cert_trust_state = None;
    }
    shown
}

fn refresh(info: ConnectionInfo, diagnostics: &TransportConnectionDiagnostics) -> (shown:
    ConnectionInfo)
    ensures
        shown.device_id == info.device_id,
        shown.state == ConnectionState::Connected,
        shown.address@ == diagnostics.address@,
        shown.transport@ == diagnostics.transport@,
        shown.datagram_available == diagnostics.datagram_available,
        shown.rtt_ms == diagnostics.rtt_ms,
        shown.last_datagram_rx_ms == diagnostics.last_datagram_rx_ms,
        shown.datagram_tx_dropped == diagnostics.datagram_tx_dropped,
        shown.reliable_stream_reset_count == diagnostics.reliable_stream_reset_count,
        shown.cert_trust_state == diagnostics.cert_trust_state,
        shown.last_activity_ns == info.last_activity_ns,
        shown.messages_sent == info.messages_sent,
        shown.messages_received == info.messages_received,
        shown.control_connection_id == info.control_connection_id,
{
    let diagnostics = diagnostics.clone();
    ConnectionInfo {
        device_id: info.device_id,
        address: diagnostics.address,
        state: ConnectionState::Connected,
        last_activity_ns: info.last_activity_ns,
        messages_sent: info.messages_sent,
        messages_received: info.messages_received,
        transport: diagnostics.transport.to_owned(),
        datagram_available: diagnostics.datagram_available,
        rtt_ms: diagnostics.rtt_ms,
        last_datagram_rx_ms: diagnostics.last_datagram_rx_ms,
        datagram_tx_dropped: diagnostics.datagram_tx_dropped,
        reliable_stream_reset_count: diagnostics.reliable_stream_reset_count,
        cert_trust_state: diagnostics.cert_trust_state,
        control_connection_id: info.control_connection_id,
    }
}

/// A connection that is asked about after another one took its place cannot change a
/// thing: neither its end, nor the failure to hand it on, nor a message that went out on
/// it.
pub proof fn late_generations_are_inert<C, T>(
    state: ManagerState<C, T>,
    device_id: DeviceId,
    generation: u64,
    sent_on: PooledSendIdentity,
    now_ns: u64,
)
    requires
        !state.current(device_id, generation),
        sent_on.lifecycle_generation == generation,
    ensures
        state.after_retire(device_id, generation) == state,
        state.after_send(device_id, SelectedSendIdentity::Pool(sent_on), now_ns) == state,
{
}

/// A message is counted for no connection but the one it went out on.
pub proof fn sends_count_for_their_connection<C, T>(
    state: ManagerState<C, T>,
    device_id: DeviceId,
    sent_on: ControlConnectionId,
    now_ns: u64,
)
    requires
        state.authenticated(device_id) != Some(sent_on),
    ensures
        state.after_send(device_id, SelectedSendIdentity::Control(sent_on), now_ns) == state,
{
}

/// Nothing of a device is left once it was disconnected: no connection, none in the pool,
/// and nothing registered for the connection that spoke for it.
pub proof fn disconnecting_leaves_nothing<C, T>(state: ManagerState<C, T>, device_id: DeviceId)
    ensures
        ({
            let after = state.after_disconnect(device_id);
            &&& !after.connections.contains_key(device_id.0)
            &&& !after.pool.contains_key(device_id.0)
            &&& state.authenticated(device_id) matches Some(id) ==> !(after.peers.contains_key(
                device_id.0,
            ) && after.peers[device_id.0].auth.control_connection_id == id)
        }),
{
}

/// The end of one device's connection leaves every other device alone.
pub proof fn retiring_touches_one_device<C, T>(
    state: ManagerState<C, T>,
    device_id: DeviceId,
    generation: u64,
    other: DeviceId,
)
    requires
        other != device_id,
    ensures
        ({
            let after = state.after_retire(device_id, generation);
            &&& after.connections.contains_key(other.0) == state.connections.contains_key(other.0)
            &&& after.connections[other.0] == state.connections[other.0]
            &&& after.peers.contains_key(other.0) == state.peers.contains_key(other.0)
            &&& after.peers[other.0] == state.peers[other.0]
            &&& after.pool.contains_key(other.0) == state.pool.contains_key(other.0)
            &&& after.pool[other.0] == state.pool[other.0]
        }),
{
}

/// A generation that is given out now was never in use: whatever speaks for a device, or
/// is pooled for it, is of another one.
pub proof fn generations_are_fresh<C, T>(state: ManagerState<C, T>, device_id: DeviceId)
    requires
        state.well_formed(),
    ensures
        !state.current(device_id, state.next_generation),
        state.pool.contains_key(device_id.0) ==> state.pool[device_id.0].generation
            != state.next_generation,
{
}

/// Which way a message to a device takes.
pub enum SendRoute {
    Control(ControlFrame),
    Bulk(BulkFrame),
    Telemetry(TelemetryFrame),
    ReliableCompat(ReliableCompatFrame),
    /// The pooled connection, whatever it is.
    Pool,
}

/// Which way a message takes. Lanes are there for registered peers only.
pub open spec fn send_route(registered: bool, message: Message) -> SendRoute {
    match ClassifiedMessage::of(message) {
        ClassifiedMessage::Control(frame) if registered => SendRoute::Control(frame),
        ClassifiedMessage::Bulk(frame) if registered => SendRoute::Bulk(frame),
        ClassifiedMessage::Telemetry(frame) if registered => SendRoute::Telemetry(frame),
        ClassifiedMessage::ReliableCompat(frame) if registered => SendRoute::ReliableCompat(frame),
        _ => SendRoute::Pool,
    }
}

/// Decides which way a message takes.
pub fn send_to(registered: bool, message: Message) -> (route: SendRoute)
    ensures
        route == send_route(registered, message),
{
    if !registered {
        return SendRoute::Pool;
    }
    match ClassifiedMessage::try_from(message) {
        Ok(ClassifiedMessage::Control(frame)) => SendRoute::Control(frame),
        Ok(ClassifiedMessage::Bulk(frame)) => SendRoute::Bulk(frame),
        Ok(ClassifiedMessage::Telemetry(frame)) => SendRoute::Telemetry(frame),
        Ok(ClassifiedMessage::ReliableCompat(frame)) => SendRoute::ReliableCompat(frame),
        _ => SendRoute::Pool,
    }
}

/// Which way a message to every connection takes.
pub enum ManagerBroadcastRoute {
    Control(ControlFrame),
    Bulk(BulkFrame),
    Telemetry(TelemetryFrame),
    ReliableCompat(ReliableCompatFrame),
    /// Every pooled connection, whatever it is.
    Pool,
}

/// Which way a message to every connection takes: the lanes of the registered peers, however
/// many there are, and the pooled connections only where no lane takes the message.
pub open spec fn broadcast_route(message: Message) -> ManagerBroadcastRoute {
    match ClassifiedMessage::of(message) {
        ClassifiedMessage::Control(frame) => ManagerBroadcastRoute::Control(frame),
        ClassifiedMessage::Bulk(frame) => ManagerBroadcastRoute::Bulk(frame),
        ClassifiedMessage::Telemetry(frame) => ManagerBroadcastRoute::Telemetry(frame),
        ClassifiedMessage::ReliableCompat(frame) => ManagerBroadcastRoute::ReliableCompat(frame),
        ClassifiedMessage::Unsupported => ManagerBroadcastRoute::Pool,
    }
}

/// Decides which way a message to every connection takes.
pub fn broadcast(message: Message) -> (route: ManagerBroadcastRoute)
    ensures
        route == broadcast_route(message),
{
    match ClassifiedMessage::try_from(message) {
        Ok(ClassifiedMessage::Control(frame)) => ManagerBroadcastRoute::Control(frame),
        Ok(ClassifiedMessage::Bulk(frame)) => ManagerBroadcastRoute::Bulk(frame),
        Ok(ClassifiedMessage::Telemetry(frame)) => ManagerBroadcastRoute::Telemetry(frame),
        Ok(ClassifiedMessage::ReliableCompat(frame)) => {
            ManagerBroadcastRoute::ReliableCompat(frame)
        },
        _ => ManagerBroadcastRoute::Pool,
    }
}

/// A message to a registered peer, or to all of them, takes the lane that it belongs on, as the
/// very frame that stands for it.
pub proof fn messages_take_the_lane_of_their_frame(
    control: ControlFrame,
    bulk: BulkFrame,
    telemetry: TelemetryFrame,
    compat: ReliableCompatFrame,
)
    ensures
        send_route(true, control.message()) == SendRoute::Control(control),
        send_route(true, bulk.message()) == SendRoute::Bulk(bulk),
        send_route(true, telemetry.message()) == SendRoute::Telemetry(telemetry),
        send_route(true, compat.message()) == SendRoute::ReliableCompat(compat),
        broadcast_route(control.message()) == ManagerBroadcastRoute::Control(control),
        broadcast_route(bulk.message()) == ManagerBroadcastRoute::Bulk(bulk),
        broadcast_route(telemetry.message()) == ManagerBroadcastRoute::Telemetry(telemetry),
        broadcast_route(compat.message()) == ManagerBroadcastRoute::ReliableCompat(compat),
{
}

/// Whatever way a message takes, what goes out stands for that message. The pooled connection
/// is taken by whoever is not registered, and for messages that belong on no lane.
pub proof fn routes_stand_for_their_message(
    registered: bool,
    message: Message,
    lane: LaneDiscriminator,
)
    ensures
        match send_route(registered, message) {
            SendRoute::Control(frame) => registered && frame.message() == message,
            SendRoute::Bulk(frame) => registered && frame.message() == message,
            SendRoute::Telemetry(frame) => registered && frame.message() == message,
            SendRoute::ReliableCompat(frame) => registered && frame.message() == message,
            SendRoute::Pool => !registered || !ClassifiedMessage::of(message).belongs_on(lane.tag()),
        },
        match broadcast_route(message) {
            ManagerBroadcastRoute::Control(frame) => frame.message() == message,
            ManagerBroadcastRoute::Bulk(frame) => frame.message() == message,
            ManagerBroadcastRoute::Telemetry(frame) => frame.message() == message,
            ManagerBroadcastRoute::ReliableCompat(frame) => frame.message() == message,
            ManagerBroadcastRoute::Pool => !ClassifiedMessage::of(message).belongs_on(lane.tag()),
        },
{
}

/// Whether a broadcast has reached everybody; if not, the first device that it did not
/// reach.
pub fn ensure_broadcast_success(
    results: &Vec<(DeviceId, Result<(), TransportSendError>)>,
) -> (reached: Result<(), (DeviceId, TransportSendError)>)
    ensures
        match reached {
            Ok(()) => forall|i: int| 0 <= i < results@.len() ==> (#[trigger] results@[i]).1 is Ok,
            Err((device_id, error)) => exists|i: int|
                {
                    &&& 0 <= i < results@.len()
                    &&& #[trigger] results@[i] == (device_id, Err::<(), _>(error))
                    &&& forall|k: int| 0 <= k < i ==> (#[trigger] results@[k]).1 is Ok
                },
        },
{
    let mut i: usize = 0;
    while i < results.len()
        invariant
            i <= results@.len(),
            forall|k: int| 0 <= k < i ==> (#[trigger] results@[k]).1 is Ok,
        decreases results@.len() - i,
    {
        if let Err(error) = &results[i].1 {
            return Err((results[i].0, *error));
        }
        i += 1;
    }
    Ok(())
}

/// What is known of a connection that is just being made: who is called where, and when, and
/// nothing that only a connection can have.
pub proof fn new_connections_have_done_nothing(
    info: ConnectionInfo,
    device_id: DeviceId,
    address: Seq<char>,
    now_ns: u64,
    timeout_ns: u64,
)
    requires
        info.is_fresh(device_id, address, now_ns),
    ensures
        info.device_id == device_id,
        info.address@ == address,
        info.state is Connecting,
        info.last_activity_ns == now_ns,
        info.messages_sent == 0 && info.messages_received == 0,
        info.transport@ == "quic"@,
        !info.datagram_available,
        info.datagram_tx_dropped == 0 && info.reliable_stream_reset_count == 0,
        info.rtt_ms is None && info.last_datagram_rx_ms is None,
        info.cert_trust_state is None && info.control_connection_id is None,
        !info.stale(now_ns, timeout_ns),
{
}

/// A connection that is up is never stale. Any other is, as soon as more time has gone by
/// since its last activity than it is given, and not before; it does not stop being so.
pub proof fn idle_attempts_become_stale(
    info: ConnectionInfo,
    now_ns: u64,
    later_ns: u64,
    timeout_ns: u64,
)
    requires
        now_ns <= later_ns,
    ensures
        info.state is Connected ==> !info.stale(now_ns, timeout_ns),
        !(info.state is Connected) && now_ns > info.last_activity_ns + timeout_ns ==> info.stale(
            now_ns,
            timeout_ns,
        ),
        now_ns <= info.last_activity_ns + timeout_ns ==> !info.stale(now_ns, timeout_ns),
        info.stale(now_ns, timeout_ns) ==> info.stale(later_ns, timeout_ns),
{
}

/// The end of the connection that speaks for a device takes the device out, together with
/// what is pooled under that generation and registered for that connection, and nothing else
/// that is kept for it.
pub proof fn retiring_ends_the_current_connection<C, T>(
    state: ManagerState<C, T>,
    device_id: DeviceId,
)
    requires
        state.connections.contains_key(device_id.0),
    ensures
        ({
            let id = device_id.0;
            let current = state.connections[id];
            let after = state.after_retire(device_id, current.generation);
            let pooled = state.pool.contains_key(id) && state.pool[id].generation
                == current.generation;
            let registered = state.peers.contains_key(id)
                && current.info.control_connection_id == Some(
                state.peers[id].auth.control_connection_id,
            );
            &&& !after.connections.contains_key(id)
            &&& after.next_generation == state.next_generation
            &&& pooled ==> !after.pool.contains_key(id)
            &&& !pooled ==> after.pool == state.pool
            &&& registered ==> !after.peers.contains_key(id)
            &&& !registered ==> after.peers == state.peers
        }),
{
}

/// The end of a generation that does not speak for a device, or of a device that has no
/// connection, is no news.
pub proof fn retiring_another_generation_changes_nothing<C, T>(
    state: ManagerState<C, T>,
    device_id: DeviceId,
    generation: u64,
)
    requires
        state.connections.contains_key(device_id.0) ==> state.connections[device_id.0].generation
            != generation,
    ensures
        state.after_retire(device_id, generation) == state,
{
}

/// Disconnecting a device leaves every other device alone, and what was registered for it by
/// another connection.
pub proof fn disconnecting_touches_one_device<C, T>(
    state: ManagerState<C, T>,
    device_id: DeviceId,
    other: DeviceId,
)
    ensures
        ({
            let after = state.after_disconnect(device_id);
            &&& after.next_generation == state.next_generation
            &&& other != device_id ==> after.connections.contains_key(other.0)
                == state.connections.contains_key(other.0) && after.connections[other.0]
                == state.connections[other.0]
            &&& other != device_id ==> after.pool.contains_key(other.0) == state.pool.contains_key(
                other.0,
            ) && after.pool[other.0] == state.pool[other.0]
            &&& other != device_id ==> after.peers.contains_key(other.0)
                == state.peers.contains_key(other.0) && after.peers[other.0] == state.peers[other.0]
            &&& state.peers.contains_key(device_id.0) && state.authenticated(device_id) != Some(
                state.peers[device_id.0].auth.control_connection_id,
            ) ==> after.peers.contains_key(device_id.0) && after.peers[device_id.0]
                == state.peers[device_id.0]
        }),
{
}

/// After some devices were disconnected, whatever their order, none of them has a connection
/// or a pooled one, and every other device has what it had.
pub proof fn disconnecting_several_leaves_the_others<C, T>(
    state: ManagerState<C, T>,
    ids: Seq<DeviceId>,
    id: DeviceId,
)
    ensures
        ({
            let after = state.after_disconnects(ids);
            &&& after.next_generation == state.next_generation
            &&& ids.contains(id) ==> !after.connections.contains_key(id.0)
                && !after.pool.contains_key(id.0)
            &&& !ids.contains(id) ==> after.connections.contains_key(id.0)
                == state.connections.contains_key(id.0) && after.connections[id.0]
                == state.connections[id.0]
            &&& !ids.contains(id) ==> after.pool.contains_key(id.0) == state.pool.contains_key(id.0)
                && after.pool[id.0] == state.pool[id.0]
            &&& !ids.contains(id) ==> after.peers.contains_key(id.0) == state.peers.contains_key(
                id.0,
            ) && after.peers[id.0] == state.peers[id.0]
        }),
    decreases ids.len(),
{
    if ids.len() > 0 {
        let earlier = ids.drop_last();
        let last = ids.last();
        disconnecting_several_leaves_the_others(state, earlier, id);
        disconnecting_touches_one_device(state.after_disconnects(earlier), last, id);
        disconnecting_leaves_nothing(state.after_disconnects(earlier), last);
        if ids.contains(id) && id != last {
            let k = choose|k: int| 0 <= k < ids.len() && ids[k] == id;
            assert(earlier[k] == id);
        }
        if earlier.contains(id) {
            let k = choose|k: int| 0 <= k < earlier.len() && earlier[k] == id;
            assert(ids[k] == id);
        }
        assert(ids[ids.len() - 1] == last);
    }
}

/// The authenticated connection of a device is the one that stands with its connection.
pub proof fn authenticated_connections_stand_with_their_device<C, T>(
    state: ManagerState<C, T>,
    device_id: DeviceId,
    id: ControlConnectionId,
)
    ensures
        state.authenticated(device_id) == Some(id) <==> state.connections.contains_key(device_id.0)
            && state.connections[device_id.0].info.control_connection_id == Some(id),
        state.pooled(device_id) is Some <==> state.pool.contains_key(device_id.0),
        state.pool.contains_key(device_id.0) ==> state.pooled(device_id) == Some(
            state.pool[device_id.0].connection,
        ),
{
}

/// A message that went out on the connection that speaks for a device is counted there once,
/// and is that connection's last activity. Nothing else changes.
pub proof fn sent_messages_are_counted_once<C, T>(
    state: ManagerState<C, T>,
    device_id: DeviceId,
    identity: SelectedSendIdentity,
    now_ns: u64,
)
    requires
        state.connections.contains_key(device_id.0),
        state.connections[device_id.0].info.messages_sent < u64::MAX,
        match identity {
            SelectedSendIdentity::Control(id) => Some(id)
                == state.connections[device_id.0].info.control_connection_id,
            SelectedSendIdentity::Pool(pooled) => pooled.lifecycle_generation
                == state.connections[device_id.0].generation && pooled.control_connection_id
                == state.connections[device_id.0].info.control_connection_id,
        },
    ensures
        ({
            let before = state.connections[device_id.0];
            let after = state.after_send(device_id, identity, now_ns);
            let counted = after.connections[device_id.0];
            &&& after.connections.dom() == state.connections.dom()
            &&& counted.info.messages_sent == before.info.messages_sent + 1
            &&& counted.info.last_activity_ns == now_ns
            &&& counted.generation == before.generation
            &&& counted.info.messages_received == before.info.messages_received
            &&& counted.info.state == before.info.state
            &&& counted.info.device_id == before.info.device_id
            &&& counted.info.control_connection_id == before.info.control_connection_id
            &&& forall|other: u128|
                other != device_id.0 ==> #[trigger] after.connections[other]
                    == state.connections[other]
            &&& after.peers == state.peers
            &&& after.pool == state.pool
            &&& after.next_generation == state.next_generation
        }),
{
    assert(state.after_send(device_id, identity, now_ns).connections.dom()
        =~= state.connections.dom());
}

/// What is shown of a device whose connection is active is how that connection is doing, with
/// what was counted for it before.
pub proof fn active_connections_are_shown_as_they_are(
    connections: Map<u128, CanonicalConnection>,
    active: Seq<(DeviceId, TransportConnectionDiagnostics)>,
    now_ns: u64,
    info: ConnectionInfo,
    i: int,
)
    requires
        is_reported(connections, active, now_ns, info),
        active.map_values(
            |entry: (DeviceId, TransportConnectionDiagnostics)| entry.0,
        ).no_duplicates(),
        0 <= i < active.len(),
        active[i].0 == info.device_id,
    ensures
        info.state is Connected,
        info.address@ == active[i].1.address@,
        info.transport@ == active[i].1.transport@,
        info.datagram_available == active[i].1.datagram_available,
        info.rtt_ms == active[i].1.rtt_ms,
        info.last_datagram_rx_ms == active[i].1.last_datagram_rx_ms,
        info.datagram_tx_dropped == active[i].1.datagram_tx_dropped,
        info.reliable_stream_reset_count == active[i].1.reliable_stream_reset_count,
        info.cert_trust_state == active[i].1.cert_trust_state,
        connections.contains_key(info.device_id.0) ==> info.messages_sent
            == connections[info.device_id.0].info.messages_sent && info.messages_received
            == connections[info.device_id.0].info.messages_received && info.last_activity_ns
            == connections[info.device_id.0].info.last_activity_ns && info.control_connection_id
            == connections[info.device_id.0].info.control_connection_id,
        !connections.contains_key(info.device_id.0) ==> info.messages_sent == 0
            && info.messages_received == 0 && info.last_activity_ns == now_ns
            && info.control_connection_id is None,
{
    let ids = active.map_values(|entry: (DeviceId, TransportConnectionDiagnostics)| entry.0);
    assert(is_active(active, info.device_id));
    let k = choose|k: int|
        0 <= k < active.len() && (#[trigger] active[k]).0 == info.device_id && is_refreshed(
            connections,
            info.device_id,
            active[k].1,
            now_ns,
            info,
        );
    assert(ids[k] == ids[i]);
}

/// A connection that is not active is never shown as up. Apart from that, and from what only
/// a connection that is up can have, it is shown as it is known.
pub proof fn inactive_connections_are_not_shown_as_up(
    connections: Map<u128, CanonicalConnection>,
    active: Seq<(DeviceId, TransportConnectionDiagnostics)>,
    now_ns: u64,
    info: ConnectionInfo,
)
    requires
        is_reported(connections, active, now_ns, info),
        forall|i: int| 0 <= i < active.len() ==> (#[trigger] active[i]).0 != info.device_id,
    ensures
        ({
            let known = connections[info.device_id.0].info;
            &&& connections.contains_key(info.device_id.0)
            &&& !(info.state is Connected)
            &&& known.state is Connected ==> info.state is Disconnected
            &&& known.state is Connected ==> !info.datagram_available && info.rtt_ms is None
                && info.last_datagram_rx_ms is None && info.cert_trust_state is None
            &&& !(known.state is Connected) ==> info == known
            &&& info.address == known.address
            &&& info.messages_sent == known.messages_sent
            &&& info.messages_received == known.messages_received
            &&& info.last_activity_ns == known.last_activity_ns
            &&& info.control_connection_id == known.control_connection_id
        }),
{
}

} // verus!
