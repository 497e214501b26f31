//! The authenticated peers, each with the connection that speaks for it.

use bytes::Bytes;
use vstd::prelude::*;

use crate::handshake::PeerAuthContext;
use crate::qos::{TelemetryFrame, TransportSendError};
use crate::sender::PeerTransportHandle;
use crate::table::{strictly_ascending, DeviceTable};
use crate::types::{ControlConnectionId, DeviceId, RealtimeInputFrame};

verus! {

/// A peer and what reaches it.
pub struct RegisteredPeer<T> {
    pub auth: PeerAuthContext,
    pub transport: T,
}

/// One connection per peer. A connection that takes over replaces the one before.
pub struct ConnectionRegistry<T> {
    pub peers: DeviceTable<RegisteredPeer<T>>,
}

impl<T> View for ConnectionRegistry<T> {
    type V = Map<u128, RegisteredPeer<T>>;

    /// The peers, by the bits of their device's identifier.
    open spec fn view(&self) -> Map<u128, RegisteredPeer<T>> {
        self.peers@
    }
}

/// The peers after the connection `connection_id` of a device has ended.
pub open spec fn without_generation<T>(
    peers: Map<u128, RegisteredPeer<T>>,
    id: DeviceId,
    connection_id: ControlConnectionId,
) -> Map<u128, RegisteredPeer<T>> {
    if speaks_for(peers, id, connection_id) {
        peers.remove(id.0)
    } else {
        peers
    }
}

/// Whether a device is reached through the connection `connection_id`.
pub open spec fn speaks_for<T>(
    peers: Map<u128, RegisteredPeer<T>>,
    id: DeviceId,
    connection_id: ControlConnectionId,
) -> bool {
    peers.contains_key(id.0) && peers[id.0].auth.control_connection_id == connection_id
}

impl<T> ConnectionRegistry<T> {
    pub fn new() -> (registry: Self)
        ensures
            registry@ == Map::<u128, RegisteredPeer<T>>::empty(),
    {
        ConnectionRegistry { peers: DeviceTable::new() }
    }

    /// Enters a peer, and hands back the entry that it replaces.
    pub fn insert(&mut self, id: DeviceId, peer: RegisteredPeer<T>) -> (replaced: Option<
        RegisteredPeer<T>,
    >)
        ensures
            final(self)@ == old(self)@.insert(id.0, peer),
            match replaced {
                Some(previous) => old(self)@.contains_key(id.0) && previous == old(self)@[id.0],
                None => !old(self)@.contains_key(id.0),
            },
    {
        self.peers.insert(id, peer)
    }

    /// The entry of a peer.
    pub fn peer(&self, id: DeviceId) -> (peer: Option<&RegisteredPeer<T>>)
        ensures
            match peer {
                Some(found) => self@.contains_key(id.0) && *found == self@[id.0],
                None => !self@.contains_key(id.0),
            },
    {
        self.peers.get(id)
    }

    /// All entries, by ascending identifier.
    pub fn snapshot(&self) -> (peers: Vec<(DeviceId, &RegisteredPeer<T>)>)
        ensures
            peers@.len() == self@.dom().len(),
            strictly_ascending(peers@.map_values(|entry: (DeviceId, &RegisteredPeer<T>)| entry.0)),
            forall|i: int|
                0 <= i < peers@.len() ==> self@.contains_key((#[trigger] peers@[i]).0.0)
                    && *peers@[i].1 == self@[peers@[i].0.0],
            forall|id: DeviceId| #[trigger]
                self@.contains_key(id.0) ==> exists|i: int|
                    0 <= i < peers@.len() && (#[trigger] peers@[i]).0 == id,
    {
        let ids = self.peers.ids();
        let mut peers: Vec<(DeviceId, &RegisteredPeer<T>)> = Vec::new();
        let mut i: usize = 0;
        while i < ids.len()
            invariant
                i <= ids@.len(),
                peers@.len() == i,
                forall|id: DeviceId| #[trigger] ids@.contains(id) <==> self@.contains_key(id.0),
                forall|k: int|
                    0 <= k < i ==> (#[trigger] peers@[k]).0 == ids@[k] && self@.contains_key(
                        peers@[k].0.0,
                    ) && *peers@[k].1 == self@[peers@[k].0.0],
            decreases ids@.len() - i,
        {
            let id = ids[i];
            assert(ids@.contains(id));
            if let Some(peer) = self.peers.get(id) {
                peers.push((id, peer));
            }
            i += 1;
        }
        proof {
            assert(peers@.map_values(|entry: (DeviceId, &RegisteredPeer<T>)| entry.0) =~= ids@);
            assert forall|id: DeviceId| #[trigger] self@.contains_key(id.0) implies exists|i: int|
                0 <= i < peers@.len() && (#[trigger] peers@[i]).0 == id by {
                assert(ids@.contains(id));
                let k = choose|k: int| 0 <= k < ids@.len() && ids@[k] == id;
                assert(peers@[k].0 == id);
            }
        }
        peers
    }

    /// Takes a peer out, if it is still reached through the connection that ended.
    pub fn remove_if_generation(
        &mut self,
        id: DeviceId,
        connection_id: ControlConnectionId,
    ) -> (removed: Option<RegisteredPeer<T>>)
        ensures
            final(self)@ == without_generation(old(self)@, id, connection_id),
            match removed {
                Some(peer) => speaks_for(old(self)@, id, connection_id) && peer
                    == old(self)@[id.0],
                None => !speaks_for(old(self)@, id, connection_id),
            },
    {
        let current = match self.peers.get(id) {
            Some(peer) => peer.auth.control_connection_id == connection_id,
            None => false,
        };
        if current {
            self.peers.remove(id)
        } else {
            None
        }
    }

    /// How many peers there are.
    pub fn len(&self) -> (count: usize)
        ensures
            count == self@.dom().len(),
    {
        self.peers.len()
    }

    /// Whether there is no peer.
    pub fn is_empty(&self) -> (empty: bool)
        ensures
            empty == (self@.dom().len() == 0),
    {
        self.peers.is_empty()
    }
}

impl ConnectionRegistry<PeerTransportHandle> {
    /// Whether every sender is well-formed.
    pub open spec fn well_formed(self) -> bool {
        forall|id: u128| #[trigger]
            self@.contains_key(id) ==> self@[id].transport@.well_formed()
    }

    /// Offers a measurement to every peer. One that cannot take it does not keep it from
    /// the others.
    pub fn broadcast_telemetry(&mut self, frame: TelemetryFrame) -> (results: Vec<
        (DeviceId, Result<(), TransportSendError>),
    >)
        requires
            old(self).well_formed(),
        ensures
            final(self).well_formed(),
            final(self)@.dom() == old(self)@.dom(),
            results@.len() == old(self)@.dom().len(),
            strictly_ascending(
                results@.map_values(|entry: (DeviceId, Result<(), TransportSendError>)| entry.0),
            ),
            forall|i: int|
                0 <= i < results@.len() ==> {
                    let (id, result) = #[trigger] results@[i];
                    &&& old(self)@.contains_key(id.0)
                    &&& final(self)@[id.0].auth == old(self)@[id.0].auth
                    &&& final(self)@[id.0].transport.auth == old(self)@[id.0].transport.auth
                    &&& (final(self)@[id.0].transport@, result)
                        == old(self)@[id.0].transport@.after_telemetry(frame)
                },
    {
        let ids = self.peers.ids();
        let mut results: Vec<(DeviceId, Result<(), TransportSendError>)> = Vec::new();
        let mut i: usize = 0;
        while i < ids.len()
            invariant
                i <= ids@.len(),
                results@.len() == i,
                strictly_ascending(ids@),
                self.well_formed(),
                old(self).well_formed(),
                self@.dom() == old(self)@.dom(),
                forall|id: DeviceId| #[trigger]
                    ids@.contains(id) <==> old(self)@.contains_key(id.0),
                forall|k: int| i <= k < ids@.len() ==> self@[(#[trigger] ids@[k]).0] == old(self)@[ids@[k].0],
                forall|k: int|
                    0 <= k < i ==> {
                        let (id, result) = #[trigger] results@[k];
                        &&& id == ids@[k]
                        &&& old(self)@.contains_key(id.0)
                        &&& self@[id.0].auth == old(self)@[id.0].auth
                        &&& self@[id.0].transport.auth == old(self)@[id.0].transport.auth
                        &&& (self@[id.0].transport@, result)
                            == old(self)@[id.0].transport@.after_telemetry(frame)
                    },
            decreases ids@.len() - i,
        {
            let id = ids[i];
            assert(ids@.contains(id));
            assert(self@.dom().contains(id.0));
            let ghost before = self@;
            if let Some(mut peer) = self.peers.remove(id) {
                assert(before.contains_key(id.0));
                let result = peer.transport.try_send_telemetry(frame);
                self.peers.insert(id, peer);
                results.push((id, result));
                assert(self@.dom() =~= before.dom());
                assert forall|other: u128| #[trigger] self@.contains_key(other) implies self@[
                    other
                ].transport@.well_formed() by {
                    assert(before.contains_key(other));
                }
            }
            i += 1;
        }
        assert(results@.map_values(|entry: (DeviceId, Result<(), TransportSendError>)| entry.0)
            =~= ids@);
        results
    }

    /// The datagrams of a realtime frame, one for each peer.
    pub fn broadcast_realtime(&self, frame: &RealtimeInputFrame) -> (results: Vec<
        (DeviceId, Result<Option<Bytes>, TransportSendError>),
    >)
        ensures
            results@.len() == self@.dom().len(),
            strictly_ascending(
                results@.map_values(
                    |entry: (DeviceId, Result<Option<Bytes>, TransportSendError>)| entry.0,
                ),
            ),
            forall|i: int|
                0 <= i < results@.len() ==> self@.contains_key((#[trigger] results@[i]).0.0)
                    && self@[results@[i].0.0].transport@.is_datagram(*frame, results@[i].1),
    {
        let peers = self.snapshot();
        let mut results: Vec<(DeviceId, Result<Option<Bytes>, TransportSendError>)> = Vec::new();
        let mut i: usize = 0;
        while i < peers.len()
            invariant
                i <= peers@.len(),
                results@.len() == i,
                forall|k: int|
                    0 <= k < peers@.len() ==> self@.contains_key((#[trigger] peers@[k]).0.0)
                        && *peers@[k].1 == self@[peers@[k].0.0],
                forall|k: int|
                    0 <= k < i ==> (#[trigger] results@[k]).0 == peers@[k].0
                        && self@[results@[k].0.0].transport@.is_datagram(*frame, results@[k].1),
            decreases peers@.len() - i,
        {
            let entry = &peers[i];
            results.push((entry.0, entry.1.transport.try_send_realtime(frame)));
            i += 1;
        }
        assert(results@.map_values(
            |entry: (DeviceId, Result<Option<Bytes>, TransportSendError>)| entry.0,
        ) =~= peers@.map_values(
            |entry: (DeviceId, &RegisteredPeer<PeerTransportHandle>)| entry.0,
        ));
        results
    }
}

/// A connection that ends late does not take the one with it that has replaced it.
pub proof fn late_removal_keeps_the_replacement<T>(
    peers: Map<u128, RegisteredPeer<T>>,
    id: DeviceId,
    replacement: RegisteredPeer<T>,
    ended: ControlConnectionId,
)
    requires
        replacement.auth.control_connection_id != ended,
    ensures
        without_generation(peers.insert(id.0, replacement), id, ended) == peers.insert(
            id.0,
            replacement,
        ),
{
}

/// The end of one device's connection leaves every other device alone.
pub proof fn removal_touches_one_device<T>(
    peers: Map<u128, RegisteredPeer<T>>,
    id: DeviceId,
    ended: ControlConnectionId,
    other: DeviceId,
)
    requires
        other != id,
    ensures
        without_generation(peers, id, ended).contains_key(other.0) == peers.contains_key(other.0),
        peers.contains_key(other.0) ==> without_generation(peers, id, ended)[other.0]
            == peers[other.0],
{
}

/// A device that is reached through the connection that ended is not reached any more.
pub proof fn ended_connections_are_taken_out<T>(
    peers: Map<u128, RegisteredPeer<T>>,
    id: DeviceId,
)
    requires
        peers.contains_key(id.0),
    ensures
        speaks_for(peers, id, peers[id.0].auth.control_connection_id),
        without_generation(peers, id, peers[id.0].auth.control_connection_id) == peers.remove(id.0),
{
}

} // verus!
