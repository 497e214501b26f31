//! Discovery and connections together, as the rest of the service sees them.

use vstd::prelude::*;

use crate::connection::{
    ConnectionInfo, ConnectionManager, ConnectionState, ManagerEvent, ManagerState,
    SelectedSendIdentity,
};
use crate::discovery::{
    DeviceView, DiscoveredDevice, DiscoveryEvent, PeerProtocolCompatibility,
};
use crate::handshake::PeerAuthContext;
use crate::message::Message;
use crate::qos::{
    BulkFrame, ClassifiedMessage, ControlFrame, LaneDiscriminator, TelemetryFrame,
    TransportSendError,
};
use crate::table::DeviceTable;
use crate::text::{decimal, write_decimal};
use crate::types::{ControlConnectionId, DeviceId};

verus! {

/// What happens on the network.
#[derive(Debug)]
#[allow(inconsistent_fields)]
pub enum NetworkEvent {
    DeviceFound(DiscoveredDevice),
    DeviceConnected(PeerAuthContext),
    DeviceDisconnected { peer_id: DeviceId, control_connection_id: ControlConnectionId },
    ControlReceived { auth: PeerAuthContext, frame: ControlFrame },
    ConnectionError {
        peer_id: Option<DeviceId>,
        control_connection_id: Option<ControlConnectionId>,
        error: String,
    },
}

/// Settings of the network.
#[derive(Debug, PartialEq, Eq)]
pub struct NetworkManagerConfig {
    pub discovery_port: u16,
    /// Where connections come in.
    pub bind_address: String,
    /// Without effect: a device that was found is never connected to on its own.
    pub auto_connect: bool,
    pub broadcast_interval_ms: u64,
    pub device_timeout_ms: u64,
}

impl Default for NetworkManagerConfig {
    fn default() -> (config: Self)
        ensures
            config.discovery_port == 27432,
            config.bind_address@ == "0.0.0.0:27431"@,
            !config.auto_connect,
            config.broadcast_interval_ms == 5_000,
            config.device_timeout_ms == 30_000,
    {
        NetworkManagerConfig {
            discovery_port: 27432,
            bind_address: "0.0.0.0:27431".to_owned(),
            auto_connect: false,
            broadcast_interval_ms: 5_000,
            device_timeout_ms: 30_000,
        }
    }
}

/// What a connection's event is to the network. Messages without a lane are not passed
/// on.
pub open spec fn network_event_of(event: ManagerEvent) -> Option<NetworkEvent> {
    match event {
        ManagerEvent::Connected(auth) => Some(NetworkEvent::DeviceConnected(auth)),
        ManagerEvent::Disconnected { peer_id, control_connection_id } => Some(
            NetworkEvent::DeviceDisconnected { peer_id, control_connection_id },
        ),
        ManagerEvent::ControlReceived { auth, frame } => Some(
            NetworkEvent::ControlReceived { auth, frame },
        ),
        ManagerEvent::ProtocolError { auth, error } => Some(
            NetworkEvent::ConnectionError {
                peer_id: Some(auth.peer_id),
                control_connection_id: Some(auth.control_connection_id),
                error,
            },
        ),
        ManagerEvent::Error { peer_id, control_connection_id, error } => Some(
            NetworkEvent::ConnectionError { peer_id, control_connection_id, error },
        ),
        ManagerEvent::MessageReceived { .. } => None,
    }
}

/// Passes a connection's event on.
pub fn forward_connection_event(event: ManagerEvent) -> (forwarded: Option<NetworkEvent>)
    ensures
        forwarded == network_event_of(event),
{
    match event {
        ManagerEvent::Connected(auth) => Some(NetworkEvent::DeviceConnected(auth)),
        ManagerEvent::Disconnected { peer_id, control_connection_id } => Some(
            NetworkEvent::DeviceDisconnected { peer_id, control_connection_id },
        ),
        ManagerEvent::ControlReceived { auth, frame } => Some(
            NetworkEvent::ControlReceived { auth, frame },
        ),
        ManagerEvent::ProtocolError { auth, error } => Some(
            NetworkEvent::ConnectionError {
                peer_id: Some(auth.peer_id),
                control_connection_id: Some(auth.control_connection_id),
                error,
            },
        ),
        ManagerEvent::Error { peer_id, control_connection_id, error } => Some(
            NetworkEvent::ConnectionError { peer_id, control_connection_id, error },
        ),
        ManagerEvent::MessageReceived { .. } => None,
    }
}

/// What the loss of a device on the local network is to the network: nothing. It says
/// nothing of a connection, and a connection's end is told of by the connection alone.
pub fn discovery_lost_network_event(
    _device_id: DeviceId,
    _transport_connected: bool,
) -> (event: Option<NetworkEvent>)
    ensures
        event is None,
{
    None
}

/// What is known of the devices that were found.
pub open spec fn found(devices: DeviceTable<DiscoveredDevice>) -> Map<u128, DeviceView> {
    devices@.map_values(|device: DiscoveredDevice| device@)
}

/// The devices after an event of the discovery.
pub open spec fn found_after(
    devices: Map<u128, DeviceView>,
    event: DiscoveryEvent,
) -> Map<u128, DeviceView> {
    match event {
        DiscoveryEvent::DeviceFound(device) => devices.insert(device@.id.0, device@),
        DiscoveryEvent::DeviceUpdated(device) => devices.insert(device@.id.0, device@),
        DiscoveryEvent::DeviceLost(id) => devices.remove(id.0),
        DiscoveryEvent::Error(_) => devices,
    }
}

/// Notes an event of the discovery. A device that was found or updated is told of; it is
/// not connected to.
pub fn handle_discovery_event(
    devices: &mut DeviceTable<DiscoveredDevice>,
    event: DiscoveryEvent,
    transport_connected: bool,
) -> (told: Option<NetworkEvent>)
    ensures
        found(*final(devices)) == found_after(found(*old(devices)), event),
        match event {
            DiscoveryEvent::DeviceFound(device) => told matches Some(
                NetworkEvent::DeviceFound(copy),
            ) && copy@ == device@,
            DiscoveryEvent::DeviceUpdated(device) => told matches Some(
                NetworkEvent::DeviceFound(copy),
            ) && copy@ == device@,
            _ => told is None,
        },
{
    match event {
        DiscoveryEvent::DeviceFound(device) | DiscoveryEvent::DeviceUpdated(device) => {
            let copy = device.copy();
            let id = device.id;
            devices.insert(id, device);
            assert(found(*devices) =~= found(*old(devices)).insert(id.0, copy@));
            Some(NetworkEvent::DeviceFound(copy))
        },
        DiscoveryEvent::DeviceLost(id) => {
            devices.remove(id);
            assert(found(*devices) =~= found(*old(devices)).remove(id.0));
            discovery_lost_network_event(id, transport_connected)
        },
        DiscoveryEvent::Error(_) => None,
    }
}

/// A device that is known to speak another version of the protocol.
#[derive(Debug, Clone, Copy, PartialEq, Eq, Structural)]
pub struct IncompatiblePeer {
    pub local: u32,
    pub remote: u32,
}

impl IncompatiblePeer {
    /// The refusal in words.
    pub fn text(&self) -> (text: String)
        ensures
            text@ == "Peer protocol is incompatible: local version "@ + decimal(self.local as nat)
                + ", remote version "@ + decimal(self.remote as nat),
    {
        let mut text = "Peer protocol is incompatible: local version ".to_owned();
        text.append(write_decimal(self.local as u64).as_str());
        text.append(", remote version ");
        text.append(write_decimal(self.remote as u64).as_str());
        text
    }
}

/// Whether a device may be connected to: one that is known to speak another version of
/// the protocol is refused before anything else is tried.
pub fn check_peer_protocol(
    devices: &DeviceTable<DiscoveredDevice>,
    device_id: DeviceId,
) -> (allowed: Result<(), IncompatiblePeer>)
    ensures
        match allowed {
            Ok(()) => !(found(*devices).contains_key(device_id.0)
                && found(*devices)[device_id.0].protocol_compatibility is Incompatible),
            Err(refused) => found(*devices).contains_key(device_id.0)
                && found(*devices)[device_id.0].protocol_compatibility
                == (PeerProtocolCompatibility::Incompatible {
                local: refused.local,
                remote: refused.remote,
            }),
        },
{
    if let Some(device) = devices.get(device_id) {
        if let PeerProtocolCompatibility::Incompatible { local, remote } =
            device.protocol_compatibility {
            return Err(IncompatiblePeer { local, remote });
        }
    }
    Ok(())
}

/// An address and its port, taken apart. `host` is the address as it stands before the
/// colon.
#[derive(Debug, PartialEq, Eq)]
pub struct ParsedAddress {
    pub host: String,
    pub port: u16,
}

/// Where a device is connected to that was found at `address`. Greetings come from the
/// discovery's port, connections go to the other one; an address that cannot be taken
/// apart is left as it is.
pub fn normalize_discovered_connection_address(
    address: &str,
    parsed: Option<ParsedAddress>,
    discovery_port: u16,
    connection_port: Option<u16>,
) -> (normalized: String)
    ensures
        normalized@ == (match (connection_port, parsed) {
            (Some(port), Some(parts)) => parts.host@ + ":"@ + decimal(
                (if parts.port == discovery_port {
                    port
                } else {
                    parts.port
                }) as nat,
            ),
            _ => address@,
        }),
{
    match (connection_port, parsed) {
        (Some(connection_port), Some(parts)) => {
            let port = if parts.port == discovery_port {
                connection_port
            } else {
                parts.port
            };
            let mut normalized = parts.host;
            normalized.append(":");
            normalized.append(write_decimal(port as u64).as_str());
            normalized
        },
        _ => address.to_owned(),
    }
}

/// The devices whose connections are up, in the order in which the connections are listed.
pub open spec fn connected(infos: Seq<ConnectionInfo>) -> Seq<DeviceId> {
    infos.filter(|info: ConnectionInfo| info.state == ConnectionState::Connected).map_values(
        |info: ConnectionInfo| info.device_id,
    )
}

/// The devices whose connections are up.
pub fn connected_devices(infos: &Vec<ConnectionInfo>) -> (ids: Vec<DeviceId>)
    ensures
        ids@ == connected(infos@),
{
    let mut ids: Vec<DeviceId> = Vec::new();
    let mut i: usize = 0;
    let ghost up = |info: ConnectionInfo| info.state == ConnectionState::Connected;
    let ghost id_of = |info: ConnectionInfo| info.device_id;
    proof {
        reveal(Seq::filter);
        assert(infos@.take(0) =~= seq![]);
        assert(connected(infos@.take(0)) =~= seq![]);
    }
    while i < infos.len()
        invariant
            i <= infos@.len(),
            up == (|info: ConnectionInfo| info.state == ConnectionState::Connected),
            id_of == (|info: ConnectionInfo| info.device_id),
            ids@ == connected(infos@.take(i as int)),
        decreases infos@.len() - i,
    {
        proof {
            let next = infos@.take(i + 1);
            reveal(Seq::filter);
            assert(next.drop_last() =~= infos@.take(i as int));
            assert(next.last() == infos@[i as int]);
            let earlier = infos@.take(i as int).filter(up);
            assert(next.filter(up) == if up(next.last()) {
                earlier.push(next.last())
            } else {
                earlier
            });
            assert(earlier.push(next.last()).map_values(id_of) =~= earlier.map_values(id_of).push(
                next.last().device_id,
            ));
        }
        if infos[i].state == ConnectionState::Connected {
            ids.push(infos[i].device_id);
        }
        i += 1;
    }
    assert(infos@.take(i as int) =~= infos@);
    ids
}

/// Which way a message to everybody takes.
pub enum BroadcastRoute {
    Control(ControlFrame),
    Bulk(BulkFrame),
    Telemetry(TelemetryFrame),
    /// Every pooled connection, whatever it is.
    Pool,
}

/// Which way a message to everybody takes. Lanes are there for registered peers only.
pub open spec fn broadcast_route(registered: bool, message: Message) -> BroadcastRoute {
    match ClassifiedMessage::of(message) {
        ClassifiedMessage::Control(frame) if registered => BroadcastRoute::Control(frame),
        ClassifiedMessage::Bulk(frame) if registered => BroadcastRoute::Bulk(frame),
        ClassifiedMessage::Telemetry(frame) if registered => BroadcastRoute::Telemetry(frame),
        _ => BroadcastRoute::Pool,
    }
}

/// Decides which way a message to everybody takes.
pub fn broadcast(registered: bool, message: Message) -> (route: BroadcastRoute)
    ensures
        route == broadcast_route(registered, message),
{
    if !registered {
        return BroadcastRoute::Pool;
    }
    match ClassifiedMessage::try_from(message) {
        Ok(ClassifiedMessage::Control(frame)) => BroadcastRoute::Control(frame),
        Ok(ClassifiedMessage::Bulk(frame)) => BroadcastRoute::Bulk(frame),
        Ok(ClassifiedMessage::Telemetry(frame)) => BroadcastRoute::Telemetry(frame),
        _ => BroadcastRoute::Pool,
    }
}

/// While a peer is registered, whatever belongs on the control, the bulk or the telemetry lane
/// is broadcast on that lane, as the very frame that stands for it.
pub proof fn broadcasts_take_the_lane_of_their_frame(
    control: ControlFrame,
    bulk: BulkFrame,
    telemetry: TelemetryFrame,
)
    ensures
        broadcast_route(true, control.message()) == BroadcastRoute::Control(control),
        broadcast_route(true, bulk.message()) == BroadcastRoute::Bulk(bulk),
        broadcast_route(true, telemetry.message()) == BroadcastRoute::Telemetry(telemetry),
{
}

/// A broadcast takes a lane only while a peer is registered, and then the lane that the message
/// belongs on, with a frame that stands for the same message. The pool is taken where nobody is
/// registered, and for messages that belong on none of the three lanes.
pub proof fn broadcasts_stand_for_their_message(registered: bool, message: Message)
    ensures
        ({
            let lanes = ClassifiedMessage::of(message);
            match broadcast_route(registered, message) {
                BroadcastRoute::Control(frame) => registered && lanes.belongs_on(
                    LaneDiscriminator::Control.tag(),
                ) && frame.message() == message,
                BroadcastRoute::Bulk(frame) => registered && lanes.belongs_on(
                    LaneDiscriminator::Bulk.tag(),
                ) && frame.message() == message,
                BroadcastRoute::Telemetry(frame) => registered && lanes.belongs_on(
                    LaneDiscriminator::Telemetry.tag(),
                ) && frame.message() == message,
                BroadcastRoute::Pool => !registered || !(lanes.belongs_on(
                    LaneDiscriminator::Control.tag(),
                ) || lanes.belongs_on(LaneDiscriminator::Bulk.tag()) || lanes.belongs_on(
                    LaneDiscriminator::Telemetry.tag(),
                )),
            }
        }),
{
}

/// What happens on a connection is passed on with everything that is known of it; a message
/// without a lane is not passed on.
pub proof fn connection_events_are_passed_on(
    auth: PeerAuthContext,
    frame: ControlFrame,
    peer: DeviceId,
    connection: ControlConnectionId,
    peer_id: Option<DeviceId>,
    control_connection_id: Option<ControlConnectionId>,
    error: String,
    message: Message,
)
    ensures
        network_event_of(ManagerEvent::Connected(auth)) == Some(
            NetworkEvent::DeviceConnected(auth),
        ),
        network_event_of(
            ManagerEvent::Disconnected { peer_id: peer, control_connection_id: connection },
        ) matches Some(NetworkEvent::DeviceDisconnected { peer_id: p, control_connection_id: c })
            && p == peer && c == connection,
        network_event_of(ManagerEvent::ControlReceived { auth, frame }) matches Some(
            NetworkEvent::ControlReceived { auth: a, frame: f },
        ) && a == auth && f == frame,
        network_event_of(ManagerEvent::ProtocolError { auth, error }) matches Some(
            NetworkEvent::ConnectionError { peer_id: p, control_connection_id: c, error: e },
        ) && p == Some(auth.peer_id) && c == Some(auth.control_connection_id) && e == error,
        network_event_of(ManagerEvent::Error { peer_id, control_connection_id, error }) matches Some(
            NetworkEvent::ConnectionError { peer_id: p, control_connection_id: c, error: e },
        ) && p == peer_id && c == control_connection_id && e == error,
        network_event_of(ManagerEvent::MessageReceived { from: peer, message }) is None,
{
}

/// A device that was found or updated is remembered as it was found, one that was lost is
/// forgotten, and no other device is touched.
pub proof fn found_devices_are_remembered(
    devices: Map<u128, DeviceView>,
    device: DiscoveredDevice,
    id: DeviceId,
    other: u128,
)
    ensures
        ({
            let after = found_after(devices, DiscoveryEvent::DeviceFound(device));
            &&& after.contains_key(device.id.0) && after[device.id.0] == device@
            &&& after == found_after(devices, DiscoveryEvent::DeviceUpdated(device))
            &&& other != device.id.0 ==> after.contains_key(other) == devices.contains_key(other)
                && (devices.contains_key(other) ==> after[other] == devices[other])
        }),
        ({
            let after = found_after(devices, DiscoveryEvent::DeviceLost(id));
            &&& !after.contains_key(id.0)
            &&& other != id.0 ==> after.contains_key(other) == devices.contains_key(other) && (
            devices.contains_key(other) ==> after[other] == devices[other])
        }),
{
}

/// A connection is listed as connected exactly if it is up, once for each time that it is
/// listed.
pub proof fn connected_devices_are_those_that_are_up(infos: Seq<ConnectionInfo>, id: DeviceId)
    ensures
        connected(infos).contains(id) <==> exists|i: int|
            0 <= i < infos.len() && (#[trigger] infos[i]).device_id == id && infos[i].state
                == ConnectionState::Connected,
        connected(infos).len() <= infos.len(),
    decreases infos.len(),
{
    reveal(Seq::filter);
    let up = |info: ConnectionInfo| info.state == ConnectionState::Connected;
    let id_of = |info: ConnectionInfo| info.device_id;
    if infos.len() == 0 {
        assert(connected(infos) =~= seq![]);
    } else {
        let rest = infos.drop_last();
        let last = infos.last();
        connected_devices_are_those_that_are_up(rest, id);
        let earlier = rest.filter(up);
        assert(infos.filter(up) == if up(last) {
            earlier.push(last)
        } else {
            earlier
        });
        assert(earlier.push(last).map_values(id_of) =~= earlier.map_values(id_of).push(
            last.device_id,
        ));
        assert(connected(infos) == if up(last) {
            connected(rest).push(last.device_id)
        } else {
            connected(rest)
        });
        vstd::seq_lib::lemma_seq_contains_after_push(connected(rest), last.device_id, id);
        if connected(infos).contains(id) {
            if connected(rest).contains(id) {
                let i = choose|i: int|
                    0 <= i < rest.len() && (#[trigger] rest[i]).device_id == id && rest[i].state
                        == ConnectionState::Connected;
                assert(infos[i] == rest[i]);
            } else {
                assert(infos[infos.len() - 1].device_id == id);
            }
        }
        if exists|i: int|
            0 <= i < infos.len() && (#[trigger] infos[i]).device_id == id && infos[i].state
                == ConnectionState::Connected {
            let i = choose|i: int|
                0 <= i < infos.len() && (#[trigger] infos[i]).device_id == id && infos[i].state
                    == ConnectionState::Connected;
            if i < rest.len() {
                assert(rest[i] == infos[i]);
            }
        }
    }
}

/// One peer's part of a broadcast: the device, its connection, and what came of it.
pub type BroadcastResult = (DeviceId, ControlConnectionId, Result<(), TransportSendError>);

/// The connections after a broadcast was counted.
pub open spec fn after_broadcast<C, T>(
    state: ManagerState<C, T>,
    results: Seq<BroadcastResult>,
    now_ns: u64,
) -> ManagerState<C, T>
    decreases results.len(),
{
    if results.len() == 0 {
        state
    } else {
        let earlier = after_broadcast(state, results.drop_last(), now_ns);
        let (device_id, generation, result) = results.last();
        if result is Ok {
            earlier.after_send(device_id, SelectedSendIdentity::Control(generation), now_ns)
        } else {
            earlier
        }
    }
}

proof fn lemma_sends_are_counted_once<C, T>(
    state: ManagerState<C, T>,
    results: Seq<BroadcastResult>,
    now_ns: u64,
    id: u128,
)
    requires
        state.connections.contains_key(id) ==> state.connections[id].info.messages_sent
            + results.len() <= u64::MAX,
    ensures
        after_broadcast(state, results, now_ns).connections.contains_key(id)
            == state.connections.contains_key(id),
        state.connections.contains_key(id) ==> after_broadcast(
            state,
            results,
            now_ns,
        ).connections[id].info.messages_sent <= state.connections[id].info.messages_sent
            + results.len(),
    decreases results.len(),
{
    if results.len() > 0 {
        lemma_sends_are_counted_once(state, results.drop_last(), now_ns, id);
    }
}

/// Counts a broadcast: a message more for each connection that it went out on and that
/// still speaks for its device.
pub fn record_qos_broadcast_successes<C, T>(
    manager: &mut ConnectionManager<C, T>,
    results: &Vec<BroadcastResult>,
    now_ns: u64,
)
    requires
        old(manager)@.well_formed(),
        forall|id: u128| #[trigger]
            old(manager)@.connections.contains_key(id) ==> old(manager)@.connections[id].info.messages_sent + results@.len() <= u64::MAX,
    ensures
        final(manager)@.well_formed(),
        final(manager)@ == after_broadcast(old(manager)@, results@, now_ns),
        final(manager).local_device_id == old(manager).local_device_id,
{
    let mut i: usize = 0;
    assert(results@.take(0) =~= seq![]);
    while i < results.len()
        invariant
            i <= results@.len(),
            manager@.well_formed(),
            manager@ == after_broadcast(old(manager)@, results@.take(i as int), now_ns),
            manager.local_device_id == old(manager).local_device_id,
            forall|id: u128| #[trigger]
                old(manager)@.connections.contains_key(id) ==> old(manager)@.connections[id].info.messages_sent + results@.len() <= u64::MAX,
        decreases results@.len() - i,
    {
        let device_id = results[i].0;
        let generation = results[i].1;
        proof {
            assert(results@.take(i + 1).drop_last() =~= results@.take(i as int));
            lemma_sends_are_counted_once(
                old(manager)@,
                results@.take(i as int),
                now_ns,
                device_id.0,
            );
        }
        if let Ok(()) = &results[i].2 {
            manager.record_send(device_id, SelectedSendIdentity::Control(generation), now_ns);
        }
        i += 1;
    }
    assert(results@.take(i as int) =~= results@);
}

/// A broadcast is counted for the connections that it went out on: one that reaches the
/// connection of a device counts there once, one that does not counts nowhere, and what goes to
/// one device is not counted for another.
pub proof fn broadcasts_are_counted_where_they_went_out<C, T>(
    state: ManagerState<C, T>,
    results: Seq<BroadcastResult>,
    device_id: DeviceId,
    generation: ControlConnectionId,
    error: TransportSendError,
    now_ns: u64,
    other: u128,
)
    ensures
        ({
            let before = after_broadcast(state, results, now_ns);
            let reached = after_broadcast(
                state,
                results.push((device_id, generation, Ok(()))),
                now_ns,
            );
            let missed = after_broadcast(
                state,
                results.push((device_id, generation, Err(error))),
                now_ns,
            );
            &&& missed == before
            &&& other != device_id.0 ==> reached.connections.contains_key(other)
                == before.connections.contains_key(other) && reached.connections[other]
                == before.connections[other]
            &&& reached.pool == before.pool && reached.peers == before.peers
            &&& before.connections.contains_key(device_id.0) ==> {
                let info = before.connections[device_id.0].info;
                let after = reached.connections[device_id.0].info;
                &&& reached.connections.contains_key(device_id.0)
                &&& info.control_connection_id == Some(generation) && info.messages_sent < u64::MAX
                    ==> after.messages_sent == info.messages_sent + 1 && after.last_activity_ns
                    == now_ns
                &&& info.control_connection_id != Some(generation) ==> after == info
            }
        }),
        after_broadcast(state, seq![], now_ns) == state,
{
    assert(results.push((device_id, generation, Ok(()))).drop_last() =~= results);
    assert(results.push((device_id, generation, Err(error))).drop_last() =~= results);
}

} // verus!
