use rshare_net::connection::{
    allocate_generation, broadcast, ensure_broadcast_success, send_to, CanonicalConnection,
    ConnectionInfo, ConnectionManager, ConnectionState, ManagerBroadcastRoute,
    SelectedSendIdentity, SendRoute,
};
use rshare_net::encryption::PeerCertificateFingerprint;
use rshare_net::handshake::PeerAuthContext;
use rshare_net::message::Message;
use rshare_net::qos::{
    BulkFrame, ControlFrame, ReliableCompatFrame, TelemetryFrame, TransportSendError,
};
use rshare_net::transport::{PooledSendIdentity, TransportConnectionDiagnostics};
use rshare_net::types::{ControlConnectionId, DeviceId, KeyState};

type Manager = ConnectionManager<&'static str, &'static str>;

const PEER: DeviceId = DeviceId(7);

fn auth(peer: u128, connection: u128) -> PeerAuthContext {
    PeerAuthContext {
        peer_id: DeviceId(peer),
        certificate_fingerprint: PeerCertificateFingerprint::from_der(b"cert-a"),
        control_connection_id: ControlConnectionId(connection),
    }
}

fn connected_info(control_connection_id: Option<ControlConnectionId>) -> ConnectionInfo {
    ConnectionInfo {
        device_id: PEER,
        address: "127.0.0.1:27431".to_string(),
        state: ConnectionState::Connected,
        last_activity_ns: 0,
        messages_sent: 0,
        messages_received: 0,
        transport: "quic".to_string(),
        datagram_available: true,
        rtt_ms: Some(1),
        last_datagram_rx_ms: Some(1),
        datagram_tx_dropped: 0,
        reliable_stream_reset_count: 0,
        cert_trust_state: Some("trusted".to_string()),
        control_connection_id,
    }
}

fn insert_canonical(manager: &mut Manager, info: ConnectionInfo) -> u64 {
    let generation = allocate_generation(&mut manager.next_generation);
    manager.connections.insert(PEER, CanonicalConnection { generation, info });
    generation
}

fn install(manager: &mut Manager, connection: u128, name: &'static str, active: bool) -> u64 {
    manager
        .install(
            auth(7, connection),
            "127.0.0.1:27431".to_string(),
            name,
            "transport",
            active,
            false,
            1,
        )
        .ok()
        .unwrap()
        .generation
}

fn messages_sent(manager: &Manager) -> u64 {
    manager.get_connection(PEER).unwrap().messages_sent
}

fn diagnostics() -> TransportConnectionDiagnostics {
    TransportConnectionDiagnostics {
        address: "10.0.0.9:4".to_string(),
        transport: "quic",
        datagram_available: true,
        rtt_ms: Some(3),
        last_datagram_rx_ms: None,
        datagram_tx_dropped: 5,
        reliable_stream_reset_count: 6,
        cert_trust_state: Some("trusted".to_string()),
    }
}

#[test]
fn test_connection_info() {
    let info = ConnectionInfo::new(DeviceId(1), "192.168.1.100:27431".to_string(), 0);
    assert_eq!(info.state, ConnectionState::Connecting);
}

#[test]
fn connections_grow_stale() {
    let info = ConnectionInfo::new(DeviceId(1), "192.168.1.100:27431".to_string(), 10);
    assert!(!info.is_stale(15, 5));
    assert!(info.is_stale(16, 5));
    assert!(!info.is_stale(9, 0));
}

#[test]
fn test_manager_new() {
    let manager = Manager::new(DeviceId(1));
    assert_eq!(manager.connections().len(), 0);
    assert_eq!(manager.pool.count(), 0);
}

#[test]
fn stale_send_completion_does_not_increment_replacement_generation_metrics() {
    let mut manager = Manager::new(DeviceId(1));
    let old_generation = ControlConnectionId(20);
    let replacement_generation = ControlConnectionId(21);
    insert_canonical(&mut manager, connected_info(Some(replacement_generation)));

    manager.record_send(PEER, SelectedSendIdentity::Control(old_generation), 5);
    assert_eq!(
        messages_sent(&manager),
        0,
        "a late completion from the replaced generation must be ignored"
    );

    manager.record_send(PEER, SelectedSendIdentity::Control(replacement_generation), 6);
    assert_eq!(messages_sent(&manager), 1);
    assert_eq!(manager.get_connection(PEER).unwrap().last_activity_ns, 6);
}

#[test]
fn fallback_send_to_completion_from_replaced_generation_does_not_mutate_metrics() {
    let mut manager = Manager::new(DeviceId(1));
    let old_control_id = ControlConnectionId(20);
    let generation = insert_canonical(&mut manager, connected_info(Some(old_control_id)));
    manager.pool.insert_with_generation(PEER, generation, Some(old_control_id), "old");
    let (connection, identity) = manager.pool.connection_for(PEER).unwrap();
    assert_eq!(*connection, "old");

    manager.connections.insert(
        PEER,
        CanonicalConnection { generation, info: connected_info(Some(ControlConnectionId(21))) },
    );
    manager.record_send(PEER, SelectedSendIdentity::Pool(identity), 5);
    assert_eq!(
        messages_sent(&manager),
        0,
        "late fallback success must not increment replacement metrics"
    );
}

#[test]
fn fallback_send_to_with_no_control_id_still_matches_lifecycle_generation() {
    let mut manager = Manager::new(DeviceId(1));
    let old_generation = insert_canonical(&mut manager, connected_info(None));
    manager.pool.insert_with_generation(PEER, old_generation, None, "old");
    let (_, identity) = manager.pool.connection_for(PEER).unwrap();
    assert_eq!(
        identity,
        PooledSendIdentity {
            lifecycle_generation: old_generation,
            control_connection_id: None
        }
    );

    let replacement = insert_canonical(&mut manager, connected_info(None));
    assert!(replacement > old_generation);
    manager.record_send(PEER, SelectedSendIdentity::Pool(identity), 5);
    assert_eq!(
        messages_sent(&manager),
        0,
        "late fallback success must not match a replacement solely because both control IDs are absent"
    );
    manager.record_send(
        PEER,
        SelectedSendIdentity::Pool(PooledSendIdentity {
            lifecycle_generation: replacement,
            control_connection_id: None,
        }),
        6,
    );
    assert_eq!(messages_sent(&manager), 1);
}

#[test]
fn reconnect_old_disconnect_cannot_remove_new_generation() {
    let mut manager = Manager::new(DeviceId(1));
    let old = install(&mut manager, 20, "old", false);
    let installed = manager
        .install(auth(7, 21), "a".to_string(), "new", "t", false, true, 2)
        .ok()
        .unwrap();
    assert_eq!(installed.stale, Some(ControlConnectionId(20)));
    assert!(!manager.is_current_generation(PEER, old));
    assert!(manager.is_current_peer(&auth(7, 21), installed.generation));
    assert!(!manager.is_current_peer(&auth(7, 20), installed.generation));

    assert!(manager.retire_generation(PEER, old).is_none());
    assert!(manager.get_connection(PEER).is_some());
    assert_eq!(manager.pool.count(), 1);
    assert_eq!(manager.qos_registry.len(), 1);

    let retired = manager.retire_generation(PEER, installed.generation).unwrap();
    assert_eq!(retired.control_connection_id, Some(ControlConnectionId(21)));
    assert_eq!(retired.connection, Some("new"));
    assert!(manager.get_connection(PEER).is_none());
    assert_eq!(manager.pool.count(), 0);
    assert!(manager.qos_registry.is_empty());
}

#[test]
fn incoming_duplicate_keeps_live_canonical_connection() {
    let mut manager = Manager::new(DeviceId(1));
    let first = install(&mut manager, 20, "first", false);
    let refused = manager
        .install(auth(7, 21), "a".to_string(), "second", "t", true, true, 2)
        .err()
        .unwrap();
    assert_eq!(refused.connection, "second");
    assert!(manager.is_current_peer(&auth(7, 20), first));
    assert_eq!(manager.pool.connection_for(PEER).map(|(name, _)| *name), Some("first"));
}

#[test]
fn stale_authenticated_publication_failure_cannot_close_replacement_generation() {
    let mut manager = Manager::new(DeviceId(1));
    let old = install(&mut manager, 20, "old", false);
    let new = install(&mut manager, 21, "new", false);
    assert_eq!(manager.fail_authenticated_publication(&auth(7, 20), old), None);
    assert!(manager.is_current_peer(&auth(7, 21), new));
    assert_eq!(
        manager.fail_authenticated_publication(&auth(7, 21), new),
        Some(Some("new"))
    );
    assert!(manager.get_connection(PEER).is_none());
}

#[test]
fn disconnecting_forgets_a_device() {
    let mut manager = Manager::new(DeviceId(1));
    install(&mut manager, 20, "old", false);
    let gone = manager.disconnect(PEER);
    assert_eq!(gone.control_connection_id, Some(ControlConnectionId(20)));
    assert_eq!(gone.connection, Some("old"));
    assert!(manager.get_connection(PEER).is_none());
    let again = manager.disconnect(PEER);
    assert_eq!(again.control_connection_id, None);
    assert_eq!(again.connection, None);
}

#[test]
fn connected_entry_without_active_transport_is_reported_disconnected() {
    let mut manager = Manager::new(DeviceId(1));
    insert_canonical(&mut manager, connected_info(Some(ControlConnectionId(20))));
    let infos = manager.collect_connection_infos(&vec![], 9);
    assert_eq!(infos.len(), 1);
    assert_eq!(infos[0].state, ConnectionState::Disconnected);

    let infos = manager.collect_connection_infos(&vec![(PEER, diagnostics())], 9);
    assert_eq!(infos.len(), 1);
    assert_eq!(infos[0].state, ConnectionState::Connected);
    assert_eq!(infos[0].rtt_ms, Some(3));
    assert_eq!(infos[0].datagram_tx_dropped, 5);
    assert_eq!(infos[0].reliable_stream_reset_count, 6);
}

#[test]
fn transports_without_an_entry_are_reported_too() {
    let manager = Manager::new(DeviceId(1));
    let infos = manager.collect_connection_infos(&vec![(PEER, diagnostics())], 9);
    assert_eq!(infos.len(), 1);
    assert_eq!(infos[0].device_id, PEER);
    assert_eq!(infos[0].address, "10.0.0.9:4");
    assert_eq!(infos[0].state, ConnectionState::Connected);
}

#[test]
fn stale_connections_are_cleaned_up() {
    let mut manager = Manager::new(DeviceId(1));
    install(&mut manager, 20, "old", false);
    assert!(manager.stale_devices(12, 10).is_empty());
    let mut info = connected_info(Some(ControlConnectionId(20)));
    info.state = ConnectionState::Error;
    insert_canonical(&mut manager, info);
    assert!(manager.stale_devices(10, 10).is_empty());
    assert_eq!(manager.stale_devices(11, 10), vec![PEER]);
    let gone = manager.cleanup_stale(12, 10, &vec![]);
    assert_eq!(gone.len(), 1);
    assert_eq!(gone[0].0, PEER);
    assert_eq!(gone[0].1.connection, Some("old"));
    assert!(manager.connections().is_empty());
    assert_eq!(manager.pool.count(), 0);
}

#[test]
fn messages_take_the_lane_of_a_registered_peer() {
    let heartbeat = || Message::Heartbeat { sequence: 1, timestamp: 2 };
    assert!(matches!(send_to(true, heartbeat()), SendRoute::Control(_)));
    assert!(matches!(send_to(false, heartbeat()), SendRoute::Pool));
    let key = Message::Key { keycode: 1, state: KeyState::Pressed };
    assert!(matches!(send_to(true, key), SendRoute::ReliableCompat(_)));
    assert!(matches!(
        send_to(true, Message::AudioStreamStop { stream_id: 1, reason: "".into() }),
        SendRoute::Bulk(_)
    ));
    assert!(matches!(send_to(true, Message::ScreenUpdate), SendRoute::Pool));
}

#[test]
fn a_broadcast_reports_its_first_failure() {
    let ok = (DeviceId(1), Ok(()));
    let full = (DeviceId(2), Err(TransportSendError::ReliableLaneFull));
    let closed = (DeviceId(3), Err(TransportSendError::LaneClosed));
    assert_eq!(ensure_broadcast_success(&vec![]), Ok(()));
    assert_eq!(ensure_broadcast_success(&vec![ok.clone()]), Ok(()));
    assert_eq!(
        ensure_broadcast_success(&vec![ok, full, closed]),
        Err((DeviceId(2), TransportSendError::ReliableLaneFull))
    );
}

#[test]
fn broadcasts_go_by_the_lanes_whoever_is_registered() {
    assert!(matches!(
        broadcast(Message::Heartbeat { sequence: 1, timestamp: 2 }),
        ManagerBroadcastRoute::Control(ControlFrame::Heartbeat { sequence: 1, timestamp: 2 })
    ));
    assert!(matches!(
        broadcast(Message::AudioStreamStop { stream_id: 1, reason: "done".into() }),
        ManagerBroadcastRoute::Bulk(BulkFrame::AudioStreamStop { stream_id: 1, .. })
    ));
    assert!(matches!(
        broadcast(Message::LatencyProbe {
            sequence: 1,
            timestamp_ms: 2,
            endpoint_switch: false,
            origin_sequence: None,
        }),
        ManagerBroadcastRoute::Telemetry(TelemetryFrame::LatencyProbe { sequence: 1, .. })
    ));
    assert!(matches!(
        broadcast(Message::Key { keycode: 0x41, state: KeyState::Pressed }),
        ManagerBroadcastRoute::ReliableCompat(ReliableCompatFrame::Key { keycode: 0x41, .. })
    ));
    assert!(matches!(broadcast(Message::ScreenUpdate), ManagerBroadcastRoute::Pool));
}
