use rshare_net::connection::{ConnectionInfo, ConnectionManager, ConnectionState, ManagerEvent};
use rshare_net::discovery::{DiscoveredDevice, DiscoveryEvent, PeerProtocolCompatibility};
use rshare_net::encryption::PeerCertificateFingerprint;
use rshare_net::handshake::PeerAuthContext;
use rshare_net::message::Message;
use rshare_net::network_manager::{
    broadcast, check_peer_protocol, connected_devices, discovery_lost_network_event,
    forward_connection_event, handle_discovery_event, normalize_discovered_connection_address,
    record_qos_broadcast_successes, BroadcastRoute, NetworkEvent, NetworkManagerConfig,
    ParsedAddress,
};
use rshare_net::qos::{ControlFrame, TransportSendError};
use rshare_net::table::DeviceTable;
use rshare_net::types::{ControlConnectionId, DeviceId, PROTOCOL_VERSION};

fn discovered_device(id: u128, address: &str, name: &str) -> DiscoveredDevice {
    DiscoveredDevice {
        id: DeviceId(id),
        name: name.to_string(),
        hostname: "remote-host".to_string(),
        addresses: vec![address.to_string()],
        protocol_compatibility: PeerProtocolCompatibility::Compatible,
        last_seen_ns: 1,
    }
}

fn auth(peer: u128, connection: u128) -> PeerAuthContext {
    PeerAuthContext {
        peer_id: DeviceId(peer),
        certificate_fingerprint: PeerCertificateFingerprint::from_der(b"peer"),
        control_connection_id: ControlConnectionId(connection),
    }
}

#[test]
fn test_network_manager_config_default() {
    let config = NetworkManagerConfig::default();
    assert_eq!(config.discovery_port, 27432);
    assert!(!config.auto_connect);
    assert_eq!(config.bind_address, "0.0.0.0:27431");
    assert_eq!(config.broadcast_interval_ms, 5_000);
    assert_eq!(config.device_timeout_ms, 30_000);
}

#[test]
fn normalizes_discovery_source_port_to_connection_port() {
    let parsed = |port| Some(ParsedAddress { host: "192.168.1.241".to_string(), port });
    assert_eq!(
        normalize_discovered_connection_address(
            "192.168.1.241:27432",
            parsed(27432),
            27432,
            Some(27431)
        ),
        "192.168.1.241:27431"
    );
    assert_eq!(
        normalize_discovered_connection_address(
            "192.168.1.241:27431",
            parsed(27431),
            27432,
            Some(27431)
        ),
        "192.168.1.241:27431"
    );
    assert_eq!(
        normalize_discovered_connection_address("somewhere", None, 27432, Some(27431)),
        "somewhere"
    );
    assert_eq!(
        normalize_discovered_connection_address("192.168.1.241:27432", parsed(27432), 27432, None),
        "192.168.1.241:27432"
    );
}

#[test]
fn discovery_lost_does_not_emit_disconnect_while_transport_is_connected() {
    assert!(discovery_lost_network_event(DeviceId(1), true).is_none());
}

#[test]
fn discovery_lost_does_not_synthesize_generationless_disconnect() {
    assert!(discovery_lost_network_event(DeviceId(1), false).is_none());
}

#[test]
fn known_incompatible_discovery_fails_before_quic_connect() {
    let mut devices = DeviceTable::new();
    let mut incompatible = discovered_device(9, "127.0.0.1:1", "old");
    incompatible.protocol_compatibility =
        PeerProtocolCompatibility::Incompatible { local: PROTOCOL_VERSION, remote: 2 };
    devices.insert(DeviceId(9), incompatible);
    devices.insert(DeviceId(8), discovered_device(8, "127.0.0.1:1", "new"));

    let error = check_peer_protocol(&devices, DeviceId(9)).unwrap_err();
    assert!(error.text().contains("remote version 2"));
    assert_eq!(
        error.text(),
        "Peer protocol is incompatible: local version 3, remote version 2"
    );
    assert!(check_peer_protocol(&devices, DeviceId(8)).is_ok());
    assert!(check_peer_protocol(&devices, DeviceId(7)).is_ok());
}

#[test]
fn legacy_auto_connect_true_keeps_found_and_updated_devices_observational() {
    let mut devices = DeviceTable::new();
    let mut names = Vec::new();
    for event in [
        DiscoveryEvent::DeviceFound(discovered_device(0xf0, "127.0.0.1:5", "first")),
        DiscoveryEvent::DeviceUpdated(discovered_device(0xf0, "127.0.0.1:5", "updated")),
    ] {
        match handle_discovery_event(&mut devices, event, false) {
            Some(NetworkEvent::DeviceFound(device)) => names.push(device.name),
            _ => panic!("the device must be told of"),
        }
    }
    assert_eq!(names, vec!["first", "updated"]);
    assert_eq!(devices.get(DeviceId(0xf0)).unwrap().name, "updated");

    assert!(
        handle_discovery_event(&mut devices, DiscoveryEvent::Error("x".into()), false).is_none()
    );
    assert!(
        handle_discovery_event(&mut devices, DiscoveryEvent::DeviceLost(DeviceId(0xf0)), true)
            .is_none()
    );
    assert!(devices.is_empty());
}

#[test]
fn forwards_typed_control_and_protocol_errors_with_authenticated_generation() {
    match forward_connection_event(ManagerEvent::ControlReceived {
        auth: auth(4, 5),
        frame: ControlFrame::heartbeat(1, 2),
    }) {
        Some(NetworkEvent::ControlReceived { auth: received, frame }) => {
            assert_eq!(received.control_connection_id, ControlConnectionId(5));
            assert!(matches!(
                frame.into_message(),
                Message::Heartbeat { sequence: 1, timestamp: 2 }
            ));
        }
        _ => panic!("Wrong network event"),
    }
    assert!(matches!(
        forward_connection_event(ManagerEvent::ProtocolError {
            auth: auth(4, 5),
            error: "unknown qos lane discriminator 255".into(),
        }),
        Some(NetworkEvent::ConnectionError {
            peer_id: Some(DeviceId(4)),
            control_connection_id: Some(ControlConnectionId(5)),
            error,
        }) if error.contains("unknown qos lane")
    ));
    assert!(matches!(
        forward_connection_event(ManagerEvent::Connected(auth(4, 5))),
        Some(NetworkEvent::DeviceConnected(_))
    ));
    assert!(matches!(
        forward_connection_event(ManagerEvent::Disconnected {
            peer_id: DeviceId(4),
            control_connection_id: ControlConnectionId(5),
        }),
        Some(NetworkEvent::DeviceDisconnected {
            peer_id: DeviceId(4),
            control_connection_id: ControlConnectionId(5),
        })
    ));
    assert!(matches!(
        forward_connection_event(ManagerEvent::Error {
            peer_id: None,
            control_connection_id: None,
            error: "e".into(),
        }),
        Some(NetworkEvent::ConnectionError { peer_id: None, control_connection_id: None, .. })
    ));
    assert!(forward_connection_event(ManagerEvent::MessageReceived {
        from: DeviceId(4),
        message: Message::Ack { sequence: 1 },
    })
    .is_none());
}

#[test]
fn broadcasts_take_lanes_where_peers_are_registered() {
    let heartbeat = || Message::Heartbeat { sequence: 1, timestamp: 2 };
    assert!(matches!(broadcast(true, heartbeat()), BroadcastRoute::Control(_)));
    assert!(matches!(broadcast(false, heartbeat()), BroadcastRoute::Pool));
    assert!(matches!(broadcast(true, Message::ScreenUpdate), BroadcastRoute::Pool));
}

#[test]
fn qos_direct_send_and_broadcast_update_connection_metrics() {
    let mut manager: ConnectionManager<(), ()> = ConnectionManager::new(DeviceId(1));
    manager
        .install(auth(2, 20), "a".into(), (), (), false, false, 1)
        .ok()
        .unwrap();
    manager
        .install(auth(3, 30), "b".into(), (), (), false, false, 1)
        .ok()
        .unwrap();
    record_qos_broadcast_successes(
        &mut manager,
        &vec![
            (DeviceId(2), ControlConnectionId(20), Ok(())),
            (DeviceId(3), ControlConnectionId(30), Err(TransportSendError::LaneClosed)),
            (DeviceId(2), ControlConnectionId(21), Ok(())),
            (DeviceId(4), ControlConnectionId(40), Ok(())),
        ],
        7,
    );
    let counted = manager.get_connection(DeviceId(2)).unwrap();
    assert_eq!(counted.messages_sent, 1);
    assert_eq!(counted.last_activity_ns, 7);
    assert_eq!(manager.get_connection(DeviceId(3)).unwrap().messages_sent, 0);
}

#[test]
fn only_connections_that_are_up_count_as_connected() {
    let mut infos: Vec<ConnectionInfo> = Vec::new();
    for id in [5u128, 2, 9] {
        infos.push(ConnectionInfo::new(DeviceId(id), "a".to_string(), 1));
    }
    assert_eq!(connected_devices(&infos), Vec::<DeviceId>::new());
    infos[0].state = ConnectionState::Connected;
    infos[1].state = ConnectionState::Disconnected;
    infos[2].state = ConnectionState::Connected;
    assert_eq!(connected_devices(&infos), vec![DeviceId(5), DeviceId(9)]);
}
