use rshare_net::discovery::{
    broadcast_address, compute_directed_broadcast, discovery_broadcast_targets,
    interface_broadcast_address, is_candidate_interface, is_candidate_ipv4,
    is_ignored_interface_name, DiscoveredDevice, DiscoveryConfig, DiscoveryEvent, Interface,
    InterfaceAddr, Ipv4Addr, PeerProtocolCompatibility, ServiceDiscovery,
};
use rshare_net::message::{Message, PeerTransportCapabilities};
use rshare_net::types::DeviceId;

fn discovery() -> ServiceDiscovery {
    ServiceDiscovery::new(DeviceId(1), "Test".to_string(), "test-host".to_string())
}

fn hello(id: u128, version: u32) -> Message {
    Message::Hello {
        app_id: "r-sharemouse".to_string(),
        device_id: DeviceId(id),
        device_name: "Peer".to_string(),
        hostname: "peer-host".to_string(),
        protocol_version: version,
        transport_capabilities: PeerTransportCapabilities::required_v3(),
    }
}

fn interface(name: &str, ip: Ipv4Addr, broadcast: Option<Ipv4Addr>) -> Interface {
    Interface {
        name: name.to_string(),
        loopback: false,
        addr: Some(InterfaceAddr { ip, netmask: Ipv4Addr::new(255, 255, 255, 0), broadcast }),
    }
}

#[test]
fn test_discovery_config_default() {
    let config = DiscoveryConfig::default();
    assert_eq!(config.port, 27432);
    assert!(config.mdns_enabled);
    assert_eq!(config.broadcast_interval_ms, 5_000);
    assert_eq!(config.device_timeout_ms, 30_000);
}

#[test]
fn test_broadcast_address() {
    let addr = broadcast_address(27432);
    assert_eq!(addr.port(), 27432);
    assert_eq!(addr.ip().to_string(), "255.255.255.255");
}

#[test]
fn test_compute_directed_broadcast() {
    assert_eq!(
        compute_directed_broadcast(Ipv4Addr::new(192, 168, 1, 52), Ipv4Addr::new(255, 255, 255, 0)),
        Ipv4Addr::new(192, 168, 1, 255)
    );
}

#[test]
fn test_candidate_ipv4_filters_link_local() {
    assert!(is_candidate_ipv4(Ipv4Addr::new(192, 168, 1, 52)));
    assert!(!is_candidate_ipv4(Ipv4Addr::new(169, 254, 14, 146)));
    assert!(!is_candidate_ipv4(Ipv4Addr::new(127, 0, 0, 1)));
}

#[test]
fn unusable_addresses_are_no_candidates() {
    assert!(!is_candidate_ipv4(Ipv4Addr::new(0, 0, 0, 0)));
    assert!(!is_candidate_ipv4(Ipv4Addr::new(224, 0, 0, 1)));
    assert!(!is_candidate_ipv4(Ipv4Addr::new(239, 255, 255, 255)));
    assert!(!is_candidate_ipv4(Ipv4Addr::new(255, 255, 255, 255)));
    assert!(is_candidate_ipv4(Ipv4Addr::new(169, 253, 0, 1)));
    assert!(is_candidate_ipv4(Ipv4Addr::new(240, 0, 0, 1)));
}

#[test]
fn test_ignored_interface_name_filters_virtual_adapters() {
    assert!(is_ignored_interface_name("VMware Network Adapter VMnet8"));
    assert!(is_ignored_interface_name("Wintun Userspace Tunnel"));
    assert!(!is_ignored_interface_name("WLAN 3"));
}

#[test]
fn every_marker_is_ignored_in_any_case() {
    for name in [
        "xVMWARE", "Virtual", "vbox0", "vEthernet (Hyper-V)", "wintun", "WireGuard", "Tailscale",
        "zerotier", "docker0", "podman1", "vNIC", "Loopback", "Npcap", "tap0", "utun3",
    ] {
        assert!(is_ignored_interface_name(name), "{}", name);
    }
    assert!(!is_ignored_interface_name(""));
    assert!(!is_ignored_interface_name("ta"));
    assert!(!is_ignored_interface_name("以太网"));
}

#[test]
fn test_discovered_device_stale() {
    let device = DiscoveredDevice {
        id: DeviceId(7),
        name: "Test".to_string(),
        hostname: "test".to_string(),
        addresses: vec![],
        protocol_compatibility: PeerProtocolCompatibility::Compatible,
        last_seen_ns: 1_000,
    };

    assert!(!device.is_stale(1_001, 10_000_000_000));
    assert!(device.is_stale(1_001, 0));
    assert!(!device.is_stale(1_000, 0));
    assert!(!device.is_stale(0, 0));
}

#[test]
fn greetings_are_answered_and_remembered() {
    let mut service = discovery();
    let outcome = service.handle_packet(&hello(2, 3), "10.0.0.2:27432".to_string(), 5);
    assert!(outcome.reply);
    match outcome.event {
        Some(DiscoveryEvent::DeviceFound(device)) => {
            assert_eq!(device.id, DeviceId(2));
            assert_eq!(device.name, "Peer");
            assert_eq!(device.hostname, "peer-host");
            assert_eq!(device.addresses, vec!["10.0.0.2:27432".to_string()]);
            assert_eq!(device.last_seen_ns, 5);
        }
        _ => panic!("a new device must be found"),
    }
    let again = service.handle_packet(&hello(2, 2), "10.0.0.3:27432".to_string(), 6);
    assert!(matches!(again.event, Some(DiscoveryEvent::DeviceUpdated(_))));
    let known = service.get_device(&DeviceId(2)).unwrap();
    assert_eq!(known.addresses, vec!["10.0.0.3:27432".to_string()]);
    assert_eq!(
        known.protocol_compatibility,
        PeerProtocolCompatibility::Incompatible { local: 3, remote: 2 }
    );
    assert_eq!(service.devices(), vec![DeviceId(2)]);
}

#[test]
fn answers_are_remembered_but_not_answered() {
    let mut service = discovery();
    let mut peer = discovery();
    peer.local_device_id = DeviceId(2);
    let outcome = service.handle_packet(&peer.hello_back(), "10.0.0.2:1".to_string(), 5);
    assert!(!outcome.reply);
    assert!(matches!(outcome.event, Some(DiscoveryEvent::DeviceFound(_))));
}

#[test]
fn own_greetings_and_other_messages_are_ignored() {
    let mut service = discovery();
    let own = service.hello();
    let outcome = service.handle_packet(&own, "10.0.0.1:1".to_string(), 5);
    assert!(!outcome.reply);
    assert!(outcome.event.is_none());
    let outcome = service.handle_packet(&Message::Ack { sequence: 1 }, "10.0.0.2:1".to_string(), 5);
    assert!(!outcome.reply);
    assert!(outcome.event.is_none());
    assert!(service.devices().is_empty());
}

#[test]
fn silent_devices_are_forgotten() {
    let mut service = discovery();
    service.handle_packet(&hello(3, 3), "a".to_string(), 1);
    service.handle_packet(&hello(2, 3), "b".to_string(), 1);
    service.handle_packet(&hello(4, 3), "c".to_string(), 2_000_000_000);
    assert!(service.cleanup_stale_devices(30_000_000_001).is_empty());
    assert_eq!(service.cleanup_stale_devices(30_000_000_002), vec![DeviceId(2), DeviceId(3)]);
    assert_eq!(service.devices(), vec![DeviceId(4)]);
}

#[test]
fn a_running_discovery_is_not_started_again() {
    let mut service = discovery();
    assert!(service.begin());
    assert!(!service.begin());
    service.stop();
    assert!(service.begin());
    let config = DiscoveryConfig { port: 9, ..DiscoveryConfig::default() };
    assert_eq!(service.with_config(config).config.port, 9);
}

#[test]
fn greetings_go_to_every_usable_network_once() {
    let interfaces = vec![
        interface("eth0", Ipv4Addr::new(192, 168, 1, 52), None),
        interface("eth1", Ipv4Addr::new(10, 0, 0, 5), Some(Ipv4Addr::new(10, 0, 255, 255))),
        interface("wlan0", Ipv4Addr::new(192, 168, 1, 53), None),
        interface("docker0", Ipv4Addr::new(172, 17, 0, 1), None),
        interface("lo", Ipv4Addr::new(127, 0, 0, 1), None),
        Interface { name: "v6".to_string(), loopback: false, addr: None },
    ];
    let targets: Vec<String> = discovery_broadcast_targets(&interfaces, 27432)
        .iter()
        .map(|target| {
            assert_eq!(target.port(), 27432);
            target.ip().to_string()
        })
        .collect();
    assert_eq!(targets, vec!["10.0.255.255", "192.168.1.255", "255.255.255.255"]);
    assert!(!is_candidate_interface(&interfaces[3]));
    assert_eq!(
        interface_broadcast_address(&interfaces[0]),
        Some(Ipv4Addr::new(192, 168, 1, 255))
    );
    assert_eq!(interface_broadcast_address(&interfaces[4]), None);
}
