use rshare_net::encryption::{PeerCertificateFingerprint, QuicTrustDecision, QuicTrustStore};
use rshare_net::handshake::{rejection, BOOTSTRAP_MAX_MESSAGE_SIZE};
use rshare_net::ids::device_text;
use rshare_net::message::{HandshakeRejectReason, Message};
use rshare_net::transport::{
    broadcast_failure, check_server_start, confirm_inbound_peer_identity, confirm_peer_identity,
    inspect_outbound_peer_trust, is_safe_isolated_state_dir, last_datagram_rx_ms,
    pending_trust_label, send_outbound_message, trust_state_label, try_fanout, ConnectionPool,
    FanoutEnqueueFailure, FanoutEnqueueFailureKind, OutboundError, OutboundPlan, PeerTrustError,
    QuicServerStartError, TransportConfig,
};
use rshare_net::types::{ControlConnectionId, DeviceId, KeyState};
use rshare_net::{BulkFrame, ControlFrame, NetworkEvent, TelemetryFrame};

const MAX: usize = 10 * 1024 * 1024;

fn fingerprint(cert: &[u8]) -> PeerCertificateFingerprint {
    PeerCertificateFingerprint::from_der(cert)
}

fn assert_send<T: Send>() {}

#[test]
fn typed_inbound_api_is_reexported_from_the_crate_root() {
    assert_send::<NetworkEvent>();
    assert_send::<ControlFrame>();
    assert_send::<TelemetryFrame>();
    assert_send::<BulkFrame>();
}

#[test]
fn legacy_realtime_encoder_is_private_and_rejects_reliable_messages() {
    let realtime = Message::MouseMove { x: 7, y: -4 };
    let plan = send_outbound_message(true, &realtime, b"{}", MAX, Some(1200)).unwrap();
    assert!(matches!(plan, OutboundPlan::Datagram(_)));

    let reliable = Message::Key { keycode: 0x41, state: KeyState::Pressed };
    let plan = send_outbound_message(true, &reliable, b"{}", MAX, Some(1200)).unwrap();
    assert!(matches!(plan, OutboundPlan::Stream(_)));
}

#[test]
fn realtime_datagram_send_failure_is_counted_and_never_falls_back() {
    let realtime = Message::MouseMove { x: 7, y: -4 };
    for max_datagram in [None, Some(6)] {
        assert_eq!(
            send_outbound_message(true, &realtime, b"{}", MAX, max_datagram),
            Ok(OutboundPlan::Drop)
        );
    }
    assert!(matches!(
        send_outbound_message(true, &realtime, b"{}", MAX, Some(7)),
        Ok(OutboundPlan::Datagram(_))
    ));
}

#[test]
fn oversized_legacy_realtime_encoding_is_counted_and_dropped() {
    let payload = vec![0u8; MAX + 1];
    assert_eq!(
        send_outbound_message(true, &Message::GamepadState, &payload, MAX, Some(usize::MAX)),
        Ok(OutboundPlan::Drop)
    );
}

#[test]
fn quinn_loopback_sends_key_over_reliable_stream() {
    let key = Message::Key { keycode: 0x41, state: KeyState::Pressed };
    match send_outbound_message(true, &key, b"{}", MAX, Some(1200)).unwrap() {
        OutboundPlan::Stream(bytes) => {
            assert_eq!(bytes.len(), 4 + 4 + 1 + 2);
            assert_eq!(bytes[..8], [0, 0, 0, 7, 0, 0, 0, 3]);
            assert_eq!(bytes[9..], *b"{}");
        }
        _ => panic!("keys go over the reliable stream"),
    }
}

#[test]
fn outgoing_messages_are_limited() {
    let ack = Message::Ack { sequence: 1 };
    assert_eq!(
        send_outbound_message(false, &ack, b"{}", MAX, None),
        Err(OutboundError::NotBootstrap)
    );
    let greeting = rejection(DeviceId(1), HandshakeRejectReason::IdentityUnavailable);
    assert!(send_outbound_message(false, &greeting, b"{}", MAX, None).is_ok());
    assert_eq!(
        send_outbound_message(
            false,
            &greeting,
            &vec![0; BOOTSTRAP_MAX_MESSAGE_SIZE + 1],
            MAX,
            None
        ),
        Err(OutboundError::BootstrapTooLarge)
    );
    assert_eq!(
        send_outbound_message(true, &ack, &vec![0; MAX + 1], MAX, None),
        Err(OutboundError::MessageTooLarge { len: MAX + 1 })
    );
    assert_eq!(
        send_outbound_message(true, &ack, b"{}", 6, None),
        Err(OutboundError::ReliableTooLarge { len: 7 })
    );
}

#[test]
fn a_server_starts_once() {
    assert_eq!(check_server_start(false, false), Ok(()));
    assert_eq!(check_server_start(true, false), Err(QuicServerStartError::AlreadyRunning));
    assert_eq!(check_server_start(false, true), Err(QuicServerStartError::AlreadyRunning));
    let config = TransportConfig::default();
    assert_eq!(config.max_idle_timeout_ms, 10_000);
    assert_eq!(config.max_message_size, MAX);
}

#[test]
fn the_last_datagram_is_timed() {
    assert_eq!(last_datagram_rx_ms(5_000, 0), None);
    assert_eq!(last_datagram_rx_ms(5_999, 2_000), Some(3));
    assert_eq!(last_datagram_rx_ms(1, 2), Some(0));
}

#[test]
fn trust_is_labelled() {
    let rejected = QuicTrustDecision::Rejected {
        expected: fingerprint(b"a"),
        actual: fingerprint(b"b"),
    };
    assert_eq!(trust_state_label(&QuicTrustDecision::FirstSeen), "first_seen");
    assert_eq!(trust_state_label(&QuicTrustDecision::Trusted), "trusted");
    assert_eq!(trust_state_label(&rejected), "rejected");
    assert_eq!(pending_trust_label(&QuicTrustDecision::FirstSeen), "first_seen_pending");
    assert_eq!(pending_trust_label(&QuicTrustDecision::Trusted), "trusted");
}

#[test]
fn outbound_connect_rejects_mismatched_hello_back_without_pinning() {
    let mut store = QuicTrustStore::default();
    let pending =
        inspect_outbound_peer_trust(&store, DeviceId(1), Some(fingerprint(b"cert-a"))).unwrap();
    assert_eq!(pending.decision, QuicTrustDecision::FirstSeen);
    assert_eq!(
        confirm_peer_identity(Some(pending), DeviceId(2), &mut store),
        Err(PeerTrustError::IdentityMismatch { expected: DeviceId(1), actual: DeviceId(2) })
    );
    assert!(store.fingerprint_for(&DeviceId(1)).is_none());
    assert!(store.fingerprint_for(&DeviceId(2)).is_none());
}

#[test]
fn outbound_connect_accepts_hello_back_identity() {
    let mut store = QuicTrustStore::default();
    let pin = fingerprint(b"cert-a");
    let pending = inspect_outbound_peer_trust(&store, DeviceId(1), Some(pin.clone())).unwrap();
    assert_eq!(confirm_peer_identity(Some(pending), DeviceId(1), &mut store), Ok(pin.clone()));
    assert_eq!(store.fingerprint_for(&DeviceId(1)), Some(&pin));
    assert_eq!(
        inspect_outbound_peer_trust(&store, DeviceId(1), Some(fingerprint(b"cert-b"))),
        Err(PeerTrustError::FingerprintChanged {
            expected: pin.clone(),
            actual: fingerprint(b"cert-b")
        })
    );
    assert_eq!(
        inspect_outbound_peer_trust(&store, DeviceId(1), None),
        Err(PeerTrustError::CertificateUnavailable)
    );
    assert_eq!(
        confirm_peer_identity(None, DeviceId(1), &mut store),
        Err(PeerTrustError::NoPendingIdentity)
    );
}

#[test]
fn incoming_hello_binds_connection_to_remote_device_id() {
    let mut store = QuicTrustStore::default();
    let pin = fingerprint(b"cert-a");
    assert_eq!(
        confirm_inbound_peer_identity(Some(pin.clone()), DeviceId(1), &mut store),
        Ok(pin.clone())
    );
    assert_eq!(
        confirm_inbound_peer_identity(Some(fingerprint(b"cert-b")), DeviceId(1), &mut store),
        Err(PeerTrustError::FingerprintChanged {
            expected: pin,
            actual: fingerprint(b"cert-b")
        })
    );
    assert_eq!(
        confirm_inbound_peer_identity(None, DeviceId(1), &mut store),
        Err(PeerTrustError::CertificateUnavailable)
    );
}

#[test]
fn only_scratch_directories_are_removed() {
    let id = "12345678-9abc-def0-1234-56789abcdef0";
    assert!(is_safe_isolated_state_dir(Some("/scratch"), "/scratch", Some(id)));
    assert!(!is_safe_isolated_state_dir(Some("/"), "/scratch", Some(id)));
    assert!(!is_safe_isolated_state_dir(Some("/scratch"), "/scratch", Some("home")));
    assert!(!is_safe_isolated_state_dir(None, "/scratch", Some(id)));
    assert!(!is_safe_isolated_state_dir(Some("/scratch"), "/scratch", None));
}

#[test]
fn test_connection_pool() {
    let pool: ConnectionPool<u8> = ConnectionPool::new();
    assert_eq!(pool.count(), 0);
}

#[test]
fn connection_pool_send_to_missing_connection_returns_error() {
    let pool: ConnectionPool<u8> = ConnectionPool::new();
    assert!(pool.connection_for(DeviceId(9)).is_none());
}

#[test]
fn late_removals_spare_the_replacement() {
    let mut pool: ConnectionPool<u8> = ConnectionPool::new();
    let id = DeviceId(1);
    assert!(pool.insert_with_generation(id, 1, None, 10).is_none());
    let replaced = pool
        .insert_with_generation(id, 2, Some(ControlConnectionId(5)), 11)
        .unwrap();
    assert_eq!(replaced.connection, 10);
    assert_eq!(pool.remove_generation(id, 1), None);
    assert_eq!(pool.generation_for(id), Some(2));
    pool.insert(DeviceId(3), None, 12);
    pool.insert(DeviceId(2), None, 13);
    assert_eq!(pool.devices(), vec![DeviceId(1), DeviceId(2), DeviceId(3)]);
    pool.cleanup(&vec![DeviceId(3), DeviceId(8)]);
    assert_eq!(pool.count(), 2);
    assert_eq!(pool.remove_generation(id, 2), Some(11));
    assert_eq!(pool.remove(DeviceId(2)), Some(13));
    assert_eq!(pool.remove(DeviceId(2)), None);
}

#[test]
fn nonblocking_fanout_keeps_fast_peer_moving_when_slow_queue_fills() {
    let receipt = try_fanout(&vec![
        (DeviceId(1), Some(FanoutEnqueueFailureKind::QueueFull)),
        (DeviceId(2), None),
        (DeviceId(3), Some(FanoutEnqueueFailureKind::QueueClosed)),
    ]);
    assert_eq!(receipt.enqueued, vec![DeviceId(2)]);
    assert_eq!(
        receipt.failures,
        vec![
            FanoutEnqueueFailure {
                device_id: DeviceId(1),
                kind: FanoutEnqueueFailureKind::QueueFull
            },
            FanoutEnqueueFailure {
                device_id: DeviceId(3),
                kind: FanoutEnqueueFailureKind::QueueClosed
            },
        ]
    );
}

#[test]
fn broadcast_failures_are_listed_in_order() {
    assert_eq!(broadcast_failure(vec![]), None);
    assert_eq!(
        broadcast_failure(vec![
            ("b".to_string(), "late".to_string()),
            ("a".to_string(), "gone".to_string()),
        ]),
        Some("broadcast failed: a: gone; b: late".to_string())
    );
}

#[test]
fn devices_stand_in_the_order_of_their_texts() {
    let ids = [
        0x0fff_ffff_ffff_ffff_ffff_ffff_ffff_ffffu128,
        0xa000_0000_0000_0000_0000_0000_0000_0000,
        9,
        0x10,
        0x9000_0000_0000_0000_0000_0000_0000_0000,
        0xa,
        0x1_0000_0000_0000,
        0xffff_ffff_ffff,
    ];
    let mut pool: ConnectionPool<()> = ConnectionPool::new();
    for id in ids {
        pool.insert(DeviceId(id), None, ());
    }
    let listed: Vec<String> = pool.devices().into_iter().map(device_text).collect();
    let mut sorted = listed.clone();
    sorted.sort();
    assert_eq!(listed, sorted);
    assert_eq!(listed.len(), ids.len());
}
