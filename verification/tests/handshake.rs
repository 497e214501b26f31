use rshare_net::encryption::PeerCertificateFingerprint;
use rshare_net::handshake::{
    eq_ignore_ascii_case, is_bootstrap_message, negotiated, perform_outbound_handshake,
    receive_incoming_handshake, rejection, validate_bootstrap_message, validate_hello,
    BootstrapError, BOOTSTRAP_MAX_MESSAGE_SIZE, DISCOVERY_APP_ID,
};
use rshare_net::message::{
    HandshakeRejectReason, Message, PeerTransportCapabilities, TransportCapability,
};
use rshare_net::types::{ControlConnectionId, DeviceId, PROTOCOL_VERSION};

const VERSION: u32 = PROTOCOL_VERSION;

fn hello(app_id: &str, protocol_version: u32, capabilities: PeerTransportCapabilities) -> Message {
    Message::Hello {
        app_id: app_id.to_string(),
        device_id: DeviceId(4),
        device_name: "name".to_string(),
        hostname: "host".to_string(),
        protocol_version,
        transport_capabilities: capabilities,
    }
}

fn hello_back(app_id: &str) -> Message {
    Message::HelloBack {
        app_id: app_id.to_string(),
        device_id: DeviceId(4),
        device_name: "name".to_string(),
        hostname: "host".to_string(),
        protocol_version: VERSION,
        transport_capabilities: PeerTransportCapabilities::required_v3(),
    }
}

#[test]
fn only_greetings_are_bootstrap_messages() {
    assert!(is_bootstrap_message(&hello_back("a")));
    assert!(is_bootstrap_message(&rejection(
        DeviceId(1),
        HandshakeRejectReason::IdentityUnavailable
    )));
    let ack = Message::Ack { sequence: 1 };
    assert!(!is_bootstrap_message(&ack));
    assert_eq!(validate_bootstrap_message(&ack, 1), Err(BootstrapError::NotBootstrap));
    let greeting = hello_back("a");
    assert_eq!(validate_bootstrap_message(&greeting, BOOTSTRAP_MAX_MESSAGE_SIZE), Ok(()));
    assert_eq!(
        validate_bootstrap_message(&greeting, BOOTSTRAP_MAX_MESSAGE_SIZE + 1),
        Err(BootstrapError::TooLarge)
    );
}

#[test]
fn greetings_have_to_fit() {
    let v3 = PeerTransportCapabilities::required_v3();
    assert_eq!(validate_hello("R-ShareMouse", VERSION, &v3), Ok(()));
    assert_eq!(
        validate_hello("other", VERSION, &v3),
        Err(HandshakeRejectReason::ApplicationMismatch)
    );
    assert_eq!(
        validate_hello(DISCOVERY_APP_ID, VERSION + 1, &v3),
        Err(HandshakeRejectReason::ProtocolMismatch {
            required: VERSION,
            received: VERSION + 1
        })
    );
    assert!(eq_ignore_ascii_case("aZ-9", "Az-9"));
    assert!(!eq_ignore_ascii_case("aZ", "aZ "));
}

#[test]
fn a_server_takes_a_hello() {
    let v3 = PeerTransportCapabilities::required_v3();
    let greeting = receive_incoming_handshake(&hello("r-sharemouse", VERSION, v3), 100).unwrap();
    assert_eq!(greeting.peer_id, DeviceId(4));
    assert_eq!(
        receive_incoming_handshake(&hello_back("r-sharemouse"), 100).err(),
        Some(BootstrapError::ExpectedHello)
    );
    let v3 = PeerTransportCapabilities::required_v3();
    assert_eq!(
        receive_incoming_handshake(&hello("x", VERSION, v3), 100).err(),
        Some(BootstrapError::Rejected { reason: HandshakeRejectReason::ApplicationMismatch })
    );
}

#[test]
fn a_client_takes_a_hello_back() {
    let greeting = perform_outbound_handshake(hello_back("r-sharemouse"), 100).unwrap();
    let pin = PeerCertificateFingerprint::from_der(b"cert-a");
    let peer = negotiated(greeting, pin.clone(), ControlConnectionId(9), None);
    assert_eq!(peer.auth.peer_id, DeviceId(4));
    assert_eq!(peer.auth.certificate_fingerprint, pin);
    assert_eq!(peer.auth.control_connection_id, ControlConnectionId(9));
    let refused = rejection(DeviceId(4), HandshakeRejectReason::IdentityUnavailable);
    assert_eq!(
        perform_outbound_handshake(refused, 100).err(),
        Some(BootstrapError::RejectedByPeer {
            reason: HandshakeRejectReason::IdentityUnavailable
        })
    );
    assert_eq!(
        perform_outbound_handshake(hello_back("x"), 100).err(),
        Some(BootstrapError::IncompatibleHelloBack {
            reason: HandshakeRejectReason::ApplicationMismatch
        })
    );
    let v3 = PeerTransportCapabilities::required_v3();
    assert_eq!(
        perform_outbound_handshake(hello("r-sharemouse", VERSION, v3), 100).err(),
        Some(BootstrapError::ExpectedHelloBack)
    );
}

#[test]
fn greetings_have_to_offer_every_lane() {
    let lacking = PeerTransportCapabilities {
        realtime_datagrams: true,
        reliable_input_stream: false,
        emergency_release: true,
    };
    assert_eq!(
        lacking.missing_required_v3_capabilities(),
        vec![TransportCapability::ReliableInputStream]
    );
    match validate_hello(DISCOVERY_APP_ID, VERSION, &lacking) {
        Err(HandshakeRejectReason::MissingCapabilities { missing }) => {
            assert_eq!(missing, vec![TransportCapability::ReliableInputStream])
        }
        _ => panic!("a lane is missing"),
    }
}
