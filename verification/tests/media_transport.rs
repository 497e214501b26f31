use rshare_net::encryption::PeerCertificateFingerprint;
use rshare_net::media_transport::{
    check_certificate, check_control_size, check_packet_size, control_length, expect_bind,
    Binding, Bindings, MediaBind, MediaError, MAX_CONTROL_BYTES, MAX_MEDIA_PACKET,
    MAX_MEDIA_PEERS, MEDIA_VERSION,
};
use rshare_net::types::DeviceId;

const CERT: &[u8] = b"cert-a";

fn binding(peer: u128, token: u128, generation: u64) -> Binding {
    Binding {
        peer: DeviceId(peer),
        fingerprint: PeerCertificateFingerprint::from_der(CERT),
        token: DeviceId(token),
        generation,
    }
}

fn bind(peer: u128, token: u128, generation: u64) -> MediaBind {
    MediaBind {
        version: MEDIA_VERSION,
        peer: DeviceId(peer),
        control_token: DeviceId(token),
        generation,
    }
}

#[test]
fn invalid_control_token_cannot_attach() {
    let mut bindings: Bindings<&str> = Bindings::new();
    bindings.authorize(binding(1, 50, 1)).unwrap();
    for wrong in [bind(1, 51, 1), bind(1, 50, 2)] {
        assert_eq!(
            bindings.bind(wrong, Some(CERT), "path").err(),
            Some(MediaError::BindingMismatch)
        );
    }
    assert_eq!(
        bindings.bind(bind(1, 50, 1), Some(b"cert-b"), "path").err(),
        Some(MediaError::BindingMismatch)
    );
    assert_eq!(
        bindings.bind(bind(2, 50, 1), Some(CERT), "path").err(),
        Some(MediaError::NoControlBinding)
    );
    assert_eq!(
        bindings.bind(bind(1, 50, 1), None, "path").err(),
        Some(MediaError::MissingCertificate)
    );
    assert_eq!(bindings.bind(bind(1, 50, 1), Some(CERT), "path"), Ok(None));
    assert_eq!(bindings.bind(bind(1, 50, 1), Some(CERT), "next"), Ok(Some("path")));
}

#[test]
fn revoked_peers_lose_their_path() {
    let mut bindings: Bindings<&str> = Bindings::new();
    bindings.authorize(binding(1, 50, 1)).unwrap();
    bindings.bind(bind(1, 50, 1), Some(CERT), "path").unwrap();
    assert!(bindings.accepts(CERT));
    assert_eq!(bindings.revoke(DeviceId(1)), Some("path"));
    assert!(!bindings.accepts(CERT));
    assert_eq!(
        bindings.bind(bind(1, 50, 1), Some(CERT), "path").err(),
        Some(MediaError::NoControlBinding)
    );
    assert_eq!(bindings.revoke(DeviceId(1)), None);
}

#[test]
fn a_new_binding_ends_the_old_path() {
    let mut bindings: Bindings<&str> = Bindings::new();
    assert_eq!(bindings.authorize(binding(1, 50, 0)).err(), Some(MediaError::ZeroGeneration));
    bindings.authorize(binding(1, 50, 1)).unwrap();
    bindings.bind(bind(1, 50, 1), Some(CERT), "path").unwrap();
    assert_eq!(bindings.authorize(binding(1, 51, 2)), Ok(Some("path")));
    assert_eq!(
        bindings.bind(bind(1, 50, 1), Some(CERT), "path").err(),
        Some(MediaError::BindingMismatch)
    );
}

#[test]
fn peers_are_limited() {
    let mut bindings: Bindings<&str> = Bindings::new();
    for peer in 0..MAX_MEDIA_PEERS as u128 {
        bindings.authorize(binding(peer, 50, 1)).unwrap();
    }
    assert_eq!(
        bindings.authorize(binding(99, 50, 1)).err(),
        Some(MediaError::PeerLimitExceeded)
    );
    assert_eq!(bindings.authorize(binding(3, 51, 2)), Ok(None));
}

#[test]
fn certificates_are_pinned_or_bound() {
    let mut bindings: Bindings<&str> = Bindings::new();
    let pin = PeerCertificateFingerprint::from_der(CERT);
    assert_eq!(check_certificate(&bindings, Some(&pin), CERT), Ok(()));
    assert_eq!(
        check_certificate(&bindings, Some(&pin), b"cert-b"),
        Err(MediaError::UnapprovedCertificate)
    );
    assert_eq!(
        check_certificate(&bindings, None, CERT),
        Err(MediaError::UnapprovedCertificate)
    );
    bindings.authorize(binding(1, 50, 1)).unwrap();
    assert_eq!(check_certificate(&bindings, None, CERT), Ok(()));
}

#[test]
fn sizes_are_limited() {
    assert_eq!(expect_bind(None).err(), Some(MediaError::ExpectedBind));
    let mut old = bind(1, 50, 1);
    old.version = MEDIA_VERSION + 1;
    assert_eq!(expect_bind(Some(old)).err(), Some(MediaError::UnsupportedVersion));
    assert!(expect_bind(Some(bind(1, 50, 1))).is_ok());
    assert_eq!(check_control_size(MAX_CONTROL_BYTES), Ok(()));
    assert_eq!(
        check_control_size(MAX_CONTROL_BYTES + 1),
        Err(MediaError::ControlTooLarge)
    );
    assert_eq!(control_length(&[0, 0, 1, 2]), Ok(258));
    assert_eq!(control_length(&[0, 0, 0, 0]), Err(MediaError::InvalidControlLength));
    assert_eq!(control_length(&[0, 1, 0, 1]), Err(MediaError::InvalidControlLength));
    assert_eq!(check_packet_size(MAX_MEDIA_PACKET), Ok(()));
    assert_eq!(check_packet_size(MAX_MEDIA_PACKET + 1), Err(MediaError::PacketTooLarge));
}
