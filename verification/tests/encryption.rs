use rshare_net::encryption::{
    certificate_made, hex_encode, CertificateError, Encryption, PeerCertificateFingerprint,
    PinConflict, QuicTrustDecision, QuicTrustStore,
};
use rshare_net::ids::{device_text, is_canonical_uuid};
use rshare_net::types::DeviceId;

#[test]
fn tofu_first_seen_repeat_and_mismatch() {
    let device_id = DeviceId(1);
    let fingerprint_a = PeerCertificateFingerprint::from_der(b"cert-a");
    let fingerprint_b = PeerCertificateFingerprint::from_der(b"cert-b");
    let store = QuicTrustStore::default();

    assert_eq!(store.check(device_id, &fingerprint_a), QuicTrustDecision::FirstSeen);
    let mut store = store;
    assert_eq!(
        store.trust_first_seen(device_id, fingerprint_a.clone()),
        QuicTrustDecision::FirstSeen
    );
    assert_eq!(store.check(device_id, &fingerprint_a), QuicTrustDecision::Trusted);
    assert!(matches!(
        store.check(device_id, &fingerprint_b),
        QuicTrustDecision::Rejected { .. }
    ));
    assert!(matches!(
        store.trust_first_seen(device_id, fingerprint_b),
        QuicTrustDecision::Rejected { .. }
    ));
    assert_eq!(store.fingerprint_for(&device_id), Some(&fingerprint_a));
}

#[test]
fn checking_first_seen_peer_does_not_mutate_store() {
    let device_id = DeviceId(1);
    let fingerprint = PeerCertificateFingerprint::from_der(b"cert-a");
    let store = QuicTrustStore::default();

    assert_eq!(store.check(device_id, &fingerprint), QuicTrustDecision::FirstSeen);
    assert!(store.fingerprint_for(&device_id).is_none());
}

#[test]
fn stale_saves_preserve_existing_peer_pins() {
    let first_id = DeviceId(1);
    let second_id = DeviceId(2);
    let first_fingerprint = PeerCertificateFingerprint::from_der(b"cert-a");
    let second_fingerprint = PeerCertificateFingerprint::from_der(b"cert-b");
    let mut first = QuicTrustStore::default();
    let mut stale = QuicTrustStore::default();

    first.trust_first_seen(first_id, first_fingerprint.clone());
    let saved = first.merge_into(QuicTrustStore::default()).ok().unwrap();
    stale.trust_first_seen(second_id, second_fingerprint.clone());
    let saved = stale.merge_into(saved).ok().unwrap();

    assert_eq!(saved.fingerprint_for(&first_id), Some(&first_fingerprint));
    assert_eq!(saved.fingerprint_for(&second_id), Some(&second_fingerprint));
}

#[test]
fn saving_never_overwrites_a_pin() {
    let device_id = DeviceId(1);
    let pinned = PeerCertificateFingerprint::from_der(b"cert-a");
    let other = PeerCertificateFingerprint::from_der(b"cert-b");
    let mut saved = QuicTrustStore::default();
    saved.trust_first_seen(device_id, pinned.clone());
    let mut stale = QuicTrustStore::default();
    stale.trust_first_seen(device_id, other.clone());
    assert_eq!(
        stale.merge_into(saved).err(),
        Some(PinConflict { device_id, existing: pinned, requested: other })
    );
}

#[test]
fn fingerprints_are_digests_in_hexadecimal() {
    assert_eq!(
        PeerCertificateFingerprint::from_der(b"abc").as_str(),
        "ba7816bf8f01cfea414140de5dae2223b00361a396177a9cb410ff61f20015ad"
    );
    assert_eq!(hex_encode(&[0, 255, 16]), "00ff10");
}

#[test]
fn certificates_are_made_anew() {
    let (first_cert, first_key) = Encryption::generate_cert().unwrap();
    let (second_cert, second_key) = Encryption::generate_cert().unwrap();
    assert!(!first_cert.is_empty());
    assert!(!first_key.is_empty());
    assert_ne!(first_cert, second_cert);
    assert_ne!(first_key, second_key);
}

#[test]
fn certificates_name_this_application_and_hold_their_key() {
    let (cert, key) = Encryption::generate_cert().unwrap();
    assert!(cert.windows(12).any(|part| part == b"rshare.local"));
    let pair = rcgen::KeyPair::try_from(key.as_slice()).unwrap();
    let public = pair.public_key_raw();
    assert!(cert.windows(public.len()).any(|part| part == public));
}

#[test]
fn failed_certificates_are_told_of() {
    assert_eq!(certificate_made(Ok((vec![1], vec![2, 3]))), Ok((vec![1], vec![2, 3])));
    assert_eq!(
        certificate_made(Err(rcgen::Error::CouldNotParseKeyPair)),
        Err(CertificateError::GenerationFailed)
    );
}

#[test]
fn identifiers_have_one_text() {
    let id = DeviceId(0x1234_5678_9abc_def0_1234_5678_9abc_def0);
    assert_eq!(device_text(id), "12345678-9abc-def0-1234-56789abcdef0");
    assert_eq!(device_text(DeviceId(1)), "00000000-0000-0000-0000-000000000001");
    assert!(is_canonical_uuid("12345678-9abc-def0-1234-56789abcdef0"));
    assert!(!is_canonical_uuid("12345678-9ABC-def0-1234-56789abcdef0"));
    assert!(!is_canonical_uuid("123456789abcdef0123456789abcdef0"));
    assert!(!is_canonical_uuid(""));
}
