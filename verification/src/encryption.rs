//! Certificate fingerprints, and the peers that are trusted by them.

use sha2::Digest;
use vstd::prelude::*;
use vstd::utf8::encode_utf8;

use crate::discovery::contains_bytes;
use crate::table::DeviceTable;
use crate::types::DeviceId;

verus! {

/// A certificate and its private key, both in DER.
#[derive(Debug, Clone)]
pub struct QuicIdentity {
    pub cert_der: Vec<u8>,
    pub key_der: Vec<u8>,
}

/// The name that a device's own certificate is made out to.
pub const CERTIFICATE_NAME: &'static str = "rshare.local";

/// Why rcgen has made no certificate.
#[verifier::external_type_specification]
#[verifier::external_body]
pub struct ExRcgenError(rcgen::Error);

/// Whether `cert` is the DER of an X.509 certificate whose only alternative name is `name`,
/// that holds the public key of the private key in `key`, PKCS#8 in DER, and that this key
/// has signed.
pub uninterp spec fn self_signed_for(name: Seq<char>, cert: Seq<u8>, key: Seq<u8>) -> bool;

/// Whether a text cannot be the address of a host: some letter in it is no hexadecimal digit.
pub open spec fn is_no_address(name: Seq<char>) -> bool {
    exists|i: int| 0 <= i < name.len() && 'g' <= #[trigger] name[i] <= 'z'
}

/// `rcgen::generate_simple_self_signed`: a certificate made out to `name`, signed by its
/// own fresh key, and that key, both in DER. A name that is no address stands in the
/// certificate as it is. The key is drawn at random, so nothing is claimed of when there
/// is a certificate, nor which of those that fit it is.
#[verifier::external_body]
fn self_signed(name: &str) -> (made: Result<(Vec<u8>, Vec<u8>), rcgen::Error>)
    ensures
        made matches Ok((cert, key)) ==> self_signed_for(name@, cert@, key@),
        made matches Ok((cert, key)) ==> is_no_address(name@) ==> contains_bytes(
            cert@,
            encode_utf8(name@),
        ),
{
    let made = rcgen::generate_simple_self_signed(vec![name.to_owned()])?;
    Ok((made.cert.der().to_vec(), made.signing_key.serialize_der()))
}

/// Why there is no certificate.
#[derive(Debug, Clone, Copy, PartialEq, Eq, Structural)]
pub enum CertificateError {
    GenerationFailed,
}

/// What comes of an attempt to make a certificate: the certificate and its key as they are,
/// or that there is none.
pub fn certificate_made(made: Result<(Vec<u8>, Vec<u8>), rcgen::Error>) -> (outcome: Result<
    (Vec<u8>, Vec<u8>),
    CertificateError,
>)
    ensures
        outcome == (match made {
            Ok(pair) => Ok::<_, CertificateError>(pair),
            Err(_) => Err(CertificateError::GenerationFailed),
        }),
{
    match made {
        Ok(pair) => Ok(pair),
        Err(_) => Err(CertificateError::GenerationFailed),
    }
}

/// Certificates of this device.
pub struct Encryption;

impl Encryption {
    /// A fresh certificate for this device, made out to `CERTIFICATE_NAME` and signed by its
    /// own key, and that key. Whether there is one, and which, rests on chance.
    pub fn generate_cert() -> (made: Result<(Vec<u8>, Vec<u8>), CertificateError>)
        ensures
            match made {
                Ok((cert, key)) => self_signed_for(CERTIFICATE_NAME@, cert@, key@)
                    && contains_bytes(cert@, encode_utf8(CERTIFICATE_NAME@)),
                Err(error) => error == CertificateError::GenerationFailed,
            },
    {
        proof {
            reveal_strlit("rshare.local");
            assert(CERTIFICATE_NAME@[0] == 'r');
        }
        certificate_made(self_signed(CERTIFICATE_NAME))
    }
}

/// The SHA-256 digest of some bytes.
pub uninterp spec fn sha256_digest(data: Seq<u8>) -> Seq<u8>;

/// `sha2::Sha256::digest`: the digest, which is 32 bytes long.
#[verifier::external_body]
pub(crate) fn sha256(data: &[u8]) -> (digest: Vec<u8>)
    ensures
        digest@ == sha256_digest(data@),
        digest@.len() == 32,
{
    sha2::Sha256::digest(data).to_vec()
}

/// The hexadecimal digit of a number below 16.
pub open spec fn hex_digit(nibble: u8) -> char {
    if nibble < 10 {
        ('0' as u8 + nibble) as char
    } else {
        ('a' as u8 + nibble - 10) as char
    }
}

/// Bytes in lower-case hexadecimal, two digits each.
pub open spec fn hex(bytes: Seq<u8>) -> Seq<char> {
    Seq::new(
        2 * bytes.len(),
        |i: int|
            if i % 2 == 0 {
                hex_digit(bytes[i / 2] / 16)
            } else {
                hex_digit(bytes[i / 2] % 16)
            },
    )
}

pub(crate) fn hex_text(nibble: u8) -> (text: &'static str)
    requires
        nibble < 16,
    ensures
        text@ == seq![hex_digit(nibble)],
{
    proof {
        reveal_strlit("0");
        reveal_strlit("1");
        reveal_strlit("2");
        reveal_strlit("3");
        reveal_strlit("4");
        reveal_strlit("5");
        reveal_strlit("6");
        reveal_strlit("7");
        reveal_strlit("8");
        reveal_strlit("9");
        reveal_strlit("a");
        reveal_strlit("b");
        reveal_strlit("c");
        reveal_strlit("d");
        reveal_strlit("e");
        reveal_strlit("f");
    }
    let text = match nibble {
        0 => "0",
        1 => "1",
        2 => "2",
        3 => "3",
        4 => "4",
        5 => "5",
        6 => "6",
        7 => "7",
        8 => "8",
        9 => "9",
        10 => "a",
        11 => "b",
        12 => "c",
        13 => "d",
        14 => "e",
        _ => "f",
    };
    assert(text@ =~= seq![hex_digit(nibble)]);
    text
}

/// Writes bytes in lower-case hexadecimal.
pub fn hex_encode(bytes: &[u8]) -> (text: String)
    ensures
        text@ == hex(bytes@),
{
    let mut out = String::new();
    let mut i: usize = 0;
    while i < bytes.len()
        invariant
            i <= bytes@.len(),
            out@ == hex(bytes@.take(i as int)),
        decreases bytes@.len() - i,
    {
        let byte: u8 = bytes[i];
        let ghost before = out@;
        out.append(hex_text(byte / 16));
        out.append(hex_text(byte % 16));
        assert(out@ =~= hex(bytes@.take(i + 1))) by {
            let next = bytes@.take(i + 1);
            assert(next[i as int] == byte);
            assert forall|k: int| 0 <= k < 2 * i implies out@[k] == hex(next)[k] by {
                assert(out@[k] == before[k]);
                assert(bytes@.take(i as int)[k / 2] == next[k / 2]);
            }
        }
        i += 1;
    }
    assert(bytes@.take(i as int) =~= bytes@);
    out
}

proof fn lemma_hex_digit_injective(a: u8, b: u8)
    requires
        a < 16,
        b < 16,
        hex_digit(a) == hex_digit(b),
    ensures
        a == b,
{
}

proof fn lemma_hex_at(bytes: Seq<u8>, i: int)
    requires
        0 <= i < bytes.len(),
    ensures
        hex(bytes)[2 * i] == hex_digit(bytes[i] / 16),
        hex(bytes)[2 * i + 1] == hex_digit(bytes[i] % 16),
{
    let high = 2 * i;
    let low = 2 * i + 1;
    assert(high % 2 == 0 && high / 2 == i);
    assert(low % 2 == 1 && low / 2 == i);
    assert(hex(bytes)[high] == hex_digit(bytes[high / 2] / 16));
    assert(hex(bytes)[low] == hex_digit(bytes[low / 2] % 16));
}

/// Different bytes have different hexadecimal forms, so two fingerprints are equal only
/// if their digests are.
pub proof fn hex_is_injective(a: Seq<u8>, b: Seq<u8>)
    requires
        hex(a) == hex(b),
    ensures
        a == b,
{
    assert(hex(a).len() == 2 * a.len());
    assert(hex(b).len() == 2 * b.len());
    assert forall|i: int| 0 <= i < a.len() implies a[i] == b[i] by {
        lemma_hex_at(a, i);
        lemma_hex_at(b, i);
        lemma_hex_digit_injective(a[i] / 16, b[i] / 16);
        lemma_hex_digit_injective(a[i] % 16, b[i] % 16);
    }
    assert(a =~= b);
}

/// A peer's certificate, by the hexadecimal SHA-256 digest of its DER form.
#[derive(Debug, PartialEq, Eq)]
pub struct PeerCertificateFingerprint(pub String);

impl View for PeerCertificateFingerprint {
    type V = Seq<char>;

    open spec fn view(&self) -> Seq<char> {
        self.0@
    }
}

impl Clone for PeerCertificateFingerprint {
    fn clone(&self) -> (copy: Self)
        ensures
            copy == *self,
    {
        PeerCertificateFingerprint(self.0.clone())
    }
}

impl PeerCertificateFingerprint {
    /// The fingerprint of a certificate.
    pub fn from_der(cert_der: &[u8]) -> (fingerprint: Self)
        ensures
            fingerprint@ == hex(sha256_digest(cert_der@)),
            fingerprint@.len() == 64,
    {
        let digest = sha256(cert_der);
        PeerCertificateFingerprint(hex_encode(digest.as_slice()))
    }

    pub fn as_str(&self) -> (text: &str)
        ensures
            text@ == self@,
    {
        self.0.as_str()
    }

    /// Whether two fingerprints are the same.
    pub fn same_as(&self, other: &PeerCertificateFingerprint) -> (same: bool)
        ensures
            same == (self@ == other@),
    {
        self.0 == other.0
    }
}

/// What is thought of a peer that presents a certificate.
#[derive(Debug, PartialEq, Eq)]
pub enum QuicTrustDecision {
    /// The device was never seen.
    FirstSeen,
    /// The device is known by this certificate.
    Trusted,
    /// The device is known by another certificate.
    Rejected { expected: PeerCertificateFingerprint, actual: PeerCertificateFingerprint },
}

impl Clone for QuicTrustDecision {
    fn clone(&self) -> (copy: Self)
        ensures
            copy == *self,
    {
        match self {
            QuicTrustDecision::FirstSeen => QuicTrustDecision::FirstSeen,
            QuicTrustDecision::Trusted => QuicTrustDecision::Trusted,
            QuicTrustDecision::Rejected { expected, actual } => QuicTrustDecision::Rejected {
                expected: expected.clone(),
                actual: actual.clone(),
            },
        }
    }
}

/// A pin that a merge would have to overwrite.
#[derive(Debug, PartialEq, Eq)]
pub struct PinConflict {
    pub device_id: DeviceId,
    pub existing: PeerCertificateFingerprint,
    pub requested: PeerCertificateFingerprint,
}

/// The fingerprint that each known device is pinned to.
pub struct QuicTrustStore {
    pub peers: DeviceTable<PeerCertificateFingerprint>,
}

impl Default for QuicTrustStore {
    fn default() -> (store: Self)
        ensures
            store@ == Map::<u128, Seq<char>>::empty(),
    {
        let store = QuicTrustStore { peers: DeviceTable::new() };
        assert(store@ =~= Map::<u128, Seq<char>>::empty());
        store
    }
}

impl View for QuicTrustStore {
    type V = Map<u128, Seq<char>>;

    /// The pins, by the bits of the device's identifier.
    open spec fn view(&self) -> Map<u128, Seq<char>> {
        self.peers@.map_values(|fingerprint: PeerCertificateFingerprint| fingerprint@)
    }
}

/// What `pins` say of a device that presents `fingerprint`.
pub open spec fn trust_of(
    pins: Map<u128, Seq<char>>,
    device_id: DeviceId,
    fingerprint: Seq<char>,
    decision: QuicTrustDecision,
) -> bool {
    match decision {
        QuicTrustDecision::FirstSeen => !pins.contains_key(device_id.0),
        QuicTrustDecision::Trusted => pins.contains_key(device_id.0) && pins[device_id.0]
            == fingerprint,
        QuicTrustDecision::Rejected { expected, actual } => pins.contains_key(device_id.0)
            && pins[device_id.0] != fingerprint && expected@ == pins[device_id.0] && actual@
            == fingerprint,
    }
}

/// The pins after a device was offered to be trusted.
pub open spec fn pins_after(
    pins: Map<u128, Seq<char>>,
    device_id: DeviceId,
    fingerprint: Seq<char>,
) -> Map<u128, Seq<char>> {
    if pins.contains_key(device_id.0) {
        pins
    } else {
        pins.insert(device_id.0, fingerprint)
    }
}

/// Whether two sets of pins agree wherever both have one.
pub open spec fn pins_agree(a: Map<u128, Seq<char>>, b: Map<u128, Seq<char>>) -> bool {
    forall|id: u128| #[trigger] a.contains_key(id) && b.contains_key(id) ==> a[id] == b[id]
}

impl QuicTrustStore {
    /// What is thought of a device that presents `fingerprint`. Looking changes nothing.
    pub fn check(&self, device_id: DeviceId, fingerprint: &PeerCertificateFingerprint) -> (decision:
        QuicTrustDecision)
        ensures
            trust_of(self@, device_id, fingerprint@, decision),
    {
        match self.peers.get(device_id) {
            None => QuicTrustDecision::FirstSeen,
            Some(expected) => {
                if expected.same_as(fingerprint) {
                    QuicTrustDecision::Trusted
                } else {
                    QuicTrustDecision::Rejected {
                        expected: expected.clone(),
                        actual: fingerprint.clone(),
                    }
                }
            },
        }
    }

    /// Pins a device that was never seen; of any other it only says what is thought.
    pub fn trust_first_seen(
        &mut self,
        device_id: DeviceId,
        fingerprint: PeerCertificateFingerprint,
    ) -> (decision: QuicTrustDecision)
        ensures
            trust_of(old(self)@, device_id, fingerprint@, decision),
            final(self)@ == pins_after(old(self)@, device_id, fingerprint@),
    {
        let decision = self.check(device_id, &fingerprint);
        match decision {
            QuicTrustDecision::FirstSeen => {
                let ghost pin = fingerprint@;
                self.peers.insert(device_id, fingerprint);
                assert(self@ =~= old(self)@.insert(device_id.0, pin));
            },
            _ => {},
        }
        decision
    }

    /// The pin of a device.
    pub fn fingerprint_for(&self, device_id: &DeviceId) -> (fingerprint: Option<
        &PeerCertificateFingerprint,
    >)
        ensures
            match fingerprint {
                Some(pin) => self@.contains_key(device_id.0) && pin@ == self@[device_id.0],
                None => !self@.contains_key(device_id.0),
            },
    {
        self.peers.get(*device_id)
    }

    /// Adds this store's pins to those that are `saved`. A pin is never overwritten: where
    /// the two disagree on a device, nothing is merged and the device is named.
    pub fn merge_into(&self, saved: QuicTrustStore) -> (merged: Result<QuicTrustStore, PinConflict>)
        ensures
            match merged {
                Ok(store) => pins_agree(self@, saved@) && store@ == saved@.union_prefer_right(
                    self@,
                ),
                Err(conflict) => {
                    &&& self@.contains_key(conflict.device_id.0)
                    &&& saved@.contains_key(conflict.device_id.0)
                    &&& conflict.existing@ == saved@[conflict.device_id.0]
                    &&& conflict.requested@ == self@[conflict.device_id.0]
                    &&& conflict.existing@ != conflict.requested@
                },
            },
    {
        let mut merged = saved;
        let ids = self.peers.ids();
        let mut i: usize = 0;
        while i < ids.len()
            invariant
                i <= ids@.len(),
                forall|id: DeviceId| #[trigger]
                    ids@.contains(id) <==> self.peers@.contains_key(id.0),
                forall|k: int|
                    0 <= k < i ==> merged@.contains_key((#[trigger] ids@[k]).0)
                        && merged@[ids@[k].0] == self@[ids@[k].0],
                forall|id: u128| #[trigger]
                    saved@.contains_key(id) ==> merged@.contains_key(id) && merged@[id]
                        == saved@[id],
                forall|id: u128| #[trigger]
                    merged@.contains_key(id) ==> saved@.contains_key(id) || (self@.contains_key(id)
                        && merged@[id] == self@[id]),
            decreases ids@.len() - i,
        {
            let device_id = ids[i];
            let ghost before = merged@;
            proof {
                assert(ids@.contains(ids@[i as int]));
                assert(self@.contains_key(device_id.0));
            }
            if let Some(fingerprint) = self.peers.get(device_id) {
                let conflict = match merged.peers.get(device_id) {
                    Some(existing) => if existing.same_as(fingerprint) {
                        None
                    } else {
                        Some(existing.clone())
                    },
                    None => None,
                };
                assert(before.contains_key(device_id.0) <==> merged.peers@.contains_key(
                    device_id.0,
                ));
                if let Some(existing) = conflict {
                    return Err(
                        PinConflict { device_id, existing, requested: fingerprint.clone() },
                    );
                }
                if !merged.peers.contains(device_id) {
                    let copy = fingerprint.clone();
                    merged.peers.insert(device_id, copy);
                    assert(merged@ =~= before.insert(device_id.0, self@[device_id.0]));
                }
            }
            i += 1;
        }
        proof {
            assert forall|id: u128| #[trigger] self@.contains_key(id) implies merged@.contains_key(
                id,
            ) && merged@[id] == self@[id] by {
                assert(ids@.contains(DeviceId(id)));
                let k = choose|k: int| 0 <= k < ids@.len() && ids@[k] == DeviceId(id);
                assert(merged@.contains_key(ids@[k].0));
            }
            assert(merged@ =~= saved@.union_prefer_right(self@));
        }
        Ok(merged)
    }
}

/// Trust on first use: once a device was offered, it is trusted by the certificate it
/// was first seen with and rejected with any other.
pub proof fn first_certificate_is_trusted(
    pins: Map<u128, Seq<char>>,
    device_id: DeviceId,
    first: Seq<char>,
    later: Seq<char>,
    decision: QuicTrustDecision,
)
    requires
        !pins.contains_key(device_id.0),
        trust_of(pins_after(pins, device_id, first), device_id, later, decision),
    ensures
        decision is Trusted <==> later == first,
        decision is Rejected <==> later != first,
{
}

/// The pins after a history of offers, oldest first.
pub open spec fn pins_after_all(
    pins: Map<u128, Seq<char>>,
    offers: Seq<(DeviceId, Seq<char>)>,
) -> Map<u128, Seq<char>>
    decreases offers.len(),
{
    if offers.len() == 0 {
        pins
    } else {
        pins_after(pins_after_all(pins, offers.drop_last()), offers.last().0, offers.last().1)
    }
}

/// A pin never changes, whatever is offered afterwards.
pub proof fn pins_never_change(
    pins: Map<u128, Seq<char>>,
    offers: Seq<(DeviceId, Seq<char>)>,
    id: u128,
)
    requires
        pins.contains_key(id),
    ensures
        pins_after_all(pins, offers).contains_key(id),
        pins_after_all(pins, offers)[id] == pins[id],
    decreases offers.len(),
{
    if offers.len() > 0 {
        pins_never_change(pins, offers.drop_last(), id);
    }
}

/// Offers of different devices can be taken in either order: no pin is lost.
pub proof fn offers_of_different_devices_commute(
    pins: Map<u128, Seq<char>>,
    a: DeviceId,
    pin_a: Seq<char>,
    b: DeviceId,
    pin_b: Seq<char>,
)
    requires
        a != b,
    ensures
        pins_after(pins_after(pins, a, pin_a), b, pin_b) == pins_after(
            pins_after(pins, b, pin_b),
            a,
            pin_a,
        ),
{
    assert(pins_after(pins_after(pins, a, pin_a), b, pin_b) =~= pins_after(
        pins_after(pins, b, pin_b),
        a,
        pin_a,
    ));
}

/// Merging loses no pin of either side.
pub proof fn merging_keeps_every_pin(
    ours: Map<u128, Seq<char>>,
    saved: Map<u128, Seq<char>>,
    id: u128,
)
    requires
        pins_agree(ours, saved),
    ensures
        ours.contains_key(id) ==> saved.union_prefer_right(ours).contains_key(id)
            && saved.union_prefer_right(ours)[id] == ours[id],
        saved.contains_key(id) ==> saved.union_prefer_right(ours).contains_key(id)
            && saved.union_prefer_right(ours)[id] == saved[id],
{
}

/// The number that a hexadecimal digit stands for.
pub open spec fn hex_value(digit: char) -> int {
    if '0' <= digit <= '9' {
        digit as int - '0' as int
    } else if 'a' <= digit <= 'f' {
        digit as int - 'a' as int + 10
    } else {
        -1
    }
}

/// Every byte is written as two lower-case digits that spell it, the larger one first.
pub proof fn hex_spells_every_byte(bytes: Seq<u8>, i: int)
    requires
        0 <= i < bytes.len(),
    ensures
        hex(bytes).len() == 2 * bytes.len(),
        0 <= hex_value(hex(bytes)[2 * i]) < 16,
        0 <= hex_value(hex(bytes)[2 * i + 1]) < 16,
        bytes[i] == 16 * hex_value(hex(bytes)[2 * i]) + hex_value(hex(bytes)[2 * i + 1]),
{
    lemma_hex_at(bytes, i);
}

/// A device that has no pin is seen for the first time. One with a pin is trusted with the
/// certificate of its pin, and turned down with every other, which is named beside the pin.
pub proof fn pins_decide_who_is_trusted(
    pins: Map<u128, Seq<char>>,
    device_id: DeviceId,
    fingerprint: Seq<char>,
    decision: QuicTrustDecision,
)
    requires
        trust_of(pins, device_id, fingerprint, decision),
    ensures
        decision is FirstSeen <==> !pins.dom().contains(device_id.0),
        decision is Trusted <==> pins.dom().contains(device_id.0) && pins[device_id.0]
            == fingerprint,
        decision matches QuicTrustDecision::Rejected { expected, actual } ==> expected@
            == pins[device_id.0] && actual@ == fingerprint && expected@ != actual@,
{
}

/// An offer pins the device that has none, to what was offered, and touches no other device.
pub proof fn offers_pin_one_device(
    pins: Map<u128, Seq<char>>,
    device_id: DeviceId,
    fingerprint: Seq<char>,
    other: u128,
)
    ensures
        ({
            let after = pins_after(pins, device_id, fingerprint);
            &&& after.contains_key(device_id.0)
            &&& !pins.contains_key(device_id.0) ==> after[device_id.0] == fingerprint
            &&& pins.contains_key(device_id.0) ==> after[device_id.0] == pins[device_id.0]
            &&& other != device_id.0 ==> after.contains_key(other) == pins.contains_key(other)
            &&& other != device_id.0 && pins.contains_key(other) ==> after[other] == pins[other]
        }),
{
}

/// Two sets of pins do not agree where a device has two different ones.
pub proof fn different_pins_disagree(a: Map<u128, Seq<char>>, b: Map<u128, Seq<char>>, id: u128)
    requires
        a.contains_key(id),
        b.contains_key(id),
        a[id] != b[id],
    ensures
        !pins_agree(a, b),
        !pins_agree(b, a),
{
}

} // verus!
