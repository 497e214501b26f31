//! The compatibility bootstrap: how two peers introduce themselves to each other.

use vstd::prelude::*;
use vstd::utf8::encode_utf8;

use crate::encryption::{PeerCertificateFingerprint, QuicTrustDecision};
use crate::message::{
    lemma_missing, missing_features_are_named_once, HandshakeRejectReason, Message,
    PeerTransportCapabilities, RejectView, TransportCapability,
};
use crate::types::{ControlConnectionId, DeviceId, PROTOCOL_VERSION};

verus! {

/// The largest encoded greeting.
pub const BOOTSTRAP_MAX_MESSAGE_SIZE: usize = 65536;

/// How long each step of the bootstrap may take, in milliseconds.
pub const BOOTSTRAP_TIMEOUT_MS: u64 = 250;

/// The application that a greeting has to name, in any case.
pub const DISCOVERY_APP_ID: &'static str = "r-sharemouse";

/// Who is at the other end of an authenticated connection.
#[derive(Debug, PartialEq, Eq)]
pub struct PeerAuthContext {
    pub peer_id: DeviceId,
    pub certificate_fingerprint: PeerCertificateFingerprint,
    pub control_connection_id: ControlConnectionId,
}

impl Clone for PeerAuthContext {
    fn clone(&self) -> (copy: Self)
        ensures
            copy == *self,
    {
        PeerAuthContext {
            peer_id: self.peer_id,
            certificate_fingerprint: self.certificate_fingerprint.clone(),
            control_connection_id: self.control_connection_id,
        }
    }
}

/// Whether a connecting peer has to present a certificate.
#[derive(Debug, Clone, Copy, PartialEq, Eq, Structural)]
pub enum ClientCertificatePolicy {
    OptionalForControlBootstrap,
    RequiredForMedia,
}

/// A peer that has introduced itself.
#[derive(Debug, PartialEq, Eq)]
pub struct NegotiatedPeer {
    pub auth: PeerAuthContext,
    pub transport_capabilities: PeerTransportCapabilities,
    pub inbound_trust_decision: Option<QuicTrustDecision>,
}

/// Why a bootstrap comes to nothing.
#[derive(Debug, PartialEq, Eq)]
pub enum BootstrapError {
    /// The message has no place on the bootstrap stream.
    NotBootstrap,
    /// The message is longer than `BOOTSTRAP_MAX_MESSAGE_SIZE`.
    TooLarge,
    /// The peer did not start with a greeting.
    ExpectedHello,
    /// The peer answered with something else than an answer.
    ExpectedHelloBack,
    /// The peer's greeting is turned down, and it is told why.
    Rejected { reason: HandshakeRejectReason },
    /// The peer has turned our greeting down.
    RejectedByPeer { reason: HandshakeRejectReason },
    /// The peer's answer is not acceptable.
    IncompatibleHelloBack { reason: HandshakeRejectReason },
}

/// What a peer says of itself in an acceptable greeting.
#[derive(Debug, PartialEq, Eq)]
pub struct PeerGreeting {
    pub peer_id: DeviceId,
    pub transport_capabilities: PeerTransportCapabilities,
}

/// Whether a message has its place on the bootstrap stream.
pub open spec fn is_bootstrap(message: Message) -> bool {
    message is Hello || message is HelloBack || message is HelloRejected
}

/// Whether a message has its place on the bootstrap stream.
pub fn is_bootstrap_message(message: &Message) -> (bootstrap: bool)
    ensures
        bootstrap == is_bootstrap(*message),
{
    match message {
        Message::Hello { .. } | Message::HelloBack { .. } | Message::HelloRejected { .. } => true,
        _ => false,
    }
}

/// Whether a message, encoded to `encoded_len` bytes, may travel on the bootstrap stream.
pub fn validate_bootstrap_message(message: &Message, encoded_len: usize) -> (valid: Result<
    (),
    BootstrapError,
>)
    ensures
        match valid {
            Ok(()) => is_bootstrap(*message) && encoded_len <= BOOTSTRAP_MAX_MESSAGE_SIZE,
            Err(BootstrapError::NotBootstrap) => !is_bootstrap(*message),
            Err(BootstrapError::TooLarge) => is_bootstrap(*message) && encoded_len
                > BOOTSTRAP_MAX_MESSAGE_SIZE,
            Err(_) => false,
        },
{
    if !is_bootstrap_message(message) {
        return Err(BootstrapError::NotBootstrap);
    }
    if encoded_len > BOOTSTRAP_MAX_MESSAGE_SIZE {
        return Err(BootstrapError::TooLarge);
    }
    Ok(())
}

/// A byte with an ASCII capital letter made small.
pub open spec fn ascii_lower(byte: u8) -> u8 {
    if 65 <= byte <= 90 {
        (byte + 32) as u8
    } else {
        byte
    }
}

/// Bytes with the ASCII capital letters made small.
pub open spec fn ascii_lower_all(bytes: Seq<u8>) -> Seq<u8> {
    bytes.map_values(|b: u8| ascii_lower(b))
}

/// Makes an ASCII capital letter small.
pub fn to_ascii_lower(byte: u8) -> (lower: u8)
    ensures
        lower == ascii_lower(byte),
{
    if byte >= 65 && byte <= 90 {
        byte + 32
    } else {
        byte
    }
}

/// Whether two texts differ at most in the case of ASCII letters.
pub fn eq_ignore_ascii_case(a: &str, b: &str) -> (equal: bool)
    ensures
        equal == (ascii_lower_all(encode_utf8(a@)) == ascii_lower_all(encode_utf8(b@))),
{
    let x = a.as_bytes();
    let y = b.as_bytes();
    if x.len() != y.len() {
        assert(ascii_lower_all(x@).len() != ascii_lower_all(y@).len());
        return false;
    }
    let mut i: usize = 0;
    while i < x.len()
        invariant
            i <= x@.len(),
            x@ == encode_utf8(a@),
            y@ == encode_utf8(b@),
            x@.len() == y@.len(),
            forall|k: int| 0 <= k < i ==> ascii_lower(x@[k]) == ascii_lower(y@[k]),
        decreases x@.len() - i,
    {
        if to_ascii_lower(x[i]) != to_ascii_lower(y[i]) {
            assert(ascii_lower_all(x@)[i as int] != ascii_lower_all(y@)[i as int]);
            return false;
        }
        i += 1;
    }
    assert(ascii_lower_all(x@) =~= ascii_lower_all(y@));
    true
}

/// Whether a greeting names this application.
pub open spec fn names_application(app_id: Seq<char>) -> bool {
    ascii_lower_all(encode_utf8(app_id)) == ascii_lower_all(encode_utf8(DISCOVERY_APP_ID@))
}

/// Whether a greeting is acceptable.
pub open spec fn hello_acceptable(
    app_id: Seq<char>,
    protocol_version: u32,
    capabilities: PeerTransportCapabilities,
) -> bool {
    &&& names_application(app_id)
    &&& protocol_version == PROTOCOL_VERSION
    &&& forall|c: TransportCapability| capabilities.offers(c)
}

/// Why a greeting is not acceptable. The application is looked at first, then the version,
/// then the capabilities.
pub open spec fn reject_reason(
    app_id: Seq<char>,
    protocol_version: u32,
    capabilities: PeerTransportCapabilities,
) -> Option<RejectView> {
    if !names_application(app_id) {
        Some(RejectView::ApplicationMismatch)
    } else if protocol_version != PROTOCOL_VERSION {
        Some(
            RejectView::ProtocolMismatch { required: PROTOCOL_VERSION, received: protocol_version },
        )
    } else if capabilities.missing().len() > 0 {
        Some(RejectView::MissingCapabilities { missing: capabilities.missing() })
    } else {
        None
    }
}

/// Looks a greeting over.
pub fn validate_hello(
    app_id: &str,
    protocol_version: u32,
    transport_capabilities: &PeerTransportCapabilities,
) -> (valid: Result<(), HandshakeRejectReason>)
    ensures
        match valid {
            Ok(()) => hello_acceptable(app_id@, protocol_version, *transport_capabilities)
                && reject_reason(app_id@, protocol_version, *transport_capabilities) is None,
            Err(reason) => reject_reason(app_id@, protocol_version, *transport_capabilities)
                == Some(reason@) && !hello_acceptable(
                app_id@,
                protocol_version,
                *transport_capabilities,
            ),
        },
{
    if !eq_ignore_ascii_case(app_id, DISCOVERY_APP_ID) {
        return Err(HandshakeRejectReason::ApplicationMismatch);
    }
    if protocol_version != PROTOCOL_VERSION {
        return Err(
            HandshakeRejectReason::ProtocolMismatch {
                required: PROTOCOL_VERSION,
                received: protocol_version,
            },
        );
    }
    let missing = transport_capabilities.missing_required_v3_capabilities();
    if missing.len() > 0 {
        return Err(HandshakeRejectReason::MissingCapabilities { missing });
    }
    Ok(())
}

/// What an incoming connection's first message comes to. A greeting that is turned down
/// is answered with the reason.
pub fn receive_incoming_handshake(message: &Message, encoded_len: usize) -> (greeting: Result<
    PeerGreeting,
    BootstrapError,
>)
    ensures
        match greeting {
            Ok(peer) => encoded_len <= BOOTSTRAP_MAX_MESSAGE_SIZE && (*message matches Message::Hello {
                app_id,
                device_id,
                protocol_version,
                transport_capabilities,
                ..
            } && hello_acceptable(app_id@, protocol_version, transport_capabilities) && peer.peer_id
                == device_id && peer.transport_capabilities == transport_capabilities),
            Err(BootstrapError::NotBootstrap) => !is_bootstrap(*message),
            Err(BootstrapError::TooLarge) => is_bootstrap(*message) && encoded_len
                > BOOTSTRAP_MAX_MESSAGE_SIZE,
            Err(BootstrapError::ExpectedHello) => is_bootstrap(*message) && encoded_len
                <= BOOTSTRAP_MAX_MESSAGE_SIZE && !(message is Hello),
            Err(BootstrapError::Rejected { reason }) => encoded_len <= BOOTSTRAP_MAX_MESSAGE_SIZE
                && (*message matches Message::Hello {
                app_id,
                protocol_version,
                transport_capabilities,
                ..
            } && reject_reason(app_id@, protocol_version, transport_capabilities) == Some(reason@)),
            Err(_) => false,
        },
{
    match validate_bootstrap_message(message, encoded_len) {
        Ok(()) => {},
        Err(error) => {
            return Err(error);
        },
    }
    match message {
        Message::Hello { app_id, device_id, protocol_version, transport_capabilities, .. } => {
            match validate_hello(app_id.as_str(), *protocol_version, transport_capabilities) {
                Ok(()) => Ok(
                    PeerGreeting {
                        peer_id: *device_id,
                        transport_capabilities: *transport_capabilities,
                    },
                ),
                Err(reason) => Err(BootstrapError::Rejected { reason }),
            }
        },
        _ => Err(BootstrapError::ExpectedHello),
    }
}

/// What the answer to our greeting comes to.
pub fn perform_outbound_handshake(response: Message, encoded_len: usize) -> (greeting: Result<
    PeerGreeting,
    BootstrapError,
>)
    ensures
        match greeting {
            Ok(peer) => encoded_len <= BOOTSTRAP_MAX_MESSAGE_SIZE && (response
                matches Message::HelloBack {
                app_id,
                device_id,
                protocol_version,
                transport_capabilities,
                ..
            } && hello_acceptable(app_id@, protocol_version, transport_capabilities) && peer.peer_id
                == device_id && peer.transport_capabilities == transport_capabilities),
            Err(BootstrapError::NotBootstrap) => !is_bootstrap(response),
            Err(BootstrapError::TooLarge) => is_bootstrap(response) && encoded_len
                > BOOTSTRAP_MAX_MESSAGE_SIZE,
            Err(BootstrapError::ExpectedHelloBack) => encoded_len <= BOOTSTRAP_MAX_MESSAGE_SIZE
                && response is Hello,
            Err(BootstrapError::RejectedByPeer { reason }) => encoded_len
                <= BOOTSTRAP_MAX_MESSAGE_SIZE && (response matches Message::HelloRejected {
                reason: theirs,
                ..
            } && reason == theirs),
            Err(BootstrapError::IncompatibleHelloBack { reason }) => encoded_len
                <= BOOTSTRAP_MAX_MESSAGE_SIZE && (response matches Message::HelloBack {
                app_id,
                protocol_version,
                transport_capabilities,
                ..
            } && reject_reason(app_id@, protocol_version, transport_capabilities) == Some(reason@)),
            Err(_) => false,
        },
{
    match validate_bootstrap_message(&response, encoded_len) {
        Ok(()) => {},
        Err(error) => {
            return Err(error);
        },
    }
    match response {
        Message::HelloRejected { reason, .. } => Err(BootstrapError::RejectedByPeer { reason }),
        Message::HelloBack { app_id, device_id, protocol_version, transport_capabilities, .. } => {
            match validate_hello(app_id.as_str(), protocol_version, &transport_capabilities) {
                Ok(()) => Ok(PeerGreeting { peer_id: device_id, transport_capabilities }),
                Err(reason) => Err(BootstrapError::IncompatibleHelloBack { reason }),
            }
        },
        _ => Err(BootstrapError::ExpectedHelloBack),
    }
}

/// The peer that an acceptable greeting and a certificate make.
pub fn negotiated(
    greeting: PeerGreeting,
    certificate_fingerprint: PeerCertificateFingerprint,
    control_connection_id: ControlConnectionId,
    inbound_trust_decision: Option<QuicTrustDecision>,
) -> (peer: NegotiatedPeer)
    ensures
        peer.auth.peer_id == greeting.peer_id,
        peer.auth.certificate_fingerprint == certificate_fingerprint,
        peer.auth.control_connection_id == control_connection_id,
        peer.transport_capabilities == greeting.transport_capabilities,
        peer.inbound_trust_decision == inbound_trust_decision,
{
    NegotiatedPeer {
        auth: PeerAuthContext {
            peer_id: greeting.peer_id,
            certificate_fingerprint,
            control_connection_id,
        },
        transport_capabilities: greeting.transport_capabilities,
        inbound_trust_decision,
    }
}

/// The answer that a peer gets whose greeting is turned down.
pub fn rejection(local_device_id: DeviceId, reason: HandshakeRejectReason) -> (message: Message)
    ensures
        message matches Message::HelloRejected { app_id, device_id, reason: told } && app_id@
            == DISCOVERY_APP_ID@ && device_id == local_device_id && told == reason,
{
    Message::HelloRejected {
        app_id: DISCOVERY_APP_ID.to_owned(),
        device_id: local_device_id,
        reason,
    }
}

/// A greeting is acceptable or there is a reason to turn it down, never both.
pub proof fn greetings_are_accepted_or_rejected(
    app_id: Seq<char>,
    protocol_version: u32,
    capabilities: PeerTransportCapabilities,
)
    ensures
        hello_acceptable(app_id, protocol_version, capabilities) <==> reject_reason(
            app_id,
            protocol_version,
            capabilities,
        ) is None,
{
    lemma_missing(capabilities);
}

/// Two texts are taken for the same if they are equally long and every byte is the same, or the
/// same ASCII letter in the other case.
pub proof fn only_the_case_of_letters_is_ignored(a: Seq<u8>, b: Seq<u8>)
    ensures
        ascii_lower_all(a) == ascii_lower_all(b) <==> a.len() == b.len() && forall|i: int|
            0 <= i < a.len() ==> {
                ||| #[trigger] a[i] == b[i]
                ||| 65 <= a[i] <= 90 && b[i] == a[i] + 32
                ||| 65 <= b[i] <= 90 && a[i] == b[i] + 32
            },
{
    let x = ascii_lower_all(a);
    let y = ascii_lower_all(b);
    if x == y {
        assert(x.len() == y.len());
        assert forall|i: int| 0 <= i < a.len() implies {
            ||| #[trigger] a[i] == b[i]
            ||| 65 <= a[i] <= 90 && b[i] == a[i] + 32
            ||| 65 <= b[i] <= 90 && a[i] == b[i] + 32
        } by {
            assert(x[i] == y[i]);
        }
    }
    if a.len() == b.len() && forall|i: int|
        0 <= i < a.len() ==> {
            ||| #[trigger] a[i] == b[i]
            ||| 65 <= a[i] <= 90 && b[i] == a[i] + 32
            ||| 65 <= b[i] <= 90 && a[i] == b[i] + 32
        } {
        assert forall|i: int| 0 <= i < x.len() implies x[i] == y[i] by {
            assert(a[i] == a[i]);
        }
        assert(x =~= y);
    }
}

/// A greeting is accepted exactly if it names this application, speaks its version, and offers
/// everything that the version needs.
pub proof fn greetings_have_to_fit_in_everything(
    app_id: Seq<char>,
    protocol_version: u32,
    capabilities: PeerTransportCapabilities,
)
    ensures
        hello_acceptable(app_id, protocol_version, capabilities) <==> ascii_lower_all(
            encode_utf8(app_id),
        ) == ascii_lower_all(encode_utf8("r-sharemouse"@)) && protocol_version == 3
            && capabilities.realtime_datagrams && capabilities.reliable_input_stream
            && capabilities.emergency_release,
        hello_acceptable("r-sharemouse"@, protocol_version, capabilities) <==> protocol_version == 3
            && capabilities.realtime_datagrams && capabilities.reliable_input_stream
            && capabilities.emergency_release,
{
    if hello_acceptable(app_id, protocol_version, capabilities) || hello_acceptable(
        "r-sharemouse"@,
        protocol_version,
        capabilities,
    ) {
        assert(capabilities.offers(TransportCapability::RealtimeDatagrams));
        assert(capabilities.offers(TransportCapability::ReliableInputStream));
        assert(capabilities.offers(TransportCapability::EmergencyRelease));
    }
}

/// The reason to turn a greeting down is the first thing that does not fit, with what was
/// asked for and what came.
pub proof fn the_first_fault_of_a_greeting_is_told(
    app_id: Seq<char>,
    protocol_version: u32,
    capabilities: PeerTransportCapabilities,
)
    ensures
        match reject_reason(app_id, protocol_version, capabilities) {
            Some(RejectView::ApplicationMismatch) => ascii_lower_all(encode_utf8(app_id))
                != ascii_lower_all(encode_utf8("r-sharemouse"@)),
            Some(RejectView::ProtocolMismatch { required, received }) => names_application(app_id)
                && required == 3 && received == protocol_version && received != 3,
            Some(RejectView::MissingCapabilities { missing }) => names_application(app_id)
                && protocol_version == 3 && missing.len() > 0 && forall|c: TransportCapability|
                missing.contains(c) <==> !capabilities.offers(c),
            Some(RejectView::IdentityUnavailable) => false,
            None => names_application(app_id) && protocol_version == 3
                && capabilities.realtime_datagrams && capabilities.reliable_input_stream
                && capabilities.emergency_release,
        },
{
    greetings_are_accepted_or_rejected(app_id, protocol_version, capabilities);
    greetings_have_to_fit_in_everything(app_id, protocol_version, capabilities);
    missing_features_are_named_once(capabilities);
}

} // verus!
