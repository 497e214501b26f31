//! Messages between peers, as far as the library looks into them.
//!
//! A message travels as an encoded payload. What the library decides on is held
//! here as fields; contents that it only carries stay in the payload.

use vstd::prelude::*;

use crate::types::{DeviceId, KeyState};

verus! {

/// A lane feature that a peer may offer.
#[derive(Debug, Clone, Copy, PartialEq, Eq, Structural)]
pub enum TransportCapability {
    RealtimeDatagrams,
    ReliableInputStream,
    EmergencyRelease,
}

/// The lane features that a peer offers.
#[derive(Debug, Clone, Copy, PartialEq, Eq, Structural)]
pub struct PeerTransportCapabilities {
    pub realtime_datagrams: bool,
    pub reliable_input_stream: bool,
    pub emergency_release: bool,
}

impl PeerTransportCapabilities {
    /// Whether a feature is offered.
    pub open spec fn offers(self, capability: TransportCapability) -> bool {
        match capability {
            TransportCapability::RealtimeDatagrams => self.realtime_datagrams,
            TransportCapability::ReliableInputStream => self.reliable_input_stream,
            TransportCapability::EmergencyRelease => self.emergency_release,
        }
    }

    /// Everything that the current protocol needs.
    pub fn required_v3() -> (capabilities: Self)
        ensures
            forall|c: TransportCapability| capabilities.offers(c),
    {
        PeerTransportCapabilities {
            realtime_datagrams: true,
            reliable_input_stream: true,
            emergency_release: true,
        }
    }

    /// A feature, where it is not offered.
    pub open spec fn lacking(self, capability: TransportCapability) -> Seq<TransportCapability> {
        if self.offers(capability) {
            seq![]
        } else {
            seq![capability]
        }
    }

    /// What the current protocol needs and the peer does not offer, in the order in which
    /// the features are declared.
    pub open spec fn missing(self) -> Seq<TransportCapability> {
        self.lacking(TransportCapability::RealtimeDatagrams) + self.lacking(
            TransportCapability::ReliableInputStream,
        ) + self.lacking(TransportCapability::EmergencyRelease)
    }

    /// What the current protocol needs and the peer does not offer.
    pub fn missing_required_v3_capabilities(&self) -> (missing: Vec<TransportCapability>)
        ensures
            missing@ == self.missing(),
            missing@.len() == 0 <==> forall|c: TransportCapability| self.offers(c),
    {
        let mut missing: Vec<TransportCapability> = Vec::new();
        if !self.realtime_datagrams {
            missing.push(TransportCapability::RealtimeDatagrams);
        }
        if !self.reliable_input_stream {
            missing.push(TransportCapability::ReliableInputStream);
        }
        if !self.emergency_release {
            missing.push(TransportCapability::EmergencyRelease);
        }
        proof {
            lemma_missing(*self);
            assert(missing@ =~= self.missing());
        }
        missing
    }
}

/// Nothing is missing exactly if everything is offered.
pub proof fn lemma_missing(capabilities: PeerTransportCapabilities)
    ensures
        capabilities.missing().len() == 0 <==> forall|c: TransportCapability|
            capabilities.offers(c),
{
    if capabilities.missing().len() > 0 {
        let missed = if !capabilities.realtime_datagrams {
            TransportCapability::RealtimeDatagrams
        } else if !capabilities.reliable_input_stream {
            TransportCapability::ReliableInputStream
        } else {
            TransportCapability::EmergencyRelease
        };
        assert(!capabilities.offers(missed));
    }
}

/// A feature is offered where its flag is set. Those that are missing are exactly those that are
/// not offered, each once, in the order in which they are declared.
pub proof fn missing_features_are_named_once(capabilities: PeerTransportCapabilities)
    ensures
        capabilities.offers(TransportCapability::RealtimeDatagrams)
            == capabilities.realtime_datagrams,
        capabilities.offers(TransportCapability::ReliableInputStream)
            == capabilities.reliable_input_stream,
        capabilities.offers(TransportCapability::EmergencyRelease)
            == capabilities.emergency_release,
        forall|c: TransportCapability| #[trigger]
            capabilities.missing().contains(c) <==> !capabilities.offers(c),
        capabilities.missing().no_duplicates(),
        forall|i: int, j: int|
            0 <= i < j < capabilities.missing().len() ==> {
                &&& capabilities.missing()[j] != TransportCapability::RealtimeDatagrams
                &&& capabilities.missing()[i] != TransportCapability::EmergencyRelease
            },
{
    let missing = capabilities.missing();
    let first = capabilities.lacking(TransportCapability::RealtimeDatagrams);
    let second = capabilities.lacking(TransportCapability::ReliableInputStream);
    let third = capabilities.lacking(TransportCapability::EmergencyRelease);
    if !capabilities.realtime_datagrams {
        assert(missing[0] == TransportCapability::RealtimeDatagrams);
    }
    if !capabilities.reliable_input_stream {
        assert(missing[first.len() as int] == TransportCapability::ReliableInputStream);
    }
    if !capabilities.emergency_release {
        assert(missing[(first + second).len() as int] == TransportCapability::EmergencyRelease);
    }
    assert forall|c: TransportCapability| #[trigger] missing.contains(c) implies
        !capabilities.offers(c) by {
        let i = choose|i: int| 0 <= i < missing.len() && missing[i] == c;
        assert(missing[i] == (first + second + third)[i]);
    }
    assert forall|c: TransportCapability| !capabilities.offers(c) implies
        #[trigger] missing.contains(c) by {
        match c {
            TransportCapability::RealtimeDatagrams => {},
            TransportCapability::ReliableInputStream => {},
            TransportCapability::EmergencyRelease => {},
        }
    }
}

/// Why a greeting is turned down.
#[derive(Debug, Clone, PartialEq, Eq)]
pub enum HandshakeRejectReason {
    ApplicationMismatch,
    ProtocolMismatch { required: u32, received: u32 },
    MissingCapabilities { missing: Vec<TransportCapability> },
    IdentityUnavailable,
}

/// Why a greeting is turned down, as a value.
pub enum RejectView {
    ApplicationMismatch,
    ProtocolMismatch { required: u32, received: u32 },
    MissingCapabilities { missing: Seq<TransportCapability> },
    IdentityUnavailable,
}

impl View for HandshakeRejectReason {
    type V = RejectView;

    open spec fn view(&self) -> RejectView {
        match *self {
            HandshakeRejectReason::ApplicationMismatch => RejectView::ApplicationMismatch,
            HandshakeRejectReason::ProtocolMismatch { required, received } => {
                RejectView::ProtocolMismatch { required, received }
            },
            HandshakeRejectReason::MissingCapabilities { missing } => {
                RejectView::MissingCapabilities { missing: missing@ }
            },
            HandshakeRejectReason::IdentityUnavailable => RejectView::IdentityUnavailable,
        }
    }
}

/// A message between peers.
#[derive(Debug, Clone, PartialEq, Eq)]
#[allow(inconsistent_fields)]
pub enum Message {
    Hello {
        app_id: String,
        device_id: DeviceId,
        device_name: String,
        hostname: String,
        protocol_version: u32,
        transport_capabilities: PeerTransportCapabilities,
    },
    HelloBack {
        app_id: String,
        device_id: DeviceId,
        device_name: String,
        hostname: String,
        protocol_version: u32,
        transport_capabilities: PeerTransportCapabilities,
    },
    HelloRejected { app_id: String, device_id: DeviceId, reason: HandshakeRejectReason },
    Goodbye { device_id: DeviceId, reason: String },
    MouseMove { x: i32, y: i32 },
    MouseButton,
    MouseWheel,
    Key { keycode: u32, state: KeyState },
    KeyExtended,
    GamepadConnected,
    GamepadDisconnected,
    GamepadState,
    InputDiagnostic,
    LatencyProbe {
        sequence: u64,
        timestamp_ms: u64,
        endpoint_switch: bool,
        origin_sequence: Option<u64>,
    },
    LatencyProbeAck,
    EndpointEventSubscribe,
    EndpointEventSnapshot,
    EndpointEventDelta,
    EndpointInjectRequest,
    EndpointInjectResult,
    AudioStreamStart,
    AudioFrame,
    AudioStreamStop { stream_id: u128, reason: String },
    AudioStreamError,
    ClipboardData { mime_type: String, data: Vec<u8> },
    ClipboardRequest,
    ClipboardResponse,
    ScreenEnter,
    ScreenLeave,
    ScreenUpdate,
    Heartbeat { sequence: u64, timestamp: u64 },
    Ack { sequence: u64 },
    Error { code: u32, message: String },
    UsbDeviceAttached,
    UsbDeviceDetached { bus_id: String, reason: String },
    UsbTransfer,
    UsbTransferComplete,
    UsbForwardingError,
    UsbDeviceClaimRequest,
    UsbDeviceClaimResponse,
    UsbDeviceRelease,
    UsbDeviceReset,
    UsbTransferCancel,
    UsbFlowControl,
}

} // verus!
