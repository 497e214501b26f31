//! Traffic lanes: which lane a message takes, what a lane looks like on the wire, and
//! what the sending side of a connection admits.

use vstd::prelude::*;

use crate::buffer;
use crate::codec::{
    length_prefixed, message_frame, message_tag, reliable_bytes, reliable_encode_fault,
    ControlMessageCodec, ReliableCodecError, ReliableInputCodec, MAX_MESSAGE_SIZE,
};
use crate::message::Message;
use crate::types::{DeviceId, KeyState, ReliableInputFrame};

pub use crate::inbound::TerminalReleaseEmitter;
pub use crate::registry::{ConnectionRegistry, RegisteredPeer};
pub use crate::sender::{PeerTransportHandle, TerminalReleaseEvent};

verus! {

broadcast use crate::wire::group_be_lengths;

/// The first bytes of every lane stream.
pub const QOS_LANE_MAGIC: [u8; 4] = [82, 83, 81, 51];

/// The code with which a sender cancels a reliable stream whose epoch has ended.
pub const TERMINAL_CANCEL_RESET_CODE: u32 = 0x525354;

/// The code with which a sender cancels a message that its caller gave up on.
pub const AWAITED_CANCEL_RESET_CODE: u32 = 0x525341;

/// The code with which a receiver stops a stream that it does not accept.
pub const STREAM_REJECTED_CODE: u32 = 0x525350;

/// The lanes of a connection, as the byte behind the magic names them.
#[derive(Debug, Clone, Copy, PartialEq, Eq, Structural)]
pub enum LaneDiscriminator {
    ReliableInput,
    Emergency,
    Control,
    Bulk,
    Telemetry,
    ReliableCompat,
}

impl LaneDiscriminator {
    /// The byte that names this lane.
    pub open spec fn tag(self) -> u8 {
        match self {
            LaneDiscriminator::ReliableInput => 1,
            LaneDiscriminator::Emergency => 2,
            LaneDiscriminator::Control => 3,
            LaneDiscriminator::Bulk => 4,
            LaneDiscriminator::Telemetry => 5,
            LaneDiscriminator::ReliableCompat => 6,
        }
    }

    /// The byte that names this lane.
    pub fn as_u8(self) -> (tag: u8)
        ensures
            tag == self.tag(),
    {
        match self {
            LaneDiscriminator::ReliableInput => 1,
            LaneDiscriminator::Emergency => 2,
            LaneDiscriminator::Control => 3,
            LaneDiscriminator::Bulk => 4,
            LaneDiscriminator::Telemetry => 5,
            LaneDiscriminator::ReliableCompat => 6,
        }
    }

    /// The lane that a byte names.
    pub fn from_u8(tag: u8) -> (lane: Option<LaneDiscriminator>)
        ensures
            match lane {
                Some(lane) => lane.tag() == tag,
                None => tag == 0 || tag > 6,
            },
    {
        match tag {
            1 => Some(LaneDiscriminator::ReliableInput),
            2 => Some(LaneDiscriminator::Emergency),
            3 => Some(LaneDiscriminator::Control),
            4 => Some(LaneDiscriminator::Bulk),
            5 => Some(LaneDiscriminator::Telemetry),
            6 => Some(LaneDiscriminator::ReliableCompat),
            _ => None,
        }
    }

    /// The priority of the lane's stream.
    pub open spec fn priority_of(self) -> int {
        match self {
            LaneDiscriminator::ReliableInput => 100,
            LaneDiscriminator::Emergency => 255,
            LaneDiscriminator::Control => 80,
            LaneDiscriminator::Bulk => -10,
            LaneDiscriminator::Telemetry => 0,
            LaneDiscriminator::ReliableCompat => 0,
        }
    }

    /// The priority of the lane's stream.
    pub fn priority(self) -> (priority: i32)
        ensures
            priority == self.priority_of(),
    {
        match self {
            LaneDiscriminator::ReliableInput => 100,
            LaneDiscriminator::Emergency => 255,
            LaneDiscriminator::Control => 80,
            LaneDiscriminator::Bulk => -10,
            LaneDiscriminator::Telemetry => 0,
            LaneDiscriminator::ReliableCompat => 0,
        }
    }

    /// What a stream of this lane starts with.
    pub open spec fn preface_bytes(self) -> Seq<u8> {
        QOS_LANE_MAGIC@ + seq![self.tag()]
    }

    /// What a stream of this lane starts with.
    pub fn preface(self) -> (preface: Vec<u8>)
        ensures
            preface@ == self.preface_bytes(),
    {
        let mut preface: Vec<u8> = Vec::new();
        preface.push(QOS_LANE_MAGIC[0]);
        preface.push(QOS_LANE_MAGIC[1]);
        preface.push(QOS_LANE_MAGIC[2]);
        preface.push(QOS_LANE_MAGIC[3]);
        preface.push(self.as_u8());
        assert(preface@ =~= self.preface_bytes());
        preface
    }
}

/// Small messages that keep a connection going.
#[derive(Debug, Clone, PartialEq, Eq)]
#[allow(inconsistent_fields)]
pub enum ControlFrame {
    Goodbye { device_id: DeviceId, reason: String },
    ClipboardRequest,
    Heartbeat { sequence: u64, timestamp: u64 },
    Ack { sequence: u64 },
    Error { code: u32, message: String },
}

/// Measurements that may get lost.
#[derive(Debug, Clone, Copy, PartialEq, Eq)]
pub enum TelemetryFrame {
    LatencyProbe {
        sequence: u64,
        timestamp_ms: u64,
        endpoint_switch: bool,
        origin_sequence: Option<u64>,
    },
}

/// Messages that may take long to send.
#[derive(Debug, Clone, PartialEq, Eq)]
pub enum BulkFrame {
    AudioStreamStop { stream_id: u128, reason: String },
    ClipboardData { mime_type: String, data: Vec<u8> },
    UsbDeviceDetached { bus_id: String, reason: String },
}

/// Input without an epoch, from peers that know no better.
#[derive(Debug, Clone, PartialEq, Eq)]
pub enum ReliableCompatFrame {
    Key { keycode: u32, state: KeyState },
}

/// A message and the lane it takes.
#[derive(Debug, Clone, PartialEq, Eq)]
pub enum ClassifiedMessage {
    Control(ControlFrame),
    Bulk(BulkFrame),
    Telemetry(TelemetryFrame),
    ReliableCompat(ReliableCompatFrame),
    Unsupported,
}

/// Why something is not sent.
#[derive(Debug, Clone, Copy, PartialEq, Eq, Structural)]
pub enum TransportSendError {
    ReliableLaneFull,
    LaneClosed,
    EmergencySlotFull,
    UnsupportedMessage,
}

impl TransportSendError {
    /// The error in words.
    pub open spec fn words(self) -> Seq<char> {
        match self {
            TransportSendError::ReliableLaneFull => "reliable input lane is full"@,
            TransportSendError::LaneClosed => "transport lane is closed"@,
            TransportSendError::EmergencySlotFull => "emergency slot is occupied"@,
            TransportSendError::UnsupportedMessage => "message is not supported by a QoS lane"@,
        }
    }

    /// The error in words.
    pub fn text(self) -> (text: &'static str)
        ensures
            text@ == self.words(),
    {
        match self {
            TransportSendError::ReliableLaneFull => "reliable input lane is full",
            TransportSendError::LaneClosed => "transport lane is closed",
            TransportSendError::EmergencySlotFull => "emergency slot is occupied",
            TransportSendError::UnsupportedMessage => "message is not supported by a QoS lane",
        }
    }
}

/// What became of a realtime frame.
#[derive(Debug, Clone, Copy, PartialEq, Eq, Structural)]
pub enum RealtimeSendOutcome {
    Sent,
    DroppedLatest,
}

impl ControlFrame {
    pub fn heartbeat(sequence: u64, timestamp: u64) -> (frame: Self)
        ensures
            frame == (ControlFrame::Heartbeat { sequence, timestamp }),
    {
        ControlFrame::Heartbeat { sequence, timestamp }
    }

    /// The message that this frame stands for.
    pub open spec fn message(self) -> Message {
        match self {
            ControlFrame::Goodbye { device_id, reason } => Message::Goodbye { device_id, reason },
            ControlFrame::ClipboardRequest => Message::ClipboardRequest,
            ControlFrame::Heartbeat { sequence, timestamp } => Message::Heartbeat {
                sequence,
                timestamp,
            },
            ControlFrame::Ack { sequence } => Message::Ack { sequence },
            ControlFrame::Error { code, message } => Message::Error { code, message },
        }
    }

    /// The message that this frame stands for.
    pub fn into_message(self) -> (message: Message)
        ensures
            message == self.message(),
    {
        match self {
            ControlFrame::Goodbye { device_id, reason } => Message::Goodbye { device_id, reason },
            ControlFrame::ClipboardRequest => Message::ClipboardRequest,
            ControlFrame::Heartbeat { sequence, timestamp } => Message::Heartbeat {
                sequence,
                timestamp,
            },
            ControlFrame::Ack { sequence } => Message::Ack { sequence },
            ControlFrame::Error { code, message } => Message::Error { code, message },
        }
    }
}

impl BulkFrame {
    pub fn audio_stream_stop(stream_id: u128, reason: String) -> (frame: Self)
        ensures
            frame == (BulkFrame::AudioStreamStop { stream_id, reason }),
    {
        BulkFrame::AudioStreamStop { stream_id, reason }
    }

    /// The message that this frame stands for.
    pub open spec fn message(self) -> Message {
        match self {
            BulkFrame::AudioStreamStop { stream_id, reason } => Message::AudioStreamStop {
                stream_id,
                reason,
            },
            BulkFrame::ClipboardData { mime_type, data } => Message::ClipboardData {
                mime_type,
                data,
            },
            BulkFrame::UsbDeviceDetached { bus_id, reason } => Message::UsbDeviceDetached {
                bus_id,
                reason,
            },
        }
    }

    /// The message that this frame stands for.
    pub fn into_message(self) -> (message: Message)
        ensures
            message == self.message(),
    {
        match self {
            BulkFrame::AudioStreamStop { stream_id, reason } => Message::AudioStreamStop {
                stream_id,
                reason,
            },
            BulkFrame::ClipboardData { mime_type, data } => Message::ClipboardData {
                mime_type,
                data,
            },
            BulkFrame::UsbDeviceDetached { bus_id, reason } => Message::UsbDeviceDetached {
                bus_id,
                reason,
            },
        }
    }
}

impl TelemetryFrame {
    pub fn latency_probe(
        sequence: u64,
        timestamp_ms: u64,
        endpoint_switch: bool,
        origin_sequence: Option<u64>,
    ) -> (frame: Self)
        ensures
            frame == (TelemetryFrame::LatencyProbe {
                sequence,
                timestamp_ms,
                endpoint_switch,
                origin_sequence,
            }),
    {
        TelemetryFrame::LatencyProbe { sequence, timestamp_ms, endpoint_switch, origin_sequence }
    }

    /// The message that this frame stands for.
    pub open spec fn message(self) -> Message {
        match self {
            TelemetryFrame::LatencyProbe {
                sequence,
                timestamp_ms,
                endpoint_switch,
                origin_sequence,
            } => Message::LatencyProbe {
                sequence,
                timestamp_ms,
                endpoint_switch,
                origin_sequence,
            },
        }
    }

    /// The message that this frame stands for.
    pub fn into_message(self) -> (message: Message)
        ensures
            message == self.message(),
    {
        match self {
            TelemetryFrame::LatencyProbe {
                sequence,
                timestamp_ms,
                endpoint_switch,
                origin_sequence,
            } => Message::LatencyProbe {
                sequence,
                timestamp_ms,
                endpoint_switch,
                origin_sequence,
            },
        }
    }
}

impl ReliableCompatFrame {
    /// The message that this frame stands for.
    pub open spec fn message(self) -> Message {
        match self {
            ReliableCompatFrame::Key { keycode, state } => Message::Key { keycode, state },
        }
    }

    /// The message that this frame stands for.
    pub fn into_message(self) -> (message: Message)
        ensures
            message == self.message(),
    {
        match self {
            ReliableCompatFrame::Key { keycode, state } => Message::Key { keycode, state },
        }
    }
}

impl ClassifiedMessage {
    /// The lane that a message takes.
    pub open spec fn of(message: Message) -> ClassifiedMessage {
        match message {
            Message::Goodbye { device_id, reason } => ClassifiedMessage::Control(
                ControlFrame::Goodbye { device_id, reason },
            ),
            Message::ClipboardRequest => ClassifiedMessage::Control(ControlFrame::ClipboardRequest),
            Message::Heartbeat { sequence, timestamp } => ClassifiedMessage::Control(
                ControlFrame::Heartbeat { sequence, timestamp },
            ),
            Message::Ack { sequence } => ClassifiedMessage::Control(ControlFrame::Ack { sequence }),
            Message::Error { code, message } => ClassifiedMessage::Control(
                ControlFrame::Error { code, message },
            ),
            Message::AudioStreamStop { stream_id, reason } => ClassifiedMessage::Bulk(
                BulkFrame::AudioStreamStop { stream_id, reason },
            ),
            Message::ClipboardData { mime_type, data } => ClassifiedMessage::Bulk(
                BulkFrame::ClipboardData { mime_type, data },
            ),
            Message::UsbDeviceDetached { bus_id, reason } => ClassifiedMessage::Bulk(
                BulkFrame::UsbDeviceDetached { bus_id, reason },
            ),
            Message::LatencyProbe { sequence, timestamp_ms, endpoint_switch, origin_sequence } =>
                ClassifiedMessage::Telemetry(
                TelemetryFrame::LatencyProbe {
                    sequence,
                    timestamp_ms,
                    endpoint_switch,
                    origin_sequence,
                },
            ),
            Message::Key { keycode, state } => ClassifiedMessage::ReliableCompat(
                ReliableCompatFrame::Key { keycode, state },
            ),
            _ => ClassifiedMessage::Unsupported,
        }
    }

    /// The lane that a message takes. Every message is classified.
    pub fn try_from(message: Message) -> (classified: Result<Self, TransportSendError>)
        ensures
            classified == Ok::<ClassifiedMessage, TransportSendError>(
                ClassifiedMessage::of(message),
            ),
    {
        Ok(
            match message {
                Message::Goodbye { device_id, reason } => ClassifiedMessage::Control(
                    ControlFrame::Goodbye { device_id, reason },
                ),
                Message::ClipboardRequest => ClassifiedMessage::Control(
                    ControlFrame::ClipboardRequest,
                ),
                Message::Heartbeat { sequence, timestamp } => ClassifiedMessage::Control(
                    ControlFrame::Heartbeat { sequence, timestamp },
                ),
                Message::Ack { sequence } => ClassifiedMessage::Control(
                    ControlFrame::Ack { sequence },
                ),
                Message::Error { code, message } => ClassifiedMessage::Control(
                    ControlFrame::Error { code, message },
                ),
                Message::AudioStreamStop { stream_id, reason } => ClassifiedMessage::Bulk(
                    BulkFrame::AudioStreamStop { stream_id, reason },
                ),
                Message::ClipboardData { mime_type, data } => ClassifiedMessage::Bulk(
                    BulkFrame::ClipboardData { mime_type, data },
                ),
                Message::UsbDeviceDetached { bus_id, reason } => ClassifiedMessage::Bulk(
                    BulkFrame::UsbDeviceDetached { bus_id, reason },
                ),
                Message::LatencyProbe {
                    sequence,
                    timestamp_ms,
                    endpoint_switch,
                    origin_sequence,
                } => ClassifiedMessage::Telemetry(
                    TelemetryFrame::LatencyProbe {
                        sequence,
                        timestamp_ms,
                        endpoint_switch,
                        origin_sequence,
                    },
                ),
                Message::Key { keycode, state } => ClassifiedMessage::ReliableCompat(
                    ReliableCompatFrame::Key { keycode, state },
                ),
                _ => ClassifiedMessage::Unsupported,
            },
        )
    }

    /// Whether the lane that `tag` names is the one that this message takes.
    pub open spec fn belongs_on(self, tag: u8) -> bool {
        match self {
            ClassifiedMessage::Control(_) => tag == LaneDiscriminator::Control.tag(),
            ClassifiedMessage::Bulk(_) => tag == LaneDiscriminator::Bulk.tag(),
            ClassifiedMessage::Telemetry(_) => tag == LaneDiscriminator::Telemetry.tag(),
            ClassifiedMessage::ReliableCompat(_) => tag == LaneDiscriminator::ReliableCompat.tag(),
            ClassifiedMessage::Unsupported => false,
        }
    }

    /// Whether the lane that `tag` names is the one that this message takes.
    pub fn lane_matches(&self, tag: u8) -> (matches: bool)
        ensures
            matches == self.belongs_on(tag),
    {
        match self {
            ClassifiedMessage::Control(_) => tag == LaneDiscriminator::Control.as_u8(),
            ClassifiedMessage::Bulk(_) => tag == LaneDiscriminator::Bulk.as_u8(),
            ClassifiedMessage::Telemetry(_) => tag == LaneDiscriminator::Telemetry.as_u8(),
            ClassifiedMessage::ReliableCompat(_) => tag
                == LaneDiscriminator::ReliableCompat.as_u8(),
            ClassifiedMessage::Unsupported => false,
        }
    }
}

/// Classifying loses nothing: the frame of a lane stands for the message it came from.
pub proof fn classification_keeps_the_message(message: Message)
    ensures
        match ClassifiedMessage::of(message) {
            ClassifiedMessage::Control(frame) => frame.message() == message,
            ClassifiedMessage::Bulk(frame) => frame.message() == message,
            ClassifiedMessage::Telemetry(frame) => frame.message() == message,
            ClassifiedMessage::ReliableCompat(frame) => frame.message() == message,
            ClassifiedMessage::Unsupported => true,
        },
{
}

/// What was sent on a lane is classified to the same frame at the other end.
pub proof fn frames_keep_their_lane(
    control: ControlFrame,
    bulk: BulkFrame,
    telemetry: TelemetryFrame,
    compat: ReliableCompatFrame,
)
    ensures
        ClassifiedMessage::of(control.message()) == ClassifiedMessage::Control(control),
        ClassifiedMessage::of(bulk.message()) == ClassifiedMessage::Bulk(bulk),
        ClassifiedMessage::of(telemetry.message()) == ClassifiedMessage::Telemetry(telemetry),
        ClassifiedMessage::of(compat.message()) == ClassifiedMessage::ReliableCompat(compat),
{
}

/// A message belongs on the lane of the frame that stands for it and on no other, and on none
/// where no frame does.
pub proof fn messages_belong_on_the_lanes_of_their_frames(
    lane: LaneDiscriminator,
    message: Message,
    control: ControlFrame,
    bulk: BulkFrame,
    telemetry: TelemetryFrame,
    compat: ReliableCompatFrame,
)
    ensures
        ClassifiedMessage::of(control.message()).belongs_on(lane.tag()) <==> lane
            == LaneDiscriminator::Control,
        ClassifiedMessage::of(bulk.message()).belongs_on(lane.tag()) <==> lane
            == LaneDiscriminator::Bulk,
        ClassifiedMessage::of(telemetry.message()).belongs_on(lane.tag()) <==> lane
            == LaneDiscriminator::Telemetry,
        ClassifiedMessage::of(compat.message()).belongs_on(lane.tag()) <==> lane
            == LaneDiscriminator::ReliableCompat,
        ClassifiedMessage::of(message).belongs_on(lane.tag()) ==> match lane {
            LaneDiscriminator::Control => exists|frame: ControlFrame|
                #[trigger] frame.message() == message,
            LaneDiscriminator::Bulk => exists|frame: BulkFrame| #[trigger] frame.message()
                == message,
            LaneDiscriminator::Telemetry => exists|frame: TelemetryFrame|
                #[trigger] frame.message() == message,
            LaneDiscriminator::ReliableCompat => exists|frame: ReliableCompatFrame|
                #[trigger] frame.message() == message,
            _ => false,
        },
{
    match ClassifiedMessage::of(message) {
        ClassifiedMessage::Control(frame) => {
            assert(frame.message() == message);
        },
        ClassifiedMessage::Bulk(frame) => {
            assert(frame.message() == message);
        },
        ClassifiedMessage::Telemetry(frame) => {
            assert(frame.message() == message);
        },
        ClassifiedMessage::ReliableCompat(frame) => {
            assert(frame.message() == message);
        },
        ClassifiedMessage::Unsupported => {},
    }
}

/// Every field of a message is found again in the field of the same name of its frame.
pub proof fn frames_have_the_fields_of_their_messages(message: Message)
    ensures
        match ClassifiedMessage::of(message) {
            ClassifiedMessage::Control(ControlFrame::Goodbye { device_id: d, reason: r }) =>
                message matches Message::Goodbye { device_id, reason } && d == device_id && r
                == reason,
            ClassifiedMessage::Control(ControlFrame::ClipboardRequest) => message
                is ClipboardRequest,
            ClassifiedMessage::Control(ControlFrame::Heartbeat { sequence: s, timestamp: t }) =>
                message matches Message::Heartbeat { sequence, timestamp } && s == sequence && t
                == timestamp,
            ClassifiedMessage::Control(ControlFrame::Ack { sequence: s }) => message
                matches Message::Ack { sequence } && s == sequence,
            ClassifiedMessage::Control(ControlFrame::Error { code: c, message: m }) => message
                matches Message::Error { code, message: words } && c == code && m == words,
            ClassifiedMessage::Bulk(BulkFrame::AudioStreamStop { stream_id: s, reason: r }) =>
                message matches Message::AudioStreamStop { stream_id, reason } && s == stream_id
                && r == reason,
            ClassifiedMessage::Bulk(BulkFrame::ClipboardData { mime_type: m, data: d }) => message
                matches Message::ClipboardData { mime_type, data } && m == mime_type && d == data,
            ClassifiedMessage::Bulk(BulkFrame::UsbDeviceDetached { bus_id: b, reason: r }) =>
                message matches Message::UsbDeviceDetached { bus_id, reason } && b == bus_id && r
                == reason,
            ClassifiedMessage::Telemetry(
                TelemetryFrame::LatencyProbe {
                    sequence: s,
                    timestamp_ms: t,
                    endpoint_switch: e,
                    origin_sequence: o,
                },
            ) => message matches Message::LatencyProbe {
                sequence,
                timestamp_ms,
                endpoint_switch,
                origin_sequence,
            } && s == sequence && t == timestamp_ms && e == endpoint_switch && o
                == origin_sequence,
            ClassifiedMessage::ReliableCompat(ReliableCompatFrame::Key { keycode: k, state: s }) =>
                message matches Message::Key { keycode, state } && k == keycode && s == state,
            ClassifiedMessage::Unsupported => !(message is Goodbye || message is ClipboardRequest
                || message is Heartbeat || message is Ack || message is Error || message
                is AudioStreamStop || message is ClipboardData || message is UsbDeviceDetached
                || message is LatencyProbe || message is Key),
        },
{
}

/// A message belongs on one lane at most.
pub proof fn a_message_has_one_lane(message: Message, a: u8, b: u8)
    requires
        ClassifiedMessage::of(message).belongs_on(a),
        ClassifiedMessage::of(message).belongs_on(b),
    ensures
        a == b,
{
}

/// What a reliable writer puts on its stream.
pub struct ReliableWrite {
    /// What a stream has to start with, where none is open yet.
    pub preface: Option<Vec<u8>>,
    /// The frame behind its length, or why it has no form.
    pub wire: Result<Vec<u8>, ReliableCodecError>,
}

pub(crate) fn with_length(payload: &[u8]) -> (wire: Vec<u8>)
    requires
        payload@.len() + 4 <= isize::MAX,
    ensures
        wire@ == length_prefixed(payload@),
{
    let framed = crate::codec::MessageCodec::frame_message(payload);
    vstd::slice::slice_to_vec(buffer::contents(&framed))
}

/// What has to be written for a frame of `lane`, the reliable or the emergency lane.
pub fn plan_reliable_write(
    lane: LaneDiscriminator,
    frame: &ReliableInputFrame,
    stream_open: bool,
) -> (write: ReliableWrite)
    ensures
        match write.preface {
            Some(preface) => !stream_open && preface@ == lane.preface_bytes(),
            None => stream_open,
        },
        match write.wire {
            Ok(wire) => reliable_encode_fault(frame@) is None && wire@ == length_prefixed(
                reliable_bytes(frame@),
            ),
            Err(error) => reliable_encode_fault(frame@) == Some(error),
        },
{
    let preface = if stream_open {
        None
    } else {
        Some(lane.preface())
    };
    let wire = match ReliableInputCodec::encode(frame) {
        Ok(encoded) => Ok(with_length(buffer::frozen_contents(&encoded))),
        Err(error) => Err(error),
    };
    ReliableWrite { preface, wire }
}

/// What a message writer puts on its stream.
pub struct MessageWrite {
    /// What a stream has to start with, where none is open yet.
    pub preface: Option<Vec<u8>>,
    /// The framed message behind its length, or why it is not sent.
    pub wire: Result<Vec<u8>, TransportSendError>,
}

/// What has to be written for a message on `lane`, encoded to `payload`.
pub fn plan_message_write(
    lane: LaneDiscriminator,
    message: &Message,
    payload: &[u8],
    stream_open: bool,
) -> (write: MessageWrite)
    ensures
        match write.preface {
            Some(preface) => !stream_open && preface@ == lane.preface_bytes(),
            None => stream_open,
        },
        match write.wire {
            Ok(wire) => payload@.len() <= MAX_MESSAGE_SIZE && wire@ == length_prefixed(
                message_frame(message_tag(*message), payload@),
            ),
            Err(error) => payload@.len() > MAX_MESSAGE_SIZE && error
                == TransportSendError::UnsupportedMessage,
        },
{
    let preface = if stream_open {
        None
    } else {
        Some(lane.preface())
    };
    let wire = match ControlMessageCodec::encode(message, payload) {
        Ok(framed) => Ok(with_length(framed.as_slice())),
        Err(_) => Err(TransportSendError::UnsupportedMessage),
    };
    MessageWrite { preface, wire }
}

/// Releases go before everything else, input before all but them, and the control of the
/// connection before what can wait; files and clipboards come last.
pub proof fn lanes_have_their_rank(lane: LaneDiscriminator)
    ensures
        lane == LaneDiscriminator::Emergency <==> lane.priority_of() == 255,
        lane == LaneDiscriminator::ReliableInput <==> lane.priority_of() == 100,
        lane == LaneDiscriminator::Control <==> lane.priority_of() == 80,
        lane == LaneDiscriminator::Telemetry || lane == LaneDiscriminator::ReliableCompat
            <==> lane.priority_of() == 0,
        lane == LaneDiscriminator::Bulk <==> lane.priority_of() < 0,
        lane == LaneDiscriminator::Bulk ==> lane.priority_of() == -10,
{
}

} // verus!
