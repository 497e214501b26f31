//! The receiving side of a connection's streams.
//!
//! Whoever drives a stream reads the bytes that are asked for, hands them in and does
//! what comes back: read on, deliver a frame, stop the stream, close the connection,
//! release an epoch. A close comes before the release that goes with it.

use vstd::prelude::*;

use crate::codec::{
    realtime_bytes, realtime_fault, reliable_reading, RealtimeInputCodec, ReliableCodecError,
    ReliableInputCodec, MAX_RELIABLE_INPUT_FRAME,
};
use crate::inbound::{
    accept_qos_realtime, accept_reliable_state, dispose_emergency, fail_close_active_qos,
    fail_close_current_qos_generation, fail_close_reliable_delivery, handle_terminal_cancel_reset,
    CancelOutcome, EmergencyDisposition, QosInboundState, ReliableAccept, StreamFailure,
};
use crate::message::Message;
use crate::qos::{
    BulkFrame, ClassifiedMessage, ControlFrame, LaneDiscriminator, ReliableCompatFrame,
    TelemetryFrame, AWAITED_CANCEL_RESET_CODE, QOS_LANE_MAGIC, TERMINAL_CANCEL_RESET_CODE,
};
use crate::sender::TerminalRelease;
use crate::text::{decimal, write_decimal};
use crate::types::{
    ControlConnectionId, RealtimeInputFrame, ReleaseAllReason, ReliableEventView,
    ReliableFrameView, ReliableInputEvent, ReliableInputFrame, SessionEpoch,
    INPUT_PROTOCOL_VERSION,
};
use crate::wire;
use crate::wire::from_be32;

verus! {

/// Why a connection is closed.
#[derive(Debug, Clone, Copy, PartialEq, Eq, Structural)]
pub enum CloseReason {
    PrefaceReadFailure,
    DiscriminatorReadFailure,
    TruncatedReliableLength,
    OversizedInputFrame,
    TruncatedReliablePayload,
    InvalidInputFrame,
    NonTerminalEmergency,
    FutureEmergency,
    EpochMismatch,
    SequenceViolation,
    ReceiverUnavailable,
    TruncatedMessageLength,
    OversizedMessageFrame,
    TruncatedMessagePayload,
    InvalidMessageFrame,
    RejectedCompatInput,
    FrameLimitExceeded,
    IllegalBootstrapMessage,
    BootstrapTrailingData,
    BootstrapCloseCheckFailed,
    BootstrapNotFinished,
    PreAuthenticationStream,
    StreamDuringCommit,
    DatagramBeforeAuthentication,
    DatagramDuringCommit,
    TaskBudgetExhausted,
}

/// The code of a connection that is closed for want of stream tasks.
pub const TASK_BUDGET_EXHAUSTED_CODE: u32 = 0x525342;

impl CloseReason {
    /// The words that the peer is told.
    pub open spec fn words(self) -> Seq<char> {
        match self {
            CloseReason::PrefaceReadFailure => "authenticated qos preface read failure"@,
            CloseReason::DiscriminatorReadFailure => "authenticated qos discriminator read failure"@,
            CloseReason::TruncatedReliableLength => "truncated qos reliable length"@,
            CloseReason::OversizedInputFrame => "oversized qos input frame"@,
            CloseReason::TruncatedReliablePayload => "truncated qos reliable payload"@,
            CloseReason::InvalidInputFrame => "invalid qos input frame"@,
            CloseReason::NonTerminalEmergency => "non-terminal emergency input frame"@,
            CloseReason::FutureEmergency => "future emergency epoch mismatch"@,
            CloseReason::EpochMismatch => "qos reliable stream epoch mismatch"@,
            CloseReason::SequenceViolation => "qos reliable sequence violation"@,
            CloseReason::ReceiverUnavailable => "qos reliable inbound receiver unavailable"@,
            CloseReason::TruncatedMessageLength => "truncated qos message length"@,
            CloseReason::OversizedMessageFrame => "oversized qos message frame"@,
            CloseReason::TruncatedMessagePayload => "truncated qos message payload"@,
            CloseReason::InvalidMessageFrame => "invalid qos message frame"@,
            CloseReason::RejectedCompatInput => "rejected reliable compatibility input"@,
            CloseReason::FrameLimitExceeded => "reliable frame exceeds active protocol limit"@,
            CloseReason::IllegalBootstrapMessage => "illegal compatibility bootstrap message"@,
            CloseReason::BootstrapTrailingData => "bootstrap stream carried trailing data"@,
            CloseReason::BootstrapCloseCheckFailed => "bootstrap stream close check failed"@,
            CloseReason::BootstrapNotFinished => "bootstrap stream did not finish"@,
            CloseReason::PreAuthenticationStream => "pre-authentication stream"@,
            CloseReason::StreamDuringCommit => "stream during bootstrap commit"@,
            CloseReason::DatagramBeforeAuthentication => "datagram before peer authentication"@,
            CloseReason::DatagramDuringCommit => "datagram during bootstrap commit"@,
            CloseReason::TaskBudgetExhausted => "authenticated uni stream task budget exhausted"@,
        }
    }

    /// The words that the peer is told.
    pub fn text(self) -> (text: &'static str)
        ensures
            text@ == self.words(),
    {
        match self {
            CloseReason::PrefaceReadFailure => "authenticated qos preface read failure",
            CloseReason::DiscriminatorReadFailure => "authenticated qos discriminator read failure",
            CloseReason::TruncatedReliableLength => "truncated qos reliable length",
            CloseReason::OversizedInputFrame => "oversized qos input frame",
            CloseReason::TruncatedReliablePayload => "truncated qos reliable payload",
            CloseReason::InvalidInputFrame => "invalid qos input frame",
            CloseReason::NonTerminalEmergency => "non-terminal emergency input frame",
            CloseReason::FutureEmergency => "future emergency epoch mismatch",
            CloseReason::EpochMismatch => "qos reliable stream epoch mismatch",
            CloseReason::SequenceViolation => "qos reliable sequence violation",
            CloseReason::ReceiverUnavailable => "qos reliable inbound receiver unavailable",
            CloseReason::TruncatedMessageLength => "truncated qos message length",
            CloseReason::OversizedMessageFrame => "oversized qos message frame",
            CloseReason::TruncatedMessagePayload => "truncated qos message payload",
            CloseReason::InvalidMessageFrame => "invalid qos message frame",
            CloseReason::RejectedCompatInput => "rejected reliable compatibility input",
            CloseReason::FrameLimitExceeded => "reliable frame exceeds active protocol limit",
            CloseReason::IllegalBootstrapMessage => "illegal compatibility bootstrap message",
            CloseReason::BootstrapTrailingData => "bootstrap stream carried trailing data",
            CloseReason::BootstrapCloseCheckFailed => "bootstrap stream close check failed",
            CloseReason::BootstrapNotFinished => "bootstrap stream did not finish",
            CloseReason::PreAuthenticationStream => "pre-authentication stream",
            CloseReason::StreamDuringCommit => "stream during bootstrap commit",
            CloseReason::DatagramBeforeAuthentication => "datagram before peer authentication",
            CloseReason::DatagramDuringCommit => "datagram during bootstrap commit",
            CloseReason::TaskBudgetExhausted => "authenticated uni stream task budget exhausted",
        }
    }

    /// The code that goes with the words.
    pub fn code(self) -> (code: u32)
        ensures
            code == (if self == CloseReason::TaskBudgetExhausted {
                TASK_BUDGET_EXHAUSTED_CODE
            } else {
                0
            }),
    {
        match self {
            CloseReason::TaskBudgetExhausted => TASK_BUDGET_EXHAUSTED_CODE,
            _ => 0,
        }
    }
}

/// A breach of the protocol that is reported and costs no more than its stream.
#[derive(Debug, Clone, Copy, PartialEq, Eq, Structural)]
pub enum ProtocolReport {
    TruncatedPreface,
    TruncatedDiscriminator,
    UnknownLane(u8),
    MissingPreface,
    WrongLane,
    CompatInput,
    TaskBudgetExhausted,
}

impl ProtocolReport {
    /// The report in words.
    pub open spec fn words(self) -> Seq<char> {
        match self {
            ProtocolReport::TruncatedPreface => "truncated qos lane preface"@,
            ProtocolReport::TruncatedDiscriminator => "truncated qos lane discriminator"@,
            ProtocolReport::UnknownLane(lane) => "unknown qos lane discriminator "@ + decimal(
                lane as nat,
            ),
            ProtocolReport::MissingPreface => "missing qos lane preface on authenticated stream"@,
            ProtocolReport::WrongLane => "message entered wrong qos lane"@,
            ProtocolReport::CompatInput =>
                "reliable compatibility input lacks authenticated epoch metadata"@,
            ProtocolReport::TaskBudgetExhausted => "authenticated uni stream task budget exhausted"@,
        }
    }

    /// The report in words.
    pub fn text(self) -> (text: String)
        ensures
            text@ == self.words(),
    {
        match self {
            ProtocolReport::TruncatedPreface => "truncated qos lane preface".to_owned(),
            ProtocolReport::TruncatedDiscriminator => "truncated qos lane discriminator".to_owned(),
            ProtocolReport::UnknownLane(lane) => {
                let mut text = "unknown qos lane discriminator ".to_owned();
                let number = write_decimal(lane as u64);
                text.append(number.as_str());
                text
            },
            ProtocolReport::MissingPreface =>
                "missing qos lane preface on authenticated stream".to_owned(),
            ProtocolReport::WrongLane => "message entered wrong qos lane".to_owned(),
            ProtocolReport::CompatInput =>
                "reliable compatibility input lacks authenticated epoch metadata".to_owned(),
            ProtocolReport::TaskBudgetExhausted =>
                "authenticated uni stream task budget exhausted".to_owned(),
        }
    }
}

/// How reading from a stream fails.
#[derive(Debug, Clone, Copy, PartialEq, Eq, Structural)]
pub enum ReadFault {
    /// The sender has reset the stream with this code.
    Reset(u64),
    /// The stream ended inside what was to be read.
    FinishedEarly,
    /// Anything else.
    Other,
}

impl ReadFault {
    /// Whether the sender has reset the stream with this code.
    pub fn is_stream_reset(self, code: u32) -> (reset: bool)
        ensures
            reset == (self == ReadFault::Reset(code as u64)),
    {
        match self {
            ReadFault::Reset(actual) => actual == code as u64,
            _ => false,
        }
    }

    /// Whether the sender has cancelled a stream whose epoch ended.
    pub fn is_terminal_cancel_reset(self) -> (cancel: bool)
        ensures
            cancel == (self == ReadFault::Reset(TERMINAL_CANCEL_RESET_CODE as u64)),
    {
        self.is_stream_reset(TERMINAL_CANCEL_RESET_CODE)
    }
}

/// What the first bytes of an authenticated stream come to.
#[derive(Debug, Clone, Copy, PartialEq, Eq, Structural)]
pub enum PrefaceStep {
    /// The magic: one byte follows that names the lane.
    ReadLane,
    /// The stream carries framed messages, and these bytes are the first length.
    Legacy,
    /// The stream is stopped.
    Reject(ProtocolReport),
}

/// Looks at the first four bytes of an authenticated stream. Where lanes are in use a
/// stream has to name its lane.
pub fn read_preface(prefix: &[u8], qos_required: bool, qos_installed: bool) -> (step: PrefaceStep)
    requires
        prefix@.len() == 4,
    ensures
        step == (if prefix@ == QOS_LANE_MAGIC@ {
            PrefaceStep::ReadLane
        } else if qos_required || qos_installed {
            PrefaceStep::Reject(ProtocolReport::MissingPreface)
        } else {
            PrefaceStep::Legacy
        }),
{
    let magic = prefix[0] == QOS_LANE_MAGIC[0] && prefix[1] == QOS_LANE_MAGIC[1] && prefix[2]
        == QOS_LANE_MAGIC[2] && prefix[3] == QOS_LANE_MAGIC[3];
    assert(magic ==> prefix@ =~= QOS_LANE_MAGIC@);
    if magic {
        PrefaceStep::ReadLane
    } else if qos_required || qos_installed {
        PrefaceStep::Reject(ProtocolReport::MissingPreface)
    } else {
        PrefaceStep::Legacy
    }
}

/// Who reads a stream of a lane.
#[derive(Debug, Clone, Copy, PartialEq, Eq, Structural)]
pub enum LaneReader {
    Reliable { emergency: bool },
    Messages(LaneDiscriminator),
    Reject(ProtocolReport),
}

/// The reader for the lane that a byte names.
pub open spec fn lane_reader(tag: u8) -> LaneReader {
    if tag == LaneDiscriminator::ReliableInput.tag() {
        LaneReader::Reliable { emergency: false }
    } else if tag == LaneDiscriminator::Emergency.tag() {
        LaneReader::Reliable { emergency: true }
    } else if tag == LaneDiscriminator::Control.tag() {
        LaneReader::Messages(LaneDiscriminator::Control)
    } else if tag == LaneDiscriminator::Bulk.tag() {
        LaneReader::Messages(LaneDiscriminator::Bulk)
    } else if tag == LaneDiscriminator::Telemetry.tag() {
        LaneReader::Messages(LaneDiscriminator::Telemetry)
    } else if tag == LaneDiscriminator::ReliableCompat.tag() {
        LaneReader::Messages(LaneDiscriminator::ReliableCompat)
    } else {
        LaneReader::Reject(ProtocolReport::UnknownLane(tag))
    }
}

/// Looks at the byte that names the lane.
pub fn read_lane(tag: u8) -> (reader: LaneReader)
    ensures
        reader == lane_reader(tag),
{
    match LaneDiscriminator::from_u8(tag) {
        Some(LaneDiscriminator::ReliableInput) => LaneReader::Reliable { emergency: false },
        Some(LaneDiscriminator::Emergency) => LaneReader::Reliable { emergency: true },
        Some(lane) => LaneReader::Messages(lane),
        None => LaneReader::Reject(ProtocolReport::UnknownLane(tag)),
    }
}

/// What the end of a stream inside its preface comes to.
#[derive(Debug, Clone, Copy, PartialEq, Eq, Structural)]
pub enum PrefaceFault {
    /// The sender gave up on the stream before it said anything.
    Harmless,
    /// The stream is stopped.
    Reject(ProtocolReport),
    /// The connection fails.
    Fail(CloseReason),
}

/// Looks at a fault inside the preface, before or behind the magic.
pub fn preface_fault(fault: ReadFault, behind_magic: bool) -> (outcome: PrefaceFault)
    ensures
        outcome == (if fault == ReadFault::Reset(TERMINAL_CANCEL_RESET_CODE as u64) || fault
            == ReadFault::Reset(AWAITED_CANCEL_RESET_CODE as u64) {
            PrefaceFault::Harmless
        } else if fault == ReadFault::FinishedEarly {
            PrefaceFault::Reject(
                if behind_magic {
                    ProtocolReport::TruncatedDiscriminator
                } else {
                    ProtocolReport::TruncatedPreface
                },
            )
        } else {
            PrefaceFault::Fail(
                if behind_magic {
                    CloseReason::DiscriminatorReadFailure
                } else {
                    CloseReason::PrefaceReadFailure
                },
            )
        }),
{
    if fault.is_terminal_cancel_reset() || fault.is_stream_reset(AWAITED_CANCEL_RESET_CODE) {
        return PrefaceFault::Harmless;
    }
    match fault {
        ReadFault::FinishedEarly => PrefaceFault::Reject(
            if behind_magic {
                ProtocolReport::TruncatedDiscriminator
            } else {
                ProtocolReport::TruncatedPreface
            },
        ),
        _ => PrefaceFault::Fail(
            if behind_magic {
                CloseReason::DiscriminatorReadFailure
            } else {
                CloseReason::PrefaceReadFailure
            },
        ),
    }
}

/// What a connection comes to: whether it is closed, and what is released then.
#[derive(Debug, Clone, Copy, PartialEq, Eq)]
pub struct StreamEnd {
    pub close: Option<CloseReason>,
    pub release: Option<TerminalRelease>,
}

/// A release because something has failed.
pub open spec fn failed(epoch: SessionEpoch) -> Option<TerminalRelease> {
    Some(TerminalRelease { epoch, reason: ReleaseAllReason::BackendFailure })
}

/// A release of an epoch, if there is one, because something has failed.
pub open spec fn failed_if(epoch: Option<SessionEpoch>) -> Option<TerminalRelease> {
    match epoch {
        Some(e) => failed(e),
        None => None,
    }
}

fn release_failed(epoch: Option<SessionEpoch>) -> (release: Option<TerminalRelease>)
    ensures
        release == failed_if(epoch),
{
    match epoch {
        Some(epoch) => Some(TerminalRelease { epoch, reason: ReleaseAllReason::BackendFailure }),
        None => None,
    }
}

/// What giving up a whole connection does. `context` is the connection, where its peer
/// is known.
pub open spec fn after_generation_failure(
    state: QosInboundState,
    context: Option<ControlConnectionId>,
    close: CloseReason,
) -> (QosInboundState, StreamEnd) {
    match context {
        Some(generation) => {
            let (after, release) = state.after_close(generation);
            (after, StreamEnd { close: Some(close), release: failed_if(release) })
        },
        None => (state, StreamEnd { close: Some(close), release: None }),
    }
}

/// Gives up a whole connection.
pub fn fail_generation(
    state: &mut QosInboundState,
    context: Option<ControlConnectionId>,
    close: CloseReason,
) -> (end: StreamEnd)
    ensures
        (*final(state), end) == after_generation_failure(*old(state), context, close),
{
    match context {
        Some(generation) => {
            let release = fail_close_current_qos_generation(state, generation);
            StreamEnd { close: Some(close), release: release_failed(release) }
        },
        None => StreamEnd { close: Some(close), release: None },
    }
}

/// What the end of a connection, however it came, still has to release.
pub fn connection_closed(state: &mut QosInboundState, generation: ControlConnectionId) -> (release:
    Option<TerminalRelease>)
    ensures
        *final(state) == old(state).after_close(generation).0,
        release == (match old(state).after_close(generation).1 {
            Some(epoch) => Some(TerminalRelease { epoch, reason: ReleaseAllReason::Timeout }),
            None => None,
        }),
{
    match fail_close_current_qos_generation(state, generation) {
        Some(epoch) => Some(TerminalRelease { epoch, reason: ReleaseAllReason::Timeout }),
        None => None,
    }
}

/// Looks at a datagram: the frame that it carries, if that is delivered.
pub fn read_datagram(
    state: &mut QosInboundState,
    generation: ControlConnectionId,
    data: &[u8],
) -> (frame: Option<RealtimeInputFrame>)
    ensures
        match frame {
            Some(delivered) => {
                let key = (generation, delivered.session_epoch);
                &&& delivered.protocol_version == INPUT_PROTOCOL_VERSION
                &&& realtime_bytes(delivered) == data@
                &&& old(state).admits_realtime(key, delivered.sequence)
                &&& *final(state) == old(state).after_realtime(key, delivered.sequence)
            },
            None => *final(state) == *old(state) && (realtime_fault(data@) is Some || exists|
                f: RealtimeInputFrame,
            | #[trigger]
                realtime_bytes(f) == data@ && f.protocol_version == INPUT_PROTOCOL_VERSION && !old(state).admits_realtime((generation, f.session_epoch), f.sequence)),
        },
{
    match RealtimeInputCodec::decode(data) {
        Ok(frame) => {
            if accept_qos_realtime(state, generation, &frame) {
                Some(frame)
            } else {
                None
            }
        },
        Err(_) => None,
    }
}

/// The largest frame of the reliable and the emergency lane, with its version.
pub const MAX_RELIABLE_WIRE_FRAME: usize = 4098;

/// The length of the frame that follows on a reliable or an emergency stream.
pub fn reliable_frame_length(prefix: &[u8]) -> (length: Result<usize, CloseReason>)
    requires
        prefix@.len() == 4,
    ensures
        match length {
            Ok(len) => len == from_be32(prefix@) && len <= MAX_RELIABLE_INPUT_FRAME + 2,
            Err(reason) => from_be32(prefix@) > MAX_RELIABLE_INPUT_FRAME + 2 && reason
                == CloseReason::OversizedInputFrame,
        },
{
    assert(prefix@.skip(0) =~= prefix@);
    let length: usize = wire::read_u32(prefix, 0) as usize;
    if length > MAX_RELIABLE_WIRE_FRAME {
        Err(CloseReason::OversizedInputFrame)
    } else {
        Ok(length)
    }
}

/// What a frame of the reliable or the emergency lane comes to.
pub enum ReliableStep {
    /// The next frame is read.
    Continue,
    /// Nothing more is read from the stream.
    Stop(StreamEnd),
    /// The frame is delivered once `release` was handed out.
    Deliver { frame: ReliableInputFrame, release: Option<TerminalRelease> },
}

/// What a frame comes to, over the frame's contents.
pub enum ReliableStepView {
    Continue,
    Stop(StreamEnd),
    Deliver { frame: ReliableFrameView, release: Option<TerminalRelease> },
}

impl View for ReliableStep {
    type V = ReliableStepView;

    open spec fn view(&self) -> ReliableStepView {
        match *self {
            ReliableStep::Continue => ReliableStepView::Continue,
            ReliableStep::Stop(end) => ReliableStepView::Stop(end),
            ReliableStep::Deliver { frame, release } => ReliableStepView::Deliver {
                frame: frame@,
                release,
            },
        }
    }
}

/// A stream of the reliable or the emergency lane.
#[derive(Debug, Clone, Copy, PartialEq, Eq)]
pub struct ReliableStream {
    pub emergency: bool,
    /// The epoch that was entered on this stream.
    pub epoch: Option<SessionEpoch>,
}

impl ReliableStream {
    /// What the failure of this stream does. The connection closes, unless the stream's
    /// epoch is over anyway.
    pub open spec fn after_failure(
        self,
        state: QosInboundState,
        context: Option<ControlConnectionId>,
        close: CloseReason,
    ) -> (QosInboundState, StreamEnd) {
        match context {
            Some(generation) => {
                let (after, failure) = state.after_stream_failure(generation, self.epoch);
                match failure {
                    StreamFailure::Ignore => (after, StreamEnd { close: None, release: None }),
                    StreamFailure::Close { release } => (
                        after,
                        StreamEnd { close: Some(close), release: failed_if(release) },
                    ),
                }
            },
            None => (state, StreamEnd { close: Some(close), release: None }),
        }
    }

    /// What a fault while reading does. A sender that cancels a stream because its epoch
    /// has ended does no harm.
    pub open spec fn after_fault(
        self,
        state: QosInboundState,
        context: Option<ControlConnectionId>,
        fault: ReadFault,
        close: CloseReason,
    ) -> (QosInboundState, StreamEnd) {
        let cancelled = fault == ReadFault::Reset(TERMINAL_CANCEL_RESET_CODE as u64);
        match context {
            Some(generation) if cancelled => {
                let (after, outcome) = state.after_cancel(generation, self.epoch);
                match outcome {
                    CancelOutcome::Harmless => (after, StreamEnd { close: None, release: None }),
                    CancelOutcome::Release(epoch) => (
                        after,
                        StreamEnd { close: None, release: failed(epoch) },
                    ),
                    CancelOutcome::Unknown => self.after_failure(after, context, close),
                }
            },
            _ => self.after_failure(state, context, close),
        }
    }

    /// What a frame of the emergency lane does.
    pub open spec fn after_emergency_frame(
        self,
        state: QosInboundState,
        generation: ControlConnectionId,
        frame: ReliableFrameView,
    ) -> (QosInboundState, ReliableStepView) {
        match frame.event {
            ReliableEventView::ReleaseAll { reason } => {
                let (after, disposition) = state.after_emergency(
                    (generation, frame.session_epoch),
                    reason,
                );
                (
                    after,
                    match disposition {
                        EmergencyDisposition::Ignore => ReliableStepView::Stop(
                            StreamEnd { close: None, release: None },
                        ),
                        EmergencyDisposition::Release(_, _) => ReliableStepView::Deliver {
                            frame,
                            release: None,
                        },
                        EmergencyDisposition::Violation(epoch) => ReliableStepView::Stop(
                            StreamEnd {
                                close: Some(CloseReason::FutureEmergency),
                                release: failed(epoch),
                            },
                        ),
                    },
                )
            },
            _ => (
                state,
                ReliableStepView::Stop(
                    StreamEnd { close: Some(CloseReason::NonTerminalEmergency), release: None },
                ),
            ),
        }
    }

    /// What a frame of the reliable lane does. Input belongs on the stream on which its
    /// epoch was entered.
    pub open spec fn after_reliable_frame(
        self,
        state: QosInboundState,
        generation: ControlConnectionId,
        frame: ReliableFrameView,
    ) -> (QosInboundState, ReliableStepView) {
        if !(frame.event is Enter) && self.epoch != Some(frame.session_epoch) {
            let (after, end) = after_generation_failure(
                state,
                Some(generation),
                CloseReason::EpochMismatch,
            );
            (after, ReliableStepView::Stop(end))
        } else {
            let (after, accept) = state.after_reliable(generation, frame);
            (
                after,
                match accept {
                    ReliableAccept::RetiredEpoch => ReliableStepView::Continue,
                    ReliableAccept::EpochAdvanced { retired } => ReliableStepView::Deliver {
                        frame,
                        release: failed(retired),
                    },
                    ReliableAccept::CurrentViolation { epoch } => ReliableStepView::Stop(
                        StreamEnd {
                            close: Some(CloseReason::SequenceViolation),
                            release: failed(epoch),
                        },
                    ),
                    ReliableAccept::Accepted => ReliableStepView::Deliver { frame, release: None },
                },
            )
        }
    }

    /// What the bytes of a frame do.
    pub open spec fn after_payload(
        self,
        state: QosInboundState,
        context: Option<ControlConnectionId>,
        data: Seq<u8>,
    ) -> (QosInboundState, ReliableStepView) {
        match reliable_reading(data) {
            Err(_) => {
                let (after, end) = self.after_failure(
                    state,
                    context,
                    CloseReason::InvalidInputFrame,
                );
                (after, ReliableStepView::Stop(end))
            },
            Ok(frame) => match context {
                None => (
                    state,
                    ReliableStepView::Stop(StreamEnd { close: None, release: None }),
                ),
                Some(generation) => if self.emergency {
                    self.after_emergency_frame(state, generation, frame)
                } else {
                    self.after_reliable_frame(state, generation, frame)
                },
            },
        }
    }

    /// What becomes of the stream once a frame was offered to its receiver.
    pub open spec fn after_delivery(
        self,
        state: QosInboundState,
        generation: ControlConnectionId,
        frame: ReliableFrameView,
        delivered: bool,
    ) -> (ReliableStream, QosInboundState, ReliableStepView) {
        if !delivered {
            (
                self,
                state.after_failed_delivery((generation, frame.session_epoch)),
                ReliableStepView::Stop(
                    StreamEnd {
                        close: Some(CloseReason::ReceiverUnavailable),
                        release: failed(frame.session_epoch),
                    },
                ),
            )
        } else {
            match frame.event {
                ReliableEventView::ReleaseAll { reason } => (
                    self,
                    state,
                    ReliableStepView::Stop(
                        StreamEnd {
                            close: None,
                            release: Some(TerminalRelease { epoch: frame.session_epoch, reason }),
                        },
                    ),
                ),
                ReliableEventView::Enter { .. } => (
                    ReliableStream { epoch: Some(frame.session_epoch), ..self },
                    state,
                    ReliableStepView::Continue,
                ),
                _ => (self, state, ReliableStepView::Continue),
            }
        }
    }

    /// A stream on which nothing was entered yet.
    pub fn new(emergency: bool) -> (stream: Self)
        ensures
            stream == (ReliableStream { emergency, epoch: None }),
    {
        ReliableStream { emergency, epoch: None }
    }

    /// Gives up this stream.
    pub fn fail(
        &self,
        state: &mut QosInboundState,
        context: Option<ControlConnectionId>,
        close: CloseReason,
    ) -> (end: StreamEnd)
        ensures
            (*final(state), end) == self.after_failure(*old(state), context, close),
    {
        match context {
            Some(generation) => match fail_close_active_qos(state, generation, self.epoch) {
                StreamFailure::Ignore => StreamEnd { close: None, release: None },
                StreamFailure::Close { release } => StreamEnd {
                    close: Some(close),
                    release: release_failed(release),
                },
            },
            None => StreamEnd { close: Some(close), release: None },
        }
    }

    /// Looks at a fault while a frame's length or its bytes were read.
    pub fn read_fault(
        &self,
        state: &mut QosInboundState,
        context: Option<ControlConnectionId>,
        fault: ReadFault,
        inside_frame: bool,
    ) -> (end: StreamEnd)
        ensures
            (*final(state), end) == self.after_fault(
                *old(state),
                context,
                fault,
                if inside_frame {
                    CloseReason::TruncatedReliablePayload
                } else {
                    CloseReason::TruncatedReliableLength
                },
            ),
    {
        let close = if inside_frame {
            CloseReason::TruncatedReliablePayload
        } else {
            CloseReason::TruncatedReliableLength
        };
        if let Some(generation) = context {
            if fault.is_terminal_cancel_reset() {
                match handle_terminal_cancel_reset(state, generation, self.epoch) {
                    CancelOutcome::Harmless => {
                        return StreamEnd { close: None, release: None };
                    },
                    CancelOutcome::Release(epoch) => {
                        return StreamEnd { close: None, release: release_failed(Some(epoch)) };
                    },
                    CancelOutcome::Unknown => {},
                }
            }
        }
        self.fail(state, context, close)
    }

    /// Looks at the bytes of a frame.
    pub fn read_frame(
        &self,
        state: &mut QosInboundState,
        context: Option<ControlConnectionId>,
        data: &[u8],
    ) -> (step: ReliableStep)
        ensures
            (*final(state), step@) == self.after_payload(*old(state), context, data@),
    {
        let frame = match ReliableInputCodec::decode(data) {
            Ok(frame) => frame,
            Err(_) => {
                return ReliableStep::Stop(
                    self.fail(state, context, CloseReason::InvalidInputFrame),
                );
            },
        };
        let generation = match context {
            Some(generation) => generation,
            None => {
                return ReliableStep::Stop(StreamEnd { close: None, release: None });
            },
        };
        if self.emergency {
            return self.read_emergency_frame(state, generation, frame);
        }
        let entered = match frame.event {
            ReliableInputEvent::Enter { .. } => true,
            _ => match self.epoch {
                Some(epoch) => epoch == frame.session_epoch,
                None => false,
            },
        };
        if !entered {
            return ReliableStep::Stop(
                fail_generation(state, Some(generation), CloseReason::EpochMismatch),
            );
        }
        match accept_reliable_state(state, generation, &frame) {
            ReliableAccept::RetiredEpoch => ReliableStep::Continue,
            ReliableAccept::EpochAdvanced { retired } => ReliableStep::Deliver {
                frame,
                release: release_failed(Some(retired)),
            },
            ReliableAccept::CurrentViolation { epoch } => ReliableStep::Stop(
                StreamEnd {
                    close: Some(CloseReason::SequenceViolation),
                    release: release_failed(Some(epoch)),
                },
            ),
            ReliableAccept::Accepted => ReliableStep::Deliver { frame, release: None },
        }
    }

    fn read_emergency_frame(
        &self,
        state: &mut QosInboundState,
        generation: ControlConnectionId,
        frame: ReliableInputFrame,
    ) -> (step: ReliableStep)
        ensures
            (*final(state), step@) == self.after_emergency_frame(*old(state), generation, frame@),
    {
        let reason = match frame.event {
            ReliableInputEvent::ReleaseAll { reason } => reason,
            _ => {
                return ReliableStep::Stop(
                    StreamEnd { close: Some(CloseReason::NonTerminalEmergency), release: None },
                );
            },
        };
        match dispose_emergency(state, generation, frame.session_epoch, reason) {
            EmergencyDisposition::Ignore => ReliableStep::Stop(
                StreamEnd { close: None, release: None },
            ),
            EmergencyDisposition::Release(_, _) => ReliableStep::Deliver { frame, release: None },
            EmergencyDisposition::Violation(epoch) => ReliableStep::Stop(
                StreamEnd {
                    close: Some(CloseReason::FutureEmergency),
                    release: release_failed(Some(epoch)),
                },
            ),
        }
    }

    /// Looks at whether the receiver has taken a frame that was to be delivered.
    pub fn frame_offered(
        &mut self,
        state: &mut QosInboundState,
        generation: ControlConnectionId,
        frame: &ReliableInputFrame,
        delivered: bool,
    ) -> (step: ReliableStep)
        ensures
            (*final(self), *final(state), step@) == old(self).after_delivery(
                *old(state),
                generation,
                frame@,
                delivered,
            ),
    {
        if !delivered {
            fail_close_reliable_delivery(state, generation, frame.session_epoch);
            return ReliableStep::Stop(
                StreamEnd {
                    close: Some(CloseReason::ReceiverUnavailable),
                    release: release_failed(Some(frame.session_epoch)),
                },
            );
        }
        match frame.event {
            ReliableInputEvent::ReleaseAll { reason } => ReliableStep::Stop(
                StreamEnd {
                    close: None,
                    release: Some(TerminalRelease { epoch: frame.session_epoch, reason }),
                },
            ),
            ReliableInputEvent::Enter { .. } => {
                self.epoch = Some(frame.session_epoch);
                ReliableStep::Continue
            },
            _ => ReliableStep::Continue,
        }
    }
}

/// The length of the frame that follows on a stream of messages.
pub fn message_frame_length(prefix: &[u8], max_message_size: usize) -> (length: Result<
    usize,
    CloseReason,
>)
    requires
        prefix@.len() == 4,
    ensures
        match length {
            Ok(len) => len == from_be32(prefix@) && len <= max_message_size,
            Err(reason) => from_be32(prefix@) > max_message_size && reason
                == CloseReason::OversizedMessageFrame,
        },
{
    assert(prefix@.skip(0) =~= prefix@);
    let length: usize = wire::read_u32(prefix, 0) as usize;
    if length > max_message_size {
        Err(CloseReason::OversizedMessageFrame)
    } else {
        Ok(length)
    }
}

/// The length of the frame that follows on a stream of framed messages without a lane.
pub fn legacy_frame_length(prefix: &[u8], max_message_size: usize) -> (length: Result<
    usize,
    CloseReason,
>)
    requires
        prefix@.len() == 4,
    ensures
        match length {
            Ok(len) => len == from_be32(prefix@) && len <= max_message_size,
            Err(reason) => from_be32(prefix@) > max_message_size && reason
                == CloseReason::FrameLimitExceeded,
        },
{
    match message_frame_length(prefix, max_message_size) {
        Ok(length) => Ok(length),
        Err(_) => Err(CloseReason::FrameLimitExceeded),
    }
}

/// Looks at a fault on a stream of messages: `None` where the sender gave up on a message,
/// else why the connection closes.
pub fn message_fault(fault: ReadFault, inside_frame: bool) -> (close: Option<CloseReason>)
    ensures
        close == (if fault == ReadFault::Reset(AWAITED_CANCEL_RESET_CODE as u64) {
            None
        } else if inside_frame {
            Some(CloseReason::TruncatedMessagePayload)
        } else {
            Some(CloseReason::TruncatedMessageLength)
        }),
{
    if fault.is_stream_reset(AWAITED_CANCEL_RESET_CODE) {
        None
    } else if inside_frame {
        Some(CloseReason::TruncatedMessagePayload)
    } else {
        Some(CloseReason::TruncatedMessageLength)
    }
}

/// What a message on a lane comes to.
pub enum MessageStep {
    /// It goes to the receivers of control messages, which are waited for.
    Control(ControlFrame),
    /// It goes to the receiver of bulk messages, which is waited for.
    Bulk(BulkFrame),
    /// It goes to the receiver of measurements, if that has room.
    Telemetry(TelemetryFrame),
    /// The stream is stopped, and the connection closed where a reason is given.
    Stop { report: Option<ProtocolReport>, close: Option<CloseReason> },
}

/// What a message on a lane comes to; `None` stands for bytes that are no message.
pub open spec fn message_step(lane: LaneDiscriminator, message: Option<Message>) -> MessageStep {
    match message {
        None => MessageStep::Stop {
            report: None,
            close: Some(CloseReason::InvalidMessageFrame),
        },
        Some(message) => {
            let classified = ClassifiedMessage::of(message);
            if !classified.belongs_on(lane.tag()) {
                MessageStep::Stop { report: Some(ProtocolReport::WrongLane), close: None }
            } else {
                match classified {
                    ClassifiedMessage::Control(frame) => MessageStep::Control(frame),
                    ClassifiedMessage::Bulk(frame) => MessageStep::Bulk(frame),
                    ClassifiedMessage::Telemetry(frame) => MessageStep::Telemetry(frame),
                    _ => MessageStep::Stop {
                        report: Some(ProtocolReport::CompatInput),
                        close: Some(CloseReason::RejectedCompatInput),
                    },
                }
            }
        },
    }
}

/// Looks at a message on a lane.
pub fn read_message(lane: LaneDiscriminator, message: Option<Message>) -> (step: MessageStep)
    ensures
        step == message_step(lane, message),
{
    let message = match message {
        Some(message) => message,
        None => {
            return MessageStep::Stop {
                report: None,
                close: Some(CloseReason::InvalidMessageFrame),
            };
        },
    };
    let classified = match ClassifiedMessage::try_from(message) {
        Ok(classified) => classified,
        Err(_) => ClassifiedMessage::Unsupported,
    };
    if !classified.lane_matches(lane.as_u8()) {
        return MessageStep::Stop { report: Some(ProtocolReport::WrongLane), close: None };
    }
    match classified {
        ClassifiedMessage::Control(frame) => MessageStep::Control(frame),
        ClassifiedMessage::Bulk(frame) => MessageStep::Bulk(frame),
        ClassifiedMessage::Telemetry(frame) => MessageStep::Telemetry(frame),
        _ => MessageStep::Stop {
            report: Some(ProtocolReport::CompatInput),
            close: Some(CloseReason::RejectedCompatInput),
        },
    }
}

/// Whatever a reliable or an emergency stream delivers, and whatever it releases, the
/// state of the connection has seen before: a released epoch is retired, and so is the
/// epoch of a release that is delivered.
pub proof fn streams_release_retired_epochs(
    stream: ReliableStream,
    state: QosInboundState,
    generation: ControlConnectionId,
    data: Seq<u8>,
)
    requires
        state.well_formed(generation),
    ensures
        ({
            let (after, step) = stream.after_payload(state, Some(generation), data);
            match step {
                ReliableStepView::Continue => true,
                ReliableStepView::Stop(end) => end.release matches Some(release)
                    ==> after.retired((generation, release.epoch)),
                ReliableStepView::Deliver { frame, release } => {
                    &&& release matches Some(displaced) ==> after.retired(
                        (generation, displaced.epoch),
                    )
                    &&& frame.event is ReleaseAll ==> after.retired(
                        (generation, frame.session_epoch),
                    )
                },
            }
        }),
{
}

/// A stream of the reliable lane delivers nothing but input of an epoch that was entered
/// on it, and the frame that enters one.
pub proof fn streams_deliver_their_own_epoch(
    stream: ReliableStream,
    state: QosInboundState,
    generation: ControlConnectionId,
    data: Seq<u8>,
)
    requires
        !stream.emergency,
        stream.after_payload(state, Some(generation), data).1 is Deliver,
    ensures
        ({
            let frame = stream.after_payload(state, Some(generation), data).1->Deliver_frame;
            frame.event is Enter || stream.epoch == Some(frame.session_epoch)
        }),
{
}

/// The emergency lane delivers releases only.
pub proof fn emergencies_are_releases(
    stream: ReliableStream,
    state: QosInboundState,
    generation: ControlConnectionId,
    data: Seq<u8>,
)
    requires
        stream.emergency,
        stream.after_payload(state, Some(generation), data).1 is Deliver,
    ensures
        stream.after_payload(state, Some(generation), data).1->Deliver_frame.event is ReleaseAll,
{
}

/// A stream whose epoch is over cannot bring the connection down, whatever goes wrong
/// with it.
pub proof fn old_streams_fail_quietly(
    stream: ReliableStream,
    state: QosInboundState,
    generation: ControlConnectionId,
    epoch: SessionEpoch,
    fault: ReadFault,
    close: CloseReason,
)
    requires
        state.well_formed(generation),
        stream.epoch == Some(epoch),
        state.retired((generation, epoch)),
    ensures
        stream.after_fault(state, Some(generation), fault, close) == (
            state,
            StreamEnd { close: None, release: None },
        ),
{
}

/// A release that comes on the emergency lane for the epoch that is active is delivered as it
/// came. The epoch is retired then, and nothing is active any more.
pub proof fn emergency_streams_deliver_the_active_release(
    stream: ReliableStream,
    state: QosInboundState,
    generation: ControlConnectionId,
    last: u64,
    frame: ReliableFrameView,
    data: Seq<u8>,
)
    requires
        stream.emergency,
        state.well_formed(generation),
        state.active == Some((generation, frame.session_epoch, last)),
        frame.event is ReleaseAll,
        reliable_reading(data) == Ok::<_, ReliableCodecError>(frame),
    ensures
        ({
            let (after, step) = stream.after_payload(state, Some(generation), data);
            &&& step == (ReliableStepView::Deliver { frame, release: None })
            &&& after.active is None
            &&& after.retired_through == Some((generation, frame.session_epoch))
        }),
{
}

/// A release on the emergency lane that is not of the active epoch, nor of one that is over,
/// closes the connection, and the active epoch is released because of that.
pub proof fn foreign_emergencies_close_the_connection(
    stream: ReliableStream,
    state: QosInboundState,
    generation: ControlConnectionId,
    active: SessionEpoch,
    last: u64,
    frame: ReliableFrameView,
    data: Seq<u8>,
)
    requires
        stream.emergency,
        state.well_formed(generation),
        state.active == Some((generation, active, last)),
        frame.session_epoch != active,
        state.retired_through matches Some((_, retired)) ==> retired.0 < frame.session_epoch.0,
        frame.event is ReleaseAll,
        reliable_reading(data) == Ok::<_, ReliableCodecError>(frame),
    ensures
        ({
            let (after, step) = stream.after_payload(state, Some(generation), data);
            &&& step == ReliableStepView::Stop(
                StreamEnd {
                    close: Some(CloseReason::FutureEmergency),
                    release: Some(
                        TerminalRelease {
                            epoch: active,
                            reason: ReleaseAllReason::BackendFailure,
                        },
                    ),
                },
            )
            &&& after.active is None
        }),
{
}

/// Input on the emergency lane that is no release closes the connection and changes nothing.
pub proof fn emergency_streams_carry_releases_only(
    stream: ReliableStream,
    state: QosInboundState,
    generation: ControlConnectionId,
    frame: ReliableFrameView,
    data: Seq<u8>,
)
    requires
        stream.emergency,
        !(frame.event is ReleaseAll),
        reliable_reading(data) == Ok::<_, ReliableCodecError>(frame),
    ensures
        stream.after_payload(state, Some(generation), data) == (
            state,
            ReliableStepView::Stop(
                StreamEnd { close: Some(CloseReason::NonTerminalEmergency), release: None },
            ),
        ),
{
}

/// An enter of a later epoch than all before is delivered as it came, and the epoch that it
/// displaces is released before that.
pub proof fn streams_deliver_enters(
    stream: ReliableStream,
    state: QosInboundState,
    generation: ControlConnectionId,
    frame: ReliableFrameView,
    data: Seq<u8>,
)
    requires
        !stream.emergency,
        state.well_formed(generation),
        frame.event is Enter,
        state.retired_through matches Some((_, retired)) ==> retired.0 < frame.session_epoch.0,
        state.active matches Some((_, active, _)) ==> active.0 < frame.session_epoch.0,
        reliable_reading(data) == Ok::<_, ReliableCodecError>(frame),
    ensures
        ({
            let (after, step) = stream.after_payload(state, Some(generation), data);
            &&& step == (ReliableStepView::Deliver {
                frame,
                release: match state.active {
                    Some((_, displaced, _)) => Some(
                        TerminalRelease {
                            epoch: displaced,
                            reason: ReleaseAllReason::BackendFailure,
                        },
                    ),
                    None => None,
                },
            })
            &&& after.active == Some((generation, frame.session_epoch, frame.sequence))
        }),
{
}

/// Input that follows on the stream on which its epoch was entered is delivered as it came.
pub proof fn streams_deliver_what_follows(
    stream: ReliableStream,
    state: QosInboundState,
    generation: ControlConnectionId,
    last: u64,
    frame: ReliableFrameView,
    data: Seq<u8>,
)
    requires
        !stream.emergency,
        state.well_formed(generation),
        stream.epoch == Some(frame.session_epoch),
        state.active == Some((generation, frame.session_epoch, last)),
        frame.sequence == last + 1,
        !(frame.event is Enter),
        reliable_reading(data) == Ok::<_, ReliableCodecError>(frame),
    ensures
        stream.after_payload(state, Some(generation), data).1 == (ReliableStepView::Deliver {
            frame,
            release: None,
        }),
{
}

/// Input of the active epoch that comes on another stream, or out of order on its own, closes
/// the connection, and the epoch is released because of that.
pub proof fn misplaced_input_closes_the_connection(
    stream: ReliableStream,
    state: QosInboundState,
    generation: ControlConnectionId,
    last: u64,
    frame: ReliableFrameView,
    data: Seq<u8>,
)
    requires
        !stream.emergency,
        state.well_formed(generation),
        state.active == Some((generation, frame.session_epoch, last)),
        !(frame.event is Enter),
        stream.epoch != Some(frame.session_epoch) || frame.sequence != last + 1,
        reliable_reading(data) == Ok::<_, ReliableCodecError>(frame),
    ensures
        ({
            let (after, step) = stream.after_payload(state, Some(generation), data);
            &&& step matches ReliableStepView::Stop(end) && end.close == Some(
                if stream.epoch == Some(frame.session_epoch) {
                    CloseReason::SequenceViolation
                } else {
                    CloseReason::EpochMismatch
                },
            ) && end.release == Some(
                TerminalRelease {
                    epoch: frame.session_epoch,
                    reason: ReleaseAllReason::BackendFailure,
                },
            )
            &&& after.active is None
            &&& after.retired_through == Some((generation, frame.session_epoch))
        }),
{
}

/// What follows once a frame was offered. A release that was taken is handed out with its
/// reason and ends the stream; an enter binds the stream to its epoch; anything else leaves
/// stream and state alone. A frame that was not taken closes the connection, and its epoch
/// is released and over.
pub proof fn offered_frames_are_followed_up(
    stream: ReliableStream,
    state: QosInboundState,
    generation: ControlConnectionId,
    frame: ReliableFrameView,
)
    requires
        state.well_formed(generation),
    ensures
        ({
            let (bound, after, step) = stream.after_delivery(state, generation, frame, true);
            &&& after == state
            &&& bound.emergency == stream.emergency
            &&& bound.epoch == (if frame.event is Enter {
                Some(frame.session_epoch)
            } else {
                stream.epoch
            })
            &&& match frame.event {
                ReliableEventView::ReleaseAll { reason } => step == ReliableStepView::Stop(
                    StreamEnd {
                        close: None,
                        release: Some(TerminalRelease { epoch: frame.session_epoch, reason }),
                    },
                ),
                _ => step is Continue,
            }
        }),
        ({
            let (bound, after, step) = stream.after_delivery(state, generation, frame, false);
            &&& bound == stream
            &&& after.retired_through matches Some((id, through)) && id == generation && through.0
                >= frame.session_epoch.0
            &&& !(after.active matches Some((_, active, _)) && active == frame.session_epoch)
            &&& step == ReliableStepView::Stop(
                StreamEnd {
                    close: Some(CloseReason::ReceiverUnavailable),
                    release: Some(
                        TerminalRelease {
                            epoch: frame.session_epoch,
                            reason: ReleaseAllReason::BackendFailure,
                        },
                    ),
                },
            )
        }),
{
}

/// Whatever goes wrong with the stream of the active epoch, the epoch is released. Only a
/// sender that has cancelled the stream itself keeps its connection.
pub proof fn faults_release_the_active_epoch(
    stream: ReliableStream,
    state: QosInboundState,
    generation: ControlConnectionId,
    epoch: SessionEpoch,
    last: u64,
    fault: ReadFault,
    close: CloseReason,
)
    requires
        state.well_formed(generation),
        state.active == Some((generation, epoch, last)),
        stream.epoch == Some(epoch),
    ensures
        ({
            let (after, end) = stream.after_fault(state, Some(generation), fault, close);
            &&& end.release == Some(
                TerminalRelease { epoch, reason: ReleaseAllReason::BackendFailure },
            )
            &&& end.close == (if fault == ReadFault::Reset(TERMINAL_CANCEL_RESET_CODE as u64) {
                None
            } else {
                Some(close)
            })
            &&& after.active is None
            &&& after.retired_through == Some((generation, epoch))
        }),
{
}

/// A fault of a stream on which nothing was entered releases nothing. It closes the
/// connection, unless the sender has cancelled the stream itself.
pub proof fn faults_before_an_enter_release_nothing(
    stream: ReliableStream,
    state: QosInboundState,
    generation: ControlConnectionId,
    fault: ReadFault,
    close: CloseReason,
)
    requires
        stream.epoch is None,
    ensures
        stream.after_fault(state, Some(generation), fault, close) == (
            state,
            StreamEnd {
                close: if fault == ReadFault::Reset(TERMINAL_CANCEL_RESET_CODE as u64) {
                    None
                } else {
                    Some(close)
                },
                release: None,
            },
        ),
{
}

/// Giving up a connection releases the epoch that is active on it, and no other.
pub proof fn failed_connections_release_the_active_epoch(
    state: QosInboundState,
    generation: ControlConnectionId,
    close: CloseReason,
)
    requires
        state.well_formed(generation),
    ensures
        ({
            let (after, end) = after_generation_failure(state, Some(generation), close);
            &&& end.close == Some(close)
            &&& end.release == (match state.active {
                Some((_, epoch, _)) => Some(
                    TerminalRelease { epoch, reason: ReleaseAllReason::BackendFailure },
                ),
                None => None,
            })
            &&& after.active is None
        }),
{
}

/// A stream is read by the reader of the lane that its preface names, and every lane has one.
pub proof fn lanes_are_read_by_their_readers(lane: LaneDiscriminator)
    ensures
        lane_reader(lane.preface_bytes()[4]) == (match lane {
            LaneDiscriminator::ReliableInput => LaneReader::Reliable { emergency: false },
            LaneDiscriminator::Emergency => LaneReader::Reliable { emergency: true },
            _ => LaneReader::Messages(lane),
        }),
        lane.preface_bytes().len() == 5,
        lane.preface_bytes().take(4) == QOS_LANE_MAGIC@,
{
    assert(lane.preface_bytes().take(4) =~= QOS_LANE_MAGIC@);
}

/// Whatever was sent on a lane is delivered by that lane as the very frame that was sent, and
/// reported on every other lane. Input without an epoch is rejected on its own lane too.
pub proof fn messages_are_delivered_on_their_lane(
    lane: LaneDiscriminator,
    control: ControlFrame,
    bulk: BulkFrame,
    telemetry: TelemetryFrame,
    compat: ReliableCompatFrame,
)
    ensures
        ({
            let misplaced = MessageStep::Stop {
                report: Some(ProtocolReport::WrongLane),
                close: None,
            };
            &&& message_step(lane, Some(control.message())) == (if lane
                == LaneDiscriminator::Control {
                MessageStep::Control(control)
            } else {
                misplaced
            })
            &&& message_step(lane, Some(bulk.message())) == (if lane == LaneDiscriminator::Bulk {
                MessageStep::Bulk(bulk)
            } else {
                misplaced
            })
            &&& message_step(lane, Some(telemetry.message())) == (if lane
                == LaneDiscriminator::Telemetry {
                MessageStep::Telemetry(telemetry)
            } else {
                misplaced
            })
            &&& message_step(lane, Some(compat.message())) == (if lane
                == LaneDiscriminator::ReliableCompat {
                MessageStep::Stop {
                    report: Some(ProtocolReport::CompatInput),
                    close: Some(CloseReason::RejectedCompatInput),
                }
            } else {
                misplaced
            })
        }),
{
}

/// Whatever a lane delivers stands for the message that came, so nothing is delivered that no
/// lane carries.
pub proof fn lanes_deliver_what_came(lane: LaneDiscriminator, message: Message)
    ensures
        match message_step(lane, Some(message)) {
            MessageStep::Control(frame) => frame.message() == message,
            MessageStep::Bulk(frame) => frame.message() == message,
            MessageStep::Telemetry(frame) => frame.message() == message,
            MessageStep::Stop { report, .. } => report is Some,
        },
{
}

/// Input without an epoch is never delivered, on whatever lane it comes.
pub proof fn compat_input_is_rejected(lane: LaneDiscriminator, message: Message)
    requires
        ClassifiedMessage::of(message) is ReliableCompat,
    ensures
        message_step(lane, Some(message)) is Stop,
{
}

} // verus!
