//! The sending side of an authenticated connection.
//!
//! Input frames wait in bounded lanes until a writer takes them. When a lane cannot take
//! a frame its epoch is over: it is entombed first, and released after that.

use std::collections::HashSet;

use bytes::Bytes;
use vstd::prelude::*;

use crate::buffer::frozen;
use crate::codec::{
    realtime_bytes, realtime_encoding_is_accepted, realtime_encoding_is_injective,
    realtime_fault, RealtimeInputCodec,
};
use crate::handshake::PeerAuthContext;
use crate::qos::{RealtimeSendOutcome, TelemetryFrame, TransportSendError};
use crate::types::{
    RealtimeInputFrame, ReleaseAllReason, ReliableInputEvent, ReliableInputFrame, SessionEpoch,
    INPUT_PROTOCOL_VERSION,
};

verus! {

broadcast use vstd::std_specs::hash::group_hash_axioms;

/// How many reliable frames may wait.
pub const RELIABLE_LANE_CAPACITY: usize = 256;

/// How many control messages may wait.
pub const CONTROL_LANE_CAPACITY: usize = 64;

/// How many bulk messages may wait.
pub const BULK_LANE_CAPACITY: usize = 8;

/// How many measurements may wait.
pub const TELEMETRY_LANE_CAPACITY: usize = 32;

/// Everything that is held down in an epoch has to be released.
#[derive(Debug, Clone, Copy, PartialEq, Eq, Structural)]
pub struct TerminalRelease {
    pub epoch: SessionEpoch,
    pub reason: ReleaseAllReason,
}

/// A release, and the connection that it belongs to.
#[derive(Debug, PartialEq, Eq)]
pub struct TerminalReleaseEvent {
    pub auth: PeerAuthContext,
    pub epoch: SessionEpoch,
    pub reason: ReleaseAllReason,
}

impl TerminalRelease {
    /// This release, told of with the connection that it belongs to.
    pub fn for_peer(self, auth: &PeerAuthContext) -> (event: TerminalReleaseEvent)
        ensures
            event.auth == *auth,
            event.epoch == self.epoch,
            event.reason == self.reason,
    {
        TerminalReleaseEvent { auth: auth.clone(), epoch: self.epoch, reason: self.reason }
    }
}

/// Why a sender gives its connection up.
#[derive(Debug, Clone, Copy, PartialEq, Eq, Structural)]
pub enum SenderClose {
    /// An emergency release has no slot, or its writer has failed.
    EmergencySlotUnavailable,
    /// An emergency release speaks of an epoch that was not entered.
    FutureEmergency,
}

/// The sending side of a connection, as a value.
pub struct SenderState {
    pub reliable: Seq<ReliableInputFrame>,
    pub reliable_capacity: nat,
    pub reliable_open: bool,
    pub emergency: Option<ReliableInputFrame>,
    pub emergency_open: bool,
    pub emergency_reserved: bool,
    pub telemetry: Seq<TelemetryFrame>,
    pub telemetry_open: bool,
    pub tombstones: Set<u64>,
    pub active: Option<SessionEpoch>,
    pub cancelled_through: Option<SessionEpoch>,
    pub releases: Seq<TerminalRelease>,
    pub close: Option<SenderClose>,
}

/// The release that ends the epoch of a frame that cannot be sent.
pub open spec fn terminal_of(frame: ReliableInputFrame) -> ReliableInputFrame {
    ReliableInputFrame {
        event: ReliableInputEvent::ReleaseAll { reason: ReleaseAllReason::BackendFailure },
        ..frame
    }
}

/// The reason that a frame gives for a release.
pub open spec fn reason_of(frame: ReliableInputFrame) -> ReleaseAllReason {
    match frame.event {
        ReliableInputEvent::ReleaseAll { reason } => reason,
        _ => ReleaseAllReason::BackendFailure,
    }
}

impl SenderState {
    /// Whether an epoch is over for good.
    pub open spec fn entombed(self, epoch: SessionEpoch) -> bool {
        self.tombstones.contains(epoch.0)
    }

    /// The state in which an epoch is not the one that was entered last and not released.
    pub open spec fn left(self, epoch: SessionEpoch) -> SenderState {
        SenderState {
            active: if self.active == Some(epoch) {
                None
            } else {
                self.active
            },
            ..self
        }
    }

    /// The state with an epoch entombed.
    pub open spec fn entomb(self, epoch: SessionEpoch) -> SenderState {
        SenderState { tombstones: self.tombstones.insert(epoch.0), ..self.left(epoch) }
    }

    /// The state in which a frame was put into the reliable lane. An enter starts its epoch,
    /// and a release ends it.
    pub open spec fn queued(self, frame: ReliableInputFrame) -> SenderState {
        let reliable = self.reliable.push(frame);
        match frame.event {
            ReliableInputEvent::Enter { .. } => SenderState {
                reliable,
                active: Some(frame.session_epoch),
                ..self
            },
            ReliableInputEvent::ReleaseAll { .. } => SenderState {
                reliable,
                ..self.left(frame.session_epoch)
            },
            _ => SenderState { reliable, ..self },
        }
    }

    /// The state in which an epoch was entombed, its connection given up and its release
    /// asked for.
    pub open spec fn fail_closed(
        self,
        epoch: SessionEpoch,
        reason: ReleaseAllReason,
        close: SenderClose,
    ) -> SenderState {
        let entombed = self.entomb(epoch);
        SenderState {
            releases: entombed.releases.push(TerminalRelease { epoch, reason }),
            close: Some(close),
            ..entombed
        }
    }

    /// What putting a release into the emergency slot does.
    pub open spec fn after_emergency(self, frame: ReliableInputFrame) -> (
        SenderState,
        Result<(), TransportSendError>,
    ) {
        let failed = SenderState { emergency_reserved: true, ..self }.fail_closed(
            frame.session_epoch,
            reason_of(frame),
            SenderClose::EmergencySlotUnavailable,
        );
        if self.emergency_reserved {
            (failed, Err(TransportSendError::EmergencySlotFull))
        } else if !self.emergency_open {
            (failed, Err(TransportSendError::LaneClosed))
        } else {
            (
                SenderState {
                    emergency_reserved: true,
                    emergency: Some(frame),
                    ..self.left(frame.session_epoch)
                },
                Ok(()),
            )
        }
    }

    /// The state in which writers were told that everything up to an epoch is cancelled.
    pub open spec fn cancel_through(self, epoch: SessionEpoch) -> SenderState {
        SenderState {
            cancelled_through: match self.cancelled_through {
                Some(through) => if through.0 >= epoch.0 {
                    Some(through)
                } else {
                    Some(epoch)
                },
                None => Some(epoch),
            },
            ..self
        }
    }

    /// What a frame that cannot be sent does: its epoch is entombed and cancelled, and its
    /// release takes the emergency slot.
    pub open spec fn after_failed_frame(self, frame: ReliableInputFrame) -> (
        SenderState,
        Result<(), TransportSendError>,
    ) {
        self.entomb(frame.session_epoch).cancel_through(frame.session_epoch).after_emergency(
            terminal_of(frame),
        )
    }

    /// What offering a reliable frame does.
    pub open spec fn after_reliable(self, frame: ReliableInputFrame) -> (
        SenderState,
        Result<(), TransportSendError>,
    ) {
        if self.entombed(frame.session_epoch) {
            (self, Err(TransportSendError::UnsupportedMessage))
        } else if !self.reliable_open {
            (self, Err(TransportSendError::LaneClosed))
        } else if self.reliable.len() < self.reliable_capacity {
            (self.queued(frame), Ok(()))
        } else {
            let (failed, release) = self.after_failed_frame(frame);
            (
                failed,
                match release {
                    Ok(()) => Err(TransportSendError::ReliableLaneFull),
                    Err(error) => Err(error),
                },
            )
        }
    }

    /// What offering an emergency release does.
    pub open spec fn after_offered_emergency(self, frame: ReliableInputFrame) -> (
        SenderState,
        Result<(), TransportSendError>,
    ) {
        if !(frame.event is ReleaseAll) {
            (self, Err(TransportSendError::UnsupportedMessage))
        } else if self.active is Some && frame.session_epoch.0 > self.active->Some_0.0 {
            (
                self.fail_closed(
                    self.active->Some_0,
                    ReleaseAllReason::BackendFailure,
                    SenderClose::FutureEmergency,
                ),
                Err(TransportSendError::UnsupportedMessage),
            )
        } else {
            self.after_emergency(frame)
        }
    }

    /// Whether `datagram` is what a realtime frame comes to. There is no datagram for an
    /// epoch that is over, and an error for a frame of another protocol version.
    pub open spec fn is_datagram(
        self,
        frame: RealtimeInputFrame,
        datagram: Result<Option<Bytes>, TransportSendError>,
    ) -> bool {
        if self.entombed(frame.session_epoch) {
            datagram == Ok::<Option<Bytes>, TransportSendError>(None)
        } else if frame.protocol_version != INPUT_PROTOCOL_VERSION {
            datagram == Err::<Option<Bytes>, TransportSendError>(
                TransportSendError::UnsupportedMessage,
            )
        } else {
            datagram matches Ok(Some(bytes)) && frozen(bytes) == realtime_bytes(frame)
        }
    }

    /// What offering a measurement does.
    pub open spec fn after_telemetry(self, frame: TelemetryFrame) -> (
        SenderState,
        Result<(), TransportSendError>,
    ) {
        if self.telemetry_open && self.telemetry.len() < TELEMETRY_LANE_CAPACITY {
            (SenderState { telemetry: self.telemetry.push(frame), ..self }, Ok(()))
        } else {
            (self, Err(TransportSendError::LaneClosed))
        }
    }

    /// What taking the next reliable frame does: frames of epochs that are over are dropped on
    /// the way.
    pub open spec fn after_next_reliable(self) -> (SenderState, Option<ReliableInputFrame>)
        decreases self.reliable.len(),
    {
        if self.reliable.len() == 0 {
            (self, None)
        } else {
            let rest = SenderState { reliable: self.reliable.skip(1), ..self };
            if self.entombed(self.reliable[0].session_epoch) {
                rest.after_next_reliable()
            } else {
                (rest, Some(self.reliable[0]))
            }
        }
    }

    /// What holds of every sender: its lane is not overfull, the slot is reserved while it
    /// is taken and holds a release, no entombed epoch is active, and whatever is to be
    /// released is entombed.
    pub open spec fn well_formed(self) -> bool {
        &&& self.reliable.len() <= self.reliable_capacity
        &&& self.telemetry.len() <= TELEMETRY_LANE_CAPACITY
        &&& self.emergency matches Some(frame) ==> self.emergency_reserved && frame.event
            is ReleaseAll
        &&& self.active matches Some(epoch) ==> !self.entombed(epoch)
        &&& forall|i: int|
            0 <= i < self.releases.len() ==> self.entombed((#[trigger] self.releases[i]).epoch)
    }
}

/// The sending side of an authenticated connection.
pub struct PeerTransportHandle {
    pub auth: PeerAuthContext,
    pub reliable: Vec<ReliableInputFrame>,
    pub reliable_capacity: usize,
    pub reliable_open: bool,
    pub emergency: Option<ReliableInputFrame>,
    pub emergency_open: bool,
    pub emergency_reserved: bool,
    pub telemetry: Vec<TelemetryFrame>,
    pub telemetry_open: bool,
    pub tombstones: HashSet<u64>,
    pub active: Option<SessionEpoch>,
    pub cancelled_through: Option<SessionEpoch>,
    pub releases: Vec<TerminalRelease>,
    pub close: Option<SenderClose>,
}

impl View for PeerTransportHandle {
    type V = SenderState;

    open spec fn view(&self) -> SenderState {
        SenderState {
            reliable: self.reliable@,
            reliable_capacity: self.reliable_capacity as nat,
            reliable_open: self.reliable_open,
            emergency: self.emergency,
            emergency_open: self.emergency_open,
            emergency_reserved: self.emergency_reserved,
            telemetry: self.telemetry@,
            telemetry_open: self.telemetry_open,
            tombstones: self.tombstones@,
            active: self.active,
            cancelled_through: self.cancelled_through,
            releases: self.releases@,
            close: self.close,
        }
    }
}

impl PeerTransportHandle {
    /// A sender with empty lanes, of which the reliable one takes `reliable_capacity` frames.
    pub fn new(auth: PeerAuthContext, reliable_capacity: usize) -> (handle: Self)
        ensures
            handle.auth == auth,
            handle@ == (SenderState {
                reliable: seq![],
                reliable_capacity: reliable_capacity as nat,
                reliable_open: true,
                emergency: None,
                emergency_open: true,
                emergency_reserved: false,
                telemetry: seq![],
                telemetry_open: true,
                tombstones: Set::empty(),
                active: None,
                cancelled_through: None,
                releases: seq![],
                close: None,
            }),
            handle@.well_formed(),
    {
        PeerTransportHandle {
            auth,
            reliable: Vec::new(),
            reliable_capacity,
            reliable_open: true,
            emergency: None,
            emergency_open: true,
            emergency_reserved: false,
            telemetry: Vec::new(),
            telemetry_open: true,
            tombstones: HashSet::new(),
            active: None,
            cancelled_through: None,
            releases: Vec::new(),
            close: None,
        }
    }

    /// Who is at the other end.
    pub fn auth(&self) -> (auth: PeerAuthContext)
        ensures
            auth == self.auth,
    {
        self.auth.clone()
    }

    /// Whether an epoch is over for good.
    pub fn is_tombstoned(&self, epoch: SessionEpoch) -> (entombed: bool)
        ensures
            entombed == self@.entombed(epoch),
    {
        self.tombstones.contains(&epoch.0)
    }

    fn leave(&mut self, epoch: SessionEpoch)
        ensures
            final(self)@ == old(self)@.left(epoch),
            final(self).auth == old(self).auth,
    {
        if let Some(active) = self.active {
            if active == epoch {
                self.active = None;
            }
        }
    }

    fn entomb(&mut self, epoch: SessionEpoch)
        ensures
            final(self)@ == old(self)@.entomb(epoch),
            final(self).auth == old(self).auth,
    {
        self.tombstones.insert(epoch.0);
        self.leave(epoch);
        assert(self@.tombstones =~= old(self)@.tombstones.insert(epoch.0));
    }

    fn fail_closed(&mut self, epoch: SessionEpoch, reason: ReleaseAllReason, close: SenderClose)
        ensures
            final(self)@ == old(self)@.fail_closed(epoch, reason, close),
            final(self).auth == old(self).auth,
    {
        self.entomb(epoch);
        self.close = Some(close);
        self.releases.push(TerminalRelease { epoch, reason });
    }

    /// The datagram of a realtime frame. There is none for an epoch that is over, and an
    /// error for a frame that has no form.
    pub fn try_send_realtime(&self, frame: &RealtimeInputFrame) -> (datagram: Result<
        Option<Bytes>,
        TransportSendError,
    >)
        ensures
            self@.is_datagram(*frame, datagram),
    {
        if self.is_tombstoned(frame.session_epoch) {
            return Ok(None);
        }
        match RealtimeInputCodec::encode(frame) {
            Ok(bytes) => Ok(Some(bytes)),
            Err(_) => Err(TransportSendError::UnsupportedMessage),
        }
    }

    /// Offers a reliable frame. A lane that is full ends the frame's epoch.
    pub fn try_send_reliable_input(&mut self, frame: ReliableInputFrame) -> (sent: Result<
        (),
        TransportSendError,
    >)
        requires
            old(self)@.well_formed(),
        ensures
            (final(self)@, sent) == old(self)@.after_reliable(frame),
            final(self)@.well_formed(),
            final(self).auth == old(self).auth,
    {
        if self.is_tombstoned(frame.session_epoch) {
            return Err(TransportSendError::UnsupportedMessage);
        }
        if !self.reliable_open {
            return Err(TransportSendError::LaneClosed);
        }
        if self.reliable.len() < self.reliable_capacity {
            match &frame.event {
                ReliableInputEvent::Enter { .. } => {
                    self.active = Some(frame.session_epoch);
                },
                ReliableInputEvent::ReleaseAll { .. } => self.leave(frame.session_epoch),
                _ => {},
            }
            self.reliable.push(frame);
            return Ok(());
        }
        match self.fail_reliable_frame(frame) {
            Ok(()) => Err(TransportSendError::ReliableLaneFull),
            Err(error) => Err(error),
        }
    }

    /// Offers an emergency release, which passes everything that waits. One for an epoch
    /// that was not entered yet ends the epoch that was, if that was not released.
    pub fn try_send_emergency(&mut self, frame: ReliableInputFrame) -> (sent: Result<
        (),
        TransportSendError,
    >)
        requires
            old(self)@.well_formed(),
        ensures
            (final(self)@, sent) == old(self)@.after_offered_emergency(frame),
            final(self)@.well_formed(),
            final(self).auth == old(self).auth,
    {
        match frame.event {
            ReliableInputEvent::ReleaseAll { .. } => {},
            _ => {
                return Err(TransportSendError::UnsupportedMessage);
            },
        }
        if let Some(active) = self.active {
            if frame.session_epoch.0 > active.0 {
                self.fail_closed(
                    active,
                    ReleaseAllReason::BackendFailure,
                    SenderClose::FutureEmergency,
                );
                return Err(TransportSendError::UnsupportedMessage);
            }
        }
        self.try_send_emergency_locked(frame)
    }

    /// Puts a release into the emergency slot.
    fn try_send_emergency_locked(&mut self, frame: ReliableInputFrame) -> (sent: Result<
        (),
        TransportSendError,
    >)
        requires
            old(self)@.well_formed(),
            frame.event is ReleaseAll,
        ensures
            (final(self)@, sent) == old(self)@.after_emergency(frame),
            final(self)@.well_formed(),
            final(self).auth == old(self).auth,
    {
        if self.emergency_reserved {
            self.fail_emergency_locked(&frame);
            return Err(TransportSendError::EmergencySlotFull);
        }
        self.emergency_reserved = true;
        if !self.emergency_open {
            self.fail_emergency_locked(&frame);
            return Err(TransportSendError::LaneClosed);
        }
        self.leave(frame.session_epoch);
        self.emergency = Some(frame);
        Ok(())
    }

    /// Gives up on an emergency release: its epoch ends here and now.
    fn fail_emergency_locked(&mut self, frame: &ReliableInputFrame)
        ensures
            final(self)@ == old(self)@.fail_closed(
                frame.session_epoch,
                reason_of(*frame),
                SenderClose::EmergencySlotUnavailable,
            ),
            final(self).auth == old(self).auth,
    {
        let reason = match frame.event {
            ReliableInputEvent::ReleaseAll { reason } => reason,
            _ => ReleaseAllReason::BackendFailure,
        };
        self.fail_closed(frame.session_epoch, reason, SenderClose::EmergencySlotUnavailable);
    }

    /// Gives up on a reliable frame: its epoch is entombed and cancelled, and released
    /// through the emergency slot.
    pub fn fail_reliable_frame(&mut self, frame: ReliableInputFrame) -> (released: Result<
        (),
        TransportSendError,
    >)
        requires
            old(self)@.well_formed(),
        ensures
            (final(self)@, released) == old(self)@.after_failed_frame(frame),
            final(self)@.well_formed(),
            final(self).auth == old(self).auth,
    {
        let epoch = frame.session_epoch;
        self.entomb(epoch);
        let raise = match self.cancelled_through {
            Some(through) => through.0 < epoch.0,
            None => true,
        };
        if raise {
            self.cancelled_through = Some(epoch);
        }
        let terminal = ReliableInputFrame {
            protocol_version: frame.protocol_version,
            session_epoch: frame.session_epoch,
            sequence: frame.sequence,
            captured_at: frame.captured_at,
            event: ReliableInputEvent::ReleaseAll { reason: ReleaseAllReason::BackendFailure },
        };
        assert(self@ == old(self)@.entomb(epoch).cancel_through(epoch));
        self.try_send_emergency_locked(terminal)
    }

    /// Offers a measurement. It is lost where the lane is full or closed.
    pub fn try_send_telemetry(&mut self, frame: TelemetryFrame) -> (sent: Result<
        (),
        TransportSendError,
    >)
        requires
            old(self)@.well_formed(),
        ensures
            final(self)@.well_formed(),
            final(self).auth == old(self).auth,
            (final(self)@, sent) == old(self)@.after_telemetry(frame),
    {
        if !self.telemetry_open || self.telemetry.len() >= TELEMETRY_LANE_CAPACITY {
            return Err(TransportSendError::LaneClosed);
        }
        self.telemetry.push(frame);
        Ok(())
    }

    /// The next reliable frame to write. Frames of entombed epochs are dropped on the way.
    pub fn next_reliable(&mut self) -> (frame: Option<ReliableInputFrame>)
        requires
            old(self)@.well_formed(),
        ensures
            (final(self)@, frame) == old(self)@.after_next_reliable(),
            final(self)@.well_formed(),
            final(self).auth == old(self).auth,
            match frame {
                Some(next) => exists|k: int|
                    {
                        &&& 0 <= k < old(self)@.reliable.len()
                        &&& #[trigger] old(self)@.reliable[k] == next
                        &&& !old(self)@.entombed(next.session_epoch)
                        &&& forall|i: int|
                            0 <= i < k ==> old(self)@.entombed(
                                (#[trigger] old(self)@.reliable[i]).session_epoch,
                            )
                        &&& final(self)@ == (SenderState {
                            reliable: old(self)@.reliable.skip(k + 1),
                            ..old(self)@
                        })
                    },
                None => (forall|i: int|
                    0 <= i < old(self)@.reliable.len() ==> old(self)@.entombed(
                        (#[trigger] old(self)@.reliable[i]).session_epoch,
                    )) && final(self)@ == (SenderState { reliable: seq![], ..old(self)@ }),
            },
    {
        let ghost mut dropped: int = 0;
        assert(self@.reliable.skip(0) =~= old(self)@.reliable);
        while self.reliable.len() > 0
            invariant
                0 <= dropped <= old(self)@.reliable.len(),
                self@ == (SenderState {
                    reliable: old(self)@.reliable.skip(dropped),
                    ..old(self)@
                }),
                self.auth == old(self).auth,
                old(self)@.well_formed(),
                old(self)@.after_next_reliable() == self@.after_next_reliable(),
                forall|i: int|
                    0 <= i < dropped ==> old(self)@.entombed(
                        (#[trigger] old(self)@.reliable[i]).session_epoch,
                    ),
            decreases self.reliable@.len(),
        {
            let ghost before = self@;
            let frame = self.reliable.remove(0);
            proof {
                assert(self.reliable@ =~= before.reliable.skip(1));
                assert(self@ == (SenderState { reliable: before.reliable.skip(1), ..before }));
                assert(old(self)@.reliable.skip(dropped)[0] == old(self)@.reliable[dropped]);
                assert(self.reliable@ =~= old(self)@.reliable.skip(dropped + 1));
            }
            if !self.is_tombstoned(frame.session_epoch) {
                return Some(frame);
            }
            proof {
                dropped = dropped + 1;
            }
        }
        assert(self@.reliable =~= seq![]);
        None
    }

    /// Whether the frames of an epoch are not to be written any more, so that the stream
    /// that carries one is reset and the next frame opens another.
    pub fn is_cancelled(&self, epoch: SessionEpoch) -> (cancelled: bool)
        ensures
            cancelled == (self@.cancelled_through matches Some(through) && epoch.0 <= through.0),
    {
        match self.cancelled_through {
            Some(through) => epoch.0 <= through.0,
            None => false,
        }
    }

    /// The writer of the reliable lane has failed with this frame, and stops.
    pub fn reliable_writer_failed(&mut self, frame: ReliableInputFrame) -> (released: Result<
        (),
        TransportSendError,
    >)
        requires
            old(self)@.well_formed(),
        ensures
            (final(self)@, released) == (SenderState {
                reliable_open: false,
                ..old(self)@
            }).after_failed_frame(frame),
            final(self)@.well_formed(),
            final(self).auth == old(self).auth,
    {
        self.reliable_open = false;
        self.fail_reliable_frame(frame)
    }

    /// Takes the release out of the emergency slot. The slot stays reserved until it was
    /// written.
    pub fn take_emergency(&mut self) -> (frame: Option<ReliableInputFrame>)
        requires
            old(self)@.well_formed(),
        ensures
            frame == old(self)@.emergency,
            final(self)@ == (SenderState { emergency: None, ..old(self)@ }),
            final(self)@.well_formed(),
            final(self).auth == old(self).auth,
    {
        self.emergency.take()
    }

    /// The emergency release that was taken out was written: the slot is free again.
    pub fn emergency_written(&mut self)
        requires
            old(self)@.well_formed(),
            old(self)@.emergency is None,
        ensures
            final(self)@ == (SenderState { emergency_reserved: false, ..old(self)@ }),
            final(self)@.well_formed(),
            final(self).auth == old(self).auth,
    {
        self.emergency_reserved = false;
    }

    /// The writer of the emergency lane has failed with this frame, and stops.
    pub fn emergency_writer_failed(&mut self, frame: &ReliableInputFrame)
        requires
            old(self)@.well_formed(),
        ensures
            final(self)@ == (SenderState { emergency_open: false, ..old(self)@ }).fail_closed(
                frame.session_epoch,
                reason_of(*frame),
                SenderClose::EmergencySlotUnavailable,
            ),
            final(self)@.well_formed(),
            final(self).auth == old(self).auth,
    {
        self.emergency_open = false;
        self.fail_emergency_locked(frame);
    }

    /// The next measurement to write.
    pub fn next_telemetry(&mut self) -> (frame: Option<TelemetryFrame>)
        requires
            old(self)@.well_formed(),
        ensures
            final(self)@.well_formed(),
            final(self).auth == old(self).auth,
            match frame {
                Some(next) => old(self)@.telemetry.len() > 0 && next == old(self)@.telemetry[0]
                    && final(self)@ == (SenderState {
                    telemetry: old(self)@.telemetry.skip(1),
                    ..old(self)@
                }),
                None => old(self)@.telemetry.len() == 0 && final(self)@ == old(self)@,
            },
    {
        if self.telemetry.len() == 0 {
            return None;
        }
        let frame = self.telemetry.remove(0);
        assert(self.telemetry@ =~= old(self)@.telemetry.skip(1));
        Some(frame)
    }

    /// Takes out what has to be released, oldest first.
    pub fn take_releases(&mut self) -> (releases: Vec<TerminalRelease>)
        requires
            old(self)@.well_formed(),
        ensures
            releases@ == old(self)@.releases,
            final(self)@ == (SenderState { releases: seq![], ..old(self)@ }),
            final(self)@.well_formed(),
            final(self).auth == old(self).auth,
    {
        let mut releases: Vec<TerminalRelease> = Vec::new();
        releases.append(&mut self.releases);
        assert(releases@ =~= old(self)@.releases);
        releases
    }
}

/// What is thought of a realtime frame once its datagram was handed to the connection.
pub fn realtime_outcome(sent: bool) -> (outcome: RealtimeSendOutcome)
    ensures
        outcome == (if sent {
            RealtimeSendOutcome::Sent
        } else {
            RealtimeSendOutcome::DroppedLatest
        }),
{
    if sent {
        RealtimeSendOutcome::Sent
    } else {
        RealtimeSendOutcome::DroppedLatest
    }
}

/// Something that happens to the reliable lane of a sender.
pub enum LaneOp {
    /// A frame is offered.
    Offer(ReliableInputFrame),
    /// The writer takes the next frame.
    Take,
}

/// What a history has done to the reliable lane: where the sender stands, which frames it has
/// accepted and which were taken, in order.
#[verifier::ext_equal]
pub struct LaneHistory {
    pub state: SenderState,
    pub accepted: Seq<ReliableInputFrame>,
    pub taken: Seq<ReliableInputFrame>,
}

impl SenderState {
    /// What a history does to the reliable lane.
    pub open spec fn lane_history(self, ops: Seq<LaneOp>) -> LaneHistory
        decreases ops.len(),
    {
        if ops.len() == 0 {
            LaneHistory { state: self, accepted: seq![], taken: seq![] }
        } else {
            let before = self.lane_history(ops.drop_last());
            match ops.last() {
                LaneOp::Offer(frame) => {
                    let (state, sent) = before.state.after_reliable(frame);
                    LaneHistory {
                        state,
                        accepted: if sent is Ok {
                            before.accepted.push(frame)
                        } else {
                            before.accepted
                        },
                        taken: before.taken,
                    }
                },
                LaneOp::Take => {
                    let (state, next) = before.state.after_next_reliable();
                    LaneHistory {
                        state,
                        accepted: before.accepted,
                        taken: match next {
                            Some(frame) => before.taken.push(frame),
                            None => before.taken,
                        },
                    }
                },
            }
        }
    }
}

/// The frames whose epochs are not among those that are over.
pub open spec fn living(frames: Seq<ReliableInputFrame>, over: Set<u64>) -> Seq<
    ReliableInputFrame,
> {
    frames.filter(|frame: ReliableInputFrame| !over.contains(frame.session_epoch.0))
}

proof fn lemma_living_add(
    a: Seq<ReliableInputFrame>,
    b: Seq<ReliableInputFrame>,
    over: Set<u64>,
)
    ensures
        living(a + b, over) == living(a, over) + living(b, over),
{
    Seq::filter_distributes_over_add(
        a,
        b,
        |frame: ReliableInputFrame| !over.contains(frame.session_epoch.0),
    );
}

proof fn lemma_living_one(frame: ReliableInputFrame, over: Set<u64>)
    ensures
        living(seq![frame], over) == (if over.contains(frame.session_epoch.0) {
            seq![]
        } else {
            seq![frame]
        }),
{
    reveal(Seq::filter);
    let one = seq![frame];
    let none = Seq::<ReliableInputFrame>::empty();
    assert(one.drop_last() =~= none);
    assert(living(none, over) =~= none);
    assert(living(one, over) =~= if over.contains(frame.session_epoch.0) {
        none
    } else {
        none.push(frame)
    });
}

proof fn lemma_next_is_first(state: SenderState, over: Set<u64>)
    requires
        state.tombstones.subset_of(over),
    ensures
        ({
            let (after, next) = state.after_next_reliable();
            &&& after.tombstones == state.tombstones
            &&& living(state.reliable, over) == (match next {
                Some(frame) => living(seq![frame], over),
                None => seq![],
            }) + living(after.reliable, over)
        }),
    decreases state.reliable.len(),
{
    reveal(Seq::filter);
    if state.reliable.len() > 0 {
        let first = state.reliable[0];
        let rest = SenderState { reliable: state.reliable.skip(1), ..state };
        assert(state.reliable =~= seq![first] + rest.reliable);
        lemma_living_add(seq![first], rest.reliable, over);
        lemma_living_one(first, over);
        if state.entombed(first.session_epoch) {
            lemma_next_is_first(rest, over);
            assert(living(state.reliable, over) =~= living(rest.reliable, over));
        }
    }
}

/// The reliable lane is first in, first out: over any history, the frames that were taken,
/// followed by those that wait, are the frames that waited before and those that were accepted,
/// in the order in which they were. Left out are only frames of epochs that are over by then.
pub proof fn reliable_frames_leave_in_the_order_they_came(state: SenderState, ops: Seq<LaneOp>)
    ensures
        ({
            let history = state.lane_history(ops);
            let over = history.state.tombstones;
            living(history.taken + history.state.reliable, over) == living(
                state.reliable + history.accepted,
                over,
            )
        }),
{
    lemma_lane_history(state, ops, state.lane_history(ops).state.tombstones);
}

proof fn lemma_lane_history(state: SenderState, ops: Seq<LaneOp>, over: Set<u64>)
    requires
        state.lane_history(ops).state.tombstones.subset_of(over),
    ensures
        ({
            let history = state.lane_history(ops);
            living(history.taken + history.state.reliable, over) == living(
                state.reliable + history.accepted,
                over,
            )
        }),
    decreases ops.len(),
{
    let after = state.lane_history(ops);
    if ops.len() == 0 {
        assert(after.taken + after.state.reliable =~= state.reliable + after.accepted);
    } else {
        let before = state.lane_history(ops.drop_last());
        match ops.last() {
            LaneOp::Offer(frame) => {
                let sent = before.state.after_reliable(frame).1;
                assert(before.state.tombstones.subset_of(after.state.tombstones));
                lemma_lane_history(state, ops.drop_last(), over);
                if sent is Ok {
                    assert(after.taken + after.state.reliable =~= (before.taken
                        + before.state.reliable) + seq![frame]);
                    assert(state.reliable + after.accepted =~= (state.reliable + before.accepted)
                        + seq![frame]);
                    lemma_living_add(
                        before.taken + before.state.reliable,
                        seq![frame],
                        over,
                    );
                    lemma_living_add(state.reliable + before.accepted, seq![frame], over);
                }
            },
            LaneOp::Take => {
                lemma_next_is_first(before.state, before.state.tombstones);
                lemma_lane_history(state, ops.drop_last(), over);
                lemma_next_is_first(before.state, over);
                let next = before.state.after_next_reliable().1;
                lemma_living_add(before.taken, before.state.reliable, over);
                lemma_living_add(after.taken, after.state.reliable, over);
                if let Some(frame) = next {
                    assert(after.taken =~= before.taken + seq![frame]);
                    lemma_living_add(before.taken, seq![frame], over);
                }
                assert(living(after.taken + after.state.reliable, over) =~= living(
                    before.taken + before.state.reliable,
                    over,
                ));
            },
        }
    }
}

/// While no epoch is over nothing is left out: what was taken and what waits is exactly what
/// waited before and what was accepted, in that order.
pub proof fn no_reliable_frame_is_lost_or_overtaken(state: SenderState, ops: Seq<LaneOp>)
    requires
        state.lane_history(ops).state.tombstones == Set::<u64>::empty(),
    ensures
        ({
            let history = state.lane_history(ops);
            history.taken + history.state.reliable == state.reliable + history.accepted
        }),
{
    let history = state.lane_history(ops);
    reliable_frames_leave_in_the_order_they_came(state, ops);
    lemma_all_living(history.taken + history.state.reliable);
    lemma_all_living(state.reliable + history.accepted);
}

proof fn lemma_all_living(frames: Seq<ReliableInputFrame>)
    ensures
        living(frames, Set::empty()) == frames,
    decreases frames.len(),
{
    reveal(Seq::filter);
    if frames.len() > 0 {
        lemma_all_living(frames.drop_last());
        assert(frames.drop_last().push(frames.last()) =~= frames);
    } else {
        assert(living(frames, Set::empty()) =~= frames);
    }
}

/// Of two frames that are accepted one after the other by a sender with nothing in its lane,
/// the earlier one is taken first, and the later one after it.
pub proof fn the_earlier_frame_is_taken_first(
    state: SenderState,
    earlier: ReliableInputFrame,
    later: ReliableInputFrame,
)
    requires
        state.reliable.len() == 0,
        state.after_reliable(earlier).1 is Ok,
        state.after_reliable(earlier).0.after_reliable(later).1 is Ok,
    ensures
        ({
            let queued = state.after_reliable(earlier).0.after_reliable(later).0;
            let (rest, first) = queued.after_next_reliable();
            &&& first == Some(earlier)
            &&& rest.after_next_reliable().1 == Some(later)
        }),
{
}

/// A frame of an epoch that is not over is accepted while its lane is open and has room. It
/// waits behind all others, none of which changes. Entering makes its epoch the active one,
/// releasing the active epoch leaves none, and nothing else of the sender changes.
pub proof fn frames_are_accepted_while_there_is_room(state: SenderState, frame: ReliableInputFrame)
    requires
        state.reliable_open,
        state.reliable.len() < state.reliable_capacity,
        !state.tombstones.contains(frame.session_epoch.0),
    ensures
        ({
            let (after, sent) = state.after_reliable(frame);
            &&& sent is Ok
            &&& after.reliable.len() == state.reliable.len() + 1
            &&& forall|i: int|
                0 <= i < state.reliable.len() ==> #[trigger] after.reliable[i] == state.reliable[i]
            &&& after.reliable[state.reliable.len() as int] == frame
            &&& after.active == (match frame.event {
                ReliableInputEvent::Enter { .. } => Some(frame.session_epoch),
                ReliableInputEvent::ReleaseAll { .. } if state.active == Some(
                    frame.session_epoch,
                ) => None,
                _ => state.active,
            })
            &&& after.tombstones == state.tombstones
            &&& after.cancelled_through == state.cancelled_through
            &&& after.emergency == state.emergency
            &&& after.emergency_reserved == state.emergency_reserved
            &&& after.releases == state.releases
            &&& after.close == state.close
        }),
{
}

/// A frame for which there is no room, or whose lane is closed, is not accepted: it never
/// waits. A closed lane changes nothing.
pub proof fn refused_frames_do_not_wait(state: SenderState, frame: ReliableInputFrame)
    requires
        !state.reliable_open || state.reliable.len() >= state.reliable_capacity,
    ensures
        state.after_reliable(frame).1 is Err,
        state.after_reliable(frame).0.reliable == state.reliable,
        !state.reliable_open && !state.tombstones.contains(frame.session_epoch.0)
            ==> state.after_reliable(frame) == (
            state,
            Err::<(), TransportSendError>(TransportSendError::LaneClosed),
        ),
{
}

/// A release takes the emergency slot while that is free and open, unless it speaks of a later
/// epoch than the active one. It waits there as it came, and its own epoch is not active any
/// more.
pub proof fn emergencies_take_the_free_slot(state: SenderState, frame: ReliableInputFrame)
    requires
        frame.event is ReleaseAll,
        !state.emergency_reserved,
        state.emergency_open,
        state.active matches Some(active) ==> frame.session_epoch.0 <= active.0,
    ensures
        ({
            let (after, sent) = state.after_offered_emergency(frame);
            &&& sent is Ok
            &&& after.emergency == Some(frame)
            &&& after.emergency_reserved
            &&& after.active == (if state.active == Some(frame.session_epoch) {
                None
            } else {
                state.active
            })
            &&& after.tombstones == state.tombstones
            &&& after.reliable == state.reliable
            &&& after.releases == state.releases
            &&& after.close == state.close
        }),
{
}

/// Nothing but releases takes the emergency slot, and what is refused there for being none
/// changes nothing.
pub proof fn only_releases_are_emergencies(state: SenderState, frame: ReliableInputFrame)
    requires
        !(frame.event is ReleaseAll),
    ensures
        state.after_offered_emergency(frame) == (
            state,
            Err::<(), TransportSendError>(TransportSendError::UnsupportedMessage),
        ),
{
}

/// A release whose lane is closed is asked for directly, its epoch is over and the connection
/// given up.
pub proof fn closed_emergency_lanes_fail_closed(state: SenderState, frame: ReliableInputFrame)
    requires
        frame.event is ReleaseAll,
        !state.emergency_reserved,
        !state.emergency_open,
        state.active matches Some(active) ==> frame.session_epoch.0 <= active.0,
    ensures
        ({
            let (after, sent) = state.after_offered_emergency(frame);
            &&& sent == Err::<(), TransportSendError>(TransportSendError::LaneClosed)
            &&& after.tombstones == state.tombstones.insert(frame.session_epoch.0)
            &&& after.close == Some(SenderClose::EmergencySlotUnavailable)
            &&& after.releases.len() == state.releases.len() + 1
            &&& after.releases.last().epoch == frame.session_epoch
            &&& frame.event matches ReliableInputEvent::ReleaseAll { reason }
                && after.releases.last().reason == reason
        }),
{
}

/// A frame that cannot be sent ends its epoch: the epoch is over, it and every earlier one are
/// cancelled and none that was cancelled is taken up again, and a release of it, with the
/// frame's own numbers, takes the emergency slot or is asked for directly.
pub proof fn failed_frames_end_their_epoch(state: SenderState, frame: ReliableInputFrame)
    ensures
        ({
            let (after, released) = state.after_failed_frame(frame);
            &&& after.tombstones == state.tombstones.insert(frame.session_epoch.0)
            &&& after.active != Some(frame.session_epoch)
            &&& after.reliable == state.reliable
            &&& after.cancelled_through matches Some(through) && through.0
                >= frame.session_epoch.0 && (through == frame.session_epoch
                || state.cancelled_through == Some(through))
            &&& state.cancelled_through matches Some(before) ==> after.cancelled_through->Some_0.0
                >= before.0
            &&& !state.emergency_reserved && state.emergency_open ==> released is Ok
                && after.releases == state.releases && after.close == state.close && (
            after.emergency matches Some(release) && release.session_epoch == frame.session_epoch
                && release.sequence == frame.sequence && release.protocol_version
                == frame.protocol_version && release.captured_at == frame.captured_at
                && release.event == (ReliableInputEvent::ReleaseAll {
                reason: ReleaseAllReason::BackendFailure,
            }))
            &&& state.emergency_reserved || !state.emergency_open ==> released is Err
                && after.emergency == state.emergency && after.close is Some
                && after.releases.last() == (TerminalRelease {
                epoch: frame.session_epoch,
                reason: ReleaseAllReason::BackendFailure,
            })
        }),
{
}

/// A measurement waits behind all others while its lane is open and has room, and is lost
/// otherwise. Nothing else of the sender changes.
pub proof fn measurements_wait_in_order(state: SenderState, frame: TelemetryFrame)
    ensures
        ({
            let (after, sent) = state.after_telemetry(frame);
            &&& sent is Ok <==> state.telemetry_open && state.telemetry.len()
                < TELEMETRY_LANE_CAPACITY
            &&& sent is Ok ==> after.telemetry.len() == state.telemetry.len() + 1
                && after.telemetry.last() == frame
            &&& sent is Err ==> after == state
            &&& forall|i: int|
                0 <= i < state.telemetry.len() ==> #[trigger] after.telemetry[i]
                    == state.telemetry[i]
            &&& after.reliable == state.reliable
            &&& after.tombstones == state.tombstones
            &&& after.releases == state.releases
        }),
{
}

/// Realtime input of an epoch that is not over goes out as a datagram of which the other end
/// reads that very input and no other.
pub proof fn realtime_input_goes_out_as_it_is(
    state: SenderState,
    frame: RealtimeInputFrame,
    datagram: Result<Option<Bytes>, TransportSendError>,
    read: RealtimeInputFrame,
)
    requires
        state.is_datagram(frame, datagram),
        !state.tombstones.contains(frame.session_epoch.0),
        frame.protocol_version == INPUT_PROTOCOL_VERSION,
        read.protocol_version == INPUT_PROTOCOL_VERSION,
    ensures
        datagram matches Ok(Some(bytes)) && realtime_fault(frozen(bytes)) is None && (
        realtime_bytes(read) == frozen(bytes) ==> read == frame),
{
    realtime_encoding_is_accepted(frame);
    if realtime_bytes(read) == realtime_bytes(frame) {
        realtime_encoding_is_injective(read, frame);
    }
}

/// An epoch that is over takes no more reliable frames, and refusing one changes nothing.
pub proof fn entombed_epochs_take_no_frames(state: SenderState, frame: ReliableInputFrame)
    requires
        state.entombed(frame.session_epoch),
    ensures
        state.after_reliable(frame) == (
            state,
            Err::<(), TransportSendError>(TransportSendError::UnsupportedMessage),
        ),
{
}

/// A frame that overflows its lane ends its epoch before anything is released: the epoch
/// is entombed and cancelled, and its release sits in the emergency slot or is asked for
/// directly. The frame itself is never queued.
pub proof fn overflow_ends_the_epoch(state: SenderState, frame: ReliableInputFrame)
    requires
        state.well_formed(),
        !state.entombed(frame.session_epoch),
        state.reliable_open,
        state.reliable.len() == state.reliable_capacity,
    ensures
        ({
            let (after, sent) = state.after_reliable(frame);
            &&& after.entombed(frame.session_epoch)
            &&& after.cancelled_through matches Some(through) && frame.session_epoch.0 <= through.0
            &&& after.reliable == state.reliable
            &&& !state.emergency_reserved && state.emergency_open ==> after.emergency == Some(
                terminal_of(frame),
            ) && sent == Err::<(), TransportSendError>(TransportSendError::ReliableLaneFull)
            &&& state.emergency_reserved || !state.emergency_open ==> after.releases
                == state.releases.push(
                TerminalRelease {
                    epoch: frame.session_epoch,
                    reason: ReleaseAllReason::BackendFailure,
                },
            ) && after.close is Some
        }),
{
}

/// An emergency release that finds its slot taken fails closed: the epoch is entombed,
/// the connection given up and the release asked for with the reason it carried.
pub proof fn taken_slot_fails_closed(state: SenderState, frame: ReliableInputFrame)
    requires
        state.well_formed(),
        state.emergency_reserved,
        frame.event is ReleaseAll,
        !(state.active matches Some(active) && frame.session_epoch.0 > active.0),
    ensures
        ({
            let (after, sent) = state.after_offered_emergency(frame);
            &&& sent == Err::<(), TransportSendError>(TransportSendError::EmergencySlotFull)
            &&& after.entombed(frame.session_epoch)
            &&& after.close == Some(SenderClose::EmergencySlotUnavailable)
            &&& after.releases == state.releases.push(
                TerminalRelease { epoch: frame.session_epoch, reason: reason_of(frame) },
            )
            &&& after.emergency == state.emergency
        }),
{
}

/// An emergency release of an epoch that was not entered ends the epoch that was, and
/// leaves the other alone.
pub proof fn future_emergency_ends_the_active_epoch(
    state: SenderState,
    active: SessionEpoch,
    frame: ReliableInputFrame,
)
    requires
        state.well_formed(),
        state.active == Some(active),
        frame.event is ReleaseAll,
        frame.session_epoch.0 > active.0,
    ensures
        ({
            let (after, sent) = state.after_offered_emergency(frame);
            &&& sent == Err::<(), TransportSendError>(TransportSendError::UnsupportedMessage)
            &&& after.entombed(active)
            &&& after.entombed(frame.session_epoch) == state.entombed(frame.session_epoch)
            &&& after.close == Some(SenderClose::FutureEmergency)
            &&& after.releases == state.releases.push(
                TerminalRelease { epoch: active, reason: ReleaseAllReason::BackendFailure },
            )
        }),
{
}

/// An epoch whose release was taken, by the lane or by the slot, has ended: a release of a
/// later epoch does not end it again, and finds the slot as any other does.
pub proof fn released_epochs_are_not_ended_again(
    state: SenderState,
    release: ReliableInputFrame,
    later: ReliableInputFrame,
)
    requires
        release.event is ReleaseAll,
        later.event is ReleaseAll,
        state.active matches Some(active) ==> active == release.session_epoch,
    ensures
        ({
            let (after, sent) = state.after_reliable(release);
            sent is Ok ==> after.active is None && after.after_offered_emergency(later)
                == after.after_emergency(later)
        }),
        ({
            let (after, sent) = state.after_offered_emergency(release);
            sent is Ok ==> after.active is None && after.after_offered_emergency(later)
                == after.after_emergency(later)
        }),
{
}

/// No operation forgets that an epoch is over.
pub proof fn tombstones_only_grow(state: SenderState, frame: ReliableInputFrame, epoch: SessionEpoch)
    requires
        state.entombed(epoch),
    ensures
        state.after_reliable(frame).0.entombed(epoch),
        state.after_offered_emergency(frame).0.entombed(epoch),
        state.after_failed_frame(frame).0.entombed(epoch),
{
}

} // verus!
