//! Which input a peer's connection may deliver.
//!
//! A peer owns input for one epoch at a time. Entering an epoch makes it active;
//! leaving, failing or being displaced retires it, and everything up to it, for good.

use vstd::prelude::*;

use crate::types::{
    ControlConnectionId, RealtimeInputFrame, ReleaseAllReason, ReliableFrameView,
    ReliableInputEvent, ReliableInputFrame, SessionEpoch,
};

verus! {

/// An epoch of one authenticated connection.
pub type EpochKey = (ControlConnectionId, SessionEpoch);

/// What the receiving side of a connection knows of its peer's input.
#[derive(Debug, Clone, Copy, PartialEq, Eq)]
pub struct QosInboundState {
    /// The epoch that may deliver, with the sequence number of its last reliable frame.
    pub active: Option<(ControlConnectionId, SessionEpoch, u64)>,
    /// The epoch up to which everything is retired.
    pub retired_through: Option<(ControlConnectionId, SessionEpoch)>,
    /// The last realtime sequence number, and the epoch it belongs to.
    pub realtime_last: Option<((ControlConnectionId, SessionEpoch), u64)>,
}

/// What becomes of a reliable frame.
#[derive(Debug, Clone, Copy, PartialEq, Eq, Structural)]
pub enum ReliableAccept {
    /// It is delivered.
    Accepted,
    /// It is delivered, and the epoch that it displaced is released.
    EpochAdvanced { retired: SessionEpoch },
    /// It belongs to an epoch that was displaced, and is dropped.
    RetiredEpoch,
    /// It breaks the protocol; `epoch` is released and the connection closed.
    CurrentViolation { epoch: SessionEpoch },
}

/// What becomes of an emergency release.
#[derive(Debug, Clone, Copy, PartialEq, Eq, Structural)]
pub enum EmergencyDisposition {
    /// It speaks of a displaced epoch.
    Ignore,
    /// It is delivered, and the epoch is released for the given reason.
    Release(SessionEpoch, ReleaseAllReason),
    /// It breaks the protocol; the epoch is released and the connection closed.
    Violation(SessionEpoch),
}

/// What becomes of a reliable stream that its sender cancelled.
#[derive(Debug, Clone, Copy, PartialEq, Eq, Structural)]
pub enum CancelOutcome {
    /// Nothing depends on the stream any more.
    Harmless,
    /// The epoch of the stream is released.
    Release(SessionEpoch),
    /// The stream belongs to no epoch that is known; it has failed.
    Unknown,
}

/// What becomes of a connection one of whose reliable streams has failed.
#[derive(Debug, Clone, Copy, PartialEq, Eq, Structural)]
pub enum StreamFailure {
    /// The stream belonged to a retired epoch: the connection goes on.
    Ignore,
    /// The connection closes, and the active epoch is released if it was the stream's.
    Close { release: Option<SessionEpoch> },
}

impl QosInboundState {
    /// Whether an epoch is retired.
    pub open spec fn retired(self, key: EpochKey) -> bool {
        self.retired_through matches Some((generation, epoch)) && generation == key.0 && key.1.0
            <= epoch.0
    }

    /// The state with an epoch, and everything up to it, retired.
    pub open spec fn retire(self, key: EpochKey) -> QosInboundState {
        QosInboundState {
            active: self.active,
            retired_through: match self.retired_through {
                Some((generation, epoch)) => if generation != key.0 || key.1.0 > epoch.0 {
                    Some(key)
                } else {
                    self.retired_through
                },
                None => Some(key),
            },
            realtime_last: match self.realtime_last {
                Some((last_key, _)) => if last_key.0 == key.0 && last_key.1.0 <= key.1.0 {
                    None
                } else {
                    self.realtime_last
                },
                None => None,
            },
        }
    }

    /// The state in which no epoch is active.
    pub open spec fn idle(self) -> QosInboundState {
        QosInboundState { active: None, ..self }
    }

    /// Whether an epoch is active.
    pub open spec fn is_active(self, key: EpochKey) -> bool {
        self.active matches Some((generation, epoch, _)) && generation == key.0 && epoch == key.1
    }

    /// Whether a later epoch of the same connection is active.
    pub open spec fn superseded(self, key: EpochKey) -> bool {
        self.active matches Some((generation, epoch, _)) && generation == key.0 && epoch.0
            > key.1.0
    }

    /// Whether `sequence` is the next one of the active epoch, and that epoch is `key`.
    pub open spec fn continues(self, key: EpochKey, sequence: u64) -> bool {
        self.active matches Some((generation, epoch, last)) && generation == key.0 && epoch
            == key.1 && last + 1 == sequence
    }

    /// What a reliable frame does to the state, and what becomes of it.
    pub open spec fn after_reliable(
        self,
        connection_id: ControlConnectionId,
        frame: ReliableFrameView,
    ) -> (QosInboundState, ReliableAccept) {
        let key = (connection_id, frame.session_epoch);
        let entered = Some((connection_id, frame.session_epoch, frame.sequence));
        let enters = frame.event is Enter;
        if self.retired(key) {
            if self.superseded(key) {
                (self, ReliableAccept::RetiredEpoch)
            } else {
                (self, ReliableAccept::CurrentViolation { epoch: frame.session_epoch })
            }
        } else if enters && self.active is None {
            (QosInboundState { active: entered, ..self }, ReliableAccept::Accepted)
        } else if enters && self.active->Some_0.0 == connection_id && frame.session_epoch.0
            > self.active->Some_0.1.0 {
            let displaced = self.active->Some_0.1;
            (
                QosInboundState { active: entered, ..self.retire((connection_id, displaced)) },
                ReliableAccept::EpochAdvanced { retired: displaced },
            )
        } else if !enters && self.continues(key, frame.sequence) {
            if frame.event is ReleaseAll {
                (self.retire(key).idle(), ReliableAccept::Accepted)
            } else {
                (QosInboundState { active: entered, ..self }, ReliableAccept::Accepted)
            }
        } else {
            let epoch = match self.active {
                Some((_, active_epoch, _)) => active_epoch,
                None => frame.session_epoch,
            };
            (
                self.retire((connection_id, epoch)).idle(),
                ReliableAccept::CurrentViolation { epoch },
            )
        }
    }

    /// Whether a realtime frame is delivered.
    pub open spec fn admits_realtime(self, key: EpochKey, sequence: u64) -> bool {
        &&& !self.retired(key)
        &&& self.is_active(key)
        &&& self.realtime_last matches Some((last_key, last)) ==> last_key != key || sequence > last
    }

    /// What a realtime frame does to the state.
    pub open spec fn after_realtime(self, key: EpochKey, sequence: u64) -> QosInboundState {
        if self.admits_realtime(key, sequence) {
            QosInboundState { realtime_last: Some((key, sequence)), ..self }
        } else {
            self
        }
    }

    /// What an emergency release does to the state, and what becomes of it.
    pub open spec fn after_emergency(self, key: EpochKey, reason: ReleaseAllReason) -> (
        QosInboundState,
        EmergencyDisposition,
    ) {
        if self.retired(key) {
            if self.superseded(key) {
                (self, EmergencyDisposition::Ignore)
            } else {
                (self, EmergencyDisposition::Violation(key.1))
            }
        } else if self.active is None || self.is_active(key) {
            (self.retire(key).idle(), EmergencyDisposition::Release(key.1, reason))
        } else {
            let (generation, epoch, _) = self.active->Some_0;
            (
                self.retire((generation, epoch)).idle(),
                EmergencyDisposition::Violation(epoch),
            )
        }
    }

    /// What the failed delivery of an epoch's frame does to the state.
    pub open spec fn after_failed_delivery(self, key: EpochKey) -> QosInboundState {
        if self.is_active(key) {
            self.retire(key).idle()
        } else {
            self.retire(key)
        }
    }

    /// What a cancelled reliable stream does to the state, and what becomes of it.
    pub open spec fn after_cancel(
        self,
        connection_id: ControlConnectionId,
        stream_epoch: Option<SessionEpoch>,
    ) -> (QosInboundState, CancelOutcome) {
        match stream_epoch {
            None => (self, CancelOutcome::Harmless),
            Some(epoch) => {
                let key = (connection_id, epoch);
                if self.retired(key) || self.superseded(key) {
                    (self, CancelOutcome::Harmless)
                } else if self.is_active(key) {
                    (self.retire(key).idle(), CancelOutcome::Release(epoch))
                } else {
                    (self, CancelOutcome::Unknown)
                }
            },
        }
    }

    /// What the failure of a reliable stream does to the state, and to the connection.
    pub open spec fn after_stream_failure(
        self,
        connection_id: ControlConnectionId,
        stream_epoch: Option<SessionEpoch>,
    ) -> (QosInboundState, StreamFailure) {
        match stream_epoch {
            None => (self, StreamFailure::Close { release: None }),
            Some(epoch) => {
                let key = (connection_id, epoch);
                if self.is_active(key) {
                    (self.retire(key).idle(), StreamFailure::Close { release: Some(epoch) })
                } else if self.retired(key) {
                    (self, StreamFailure::Ignore)
                } else {
                    (self, StreamFailure::Close { release: None })
                }
            },
        }
    }

    /// What the end of a connection does to the state, and the epoch to release.
    pub open spec fn after_close(self, connection_id: ControlConnectionId) -> (
        QosInboundState,
        Option<SessionEpoch>,
    ) {
        match self.active {
            Some((generation, epoch, _)) => if generation == connection_id {
                (self.retire((generation, epoch)).idle(), Some(epoch))
            } else {
                (self, None)
            },
            None => (self, None),
        }
    }

    /// What holds of the state of one connection: it speaks of that connection alone, the
    /// active epoch is not retired, and realtime input belongs to the active epoch.
    pub open spec fn well_formed(self, connection_id: ControlConnectionId) -> bool {
        &&& self.active matches Some((generation, epoch, _)) ==> generation == connection_id
            && !self.retired((generation, epoch))
        &&& self.retired_through matches Some((generation, _)) ==> generation == connection_id
        &&& self.realtime_last matches Some((key, _)) ==> self.is_active(key)
    }
}

impl Default for QosInboundState {
    /// Nothing active, nothing retired.
    fn default() -> (state: Self)
        ensures
            state.active is None,
            state.retired_through is None,
            state.realtime_last is None,
            forall|connection_id: ControlConnectionId| state.well_formed(connection_id),
    {
        QosInboundState { active: None, retired_through: None, realtime_last: None }
    }
}

/// Whether an epoch is retired.
pub fn inbound_epoch_retired(state: &QosInboundState, key: EpochKey) -> (retired: bool)
    ensures
        retired == state.retired(key),
{
    match state.retired_through {
        Some((generation, epoch)) => generation == key.0 && key.1.0 <= epoch.0,
        None => false,
    }
}

/// Retires an epoch and everything up to it.
pub fn retire_inbound_epoch(state: &mut QosInboundState, key: EpochKey)
    ensures
        *final(state) == old(state).retire(key),
{
    let raise = match state.retired_through {
        Some((generation, epoch)) => generation != key.0 || key.1.0 > epoch.0,
        None => true,
    };
    if raise {
        state.retired_through = Some(key);
    }
    let forget = match state.realtime_last {
        Some((last_key, _)) => last_key.0 == key.0 && last_key.1.0 <= key.1.0,
        None => false,
    };
    if forget {
        state.realtime_last = None;
    }
}

/// Decides on a reliable frame.
pub fn accept_reliable_state(
    state: &mut QosInboundState,
    connection_id: ControlConnectionId,
    frame: &ReliableInputFrame,
) -> (accept: ReliableAccept)
    ensures
        (*final(state), accept) == old(state).after_reliable(connection_id, frame@),
{
    let key = (connection_id, frame.session_epoch);
    if inbound_epoch_retired(state, key) {
        let superseded = match state.active {
            Some((generation, active_epoch, _)) => generation == connection_id && active_epoch.0
                > frame.session_epoch.0,
            None => false,
        };
        if superseded {
            return ReliableAccept::RetiredEpoch;
        }
        return ReliableAccept::CurrentViolation { epoch: frame.session_epoch };
    }
    let epoch = match state.active {
        Some((_, active_epoch, _)) => active_epoch,
        None => frame.session_epoch,
    };
    match &frame.event {
        ReliableInputEvent::Enter { .. } => {
            match state.active {
                Some((generation, active_epoch, _)) => {
                    if generation == connection_id && frame.session_epoch.0 > active_epoch.0 {
                        retire_inbound_epoch(state, (generation, active_epoch));
                        state.active = Some((connection_id, frame.session_epoch, frame.sequence));
                        return ReliableAccept::EpochAdvanced { retired: active_epoch };
                    }
                    retire_inbound_epoch(state, (connection_id, epoch));
                    state.active = None;
                    ReliableAccept::CurrentViolation { epoch }
                },
                None => {
                    state.active = Some((connection_id, frame.session_epoch, frame.sequence));
                    ReliableAccept::Accepted
                },
            }
        },
        event => {
            let valid = match state.active {
                Some((generation, active_epoch, last)) => generation == connection_id
                    && active_epoch == frame.session_epoch && last != u64::MAX && frame.sequence
                    == last + 1,
                None => false,
            };
            if !valid {
                retire_inbound_epoch(state, (connection_id, epoch));
                state.active = None;
                return ReliableAccept::CurrentViolation { epoch };
            }
            match event {
                ReliableInputEvent::ReleaseAll { .. } => {
                    retire_inbound_epoch(state, key);
                    state.active = None;
                },
                _ => {
                    state.active = Some((connection_id, frame.session_epoch, frame.sequence));
                },
            }
            ReliableAccept::Accepted
        },
    }
}

/// Decides on a realtime frame: only newer frames of the active epoch are delivered.
pub fn accept_qos_realtime(
    state: &mut QosInboundState,
    connection_id: ControlConnectionId,
    frame: &RealtimeInputFrame,
) -> (accepted: bool)
    ensures
        accepted == old(state).admits_realtime(
            (connection_id, frame.session_epoch),
            frame.sequence,
        ),
        *final(state) == old(state).after_realtime(
            (connection_id, frame.session_epoch),
            frame.sequence,
        ),
{
    let key = (connection_id, frame.session_epoch);
    let active = match state.active {
        Some((generation, epoch, _)) => generation == key.0 && epoch == key.1,
        None => false,
    };
    if inbound_epoch_retired(state, key) || !active {
        return false;
    }
    let stale = match state.realtime_last {
        Some((last_key, last)) => last_key.0 == key.0 && last_key.1 == key.1 && frame.sequence
            <= last,
        None => false,
    };
    if stale {
        return false;
    }
    state.realtime_last = Some((key, frame.sequence));
    true
}

/// Decides on an emergency release.
pub fn dispose_emergency(
    state: &mut QosInboundState,
    connection_id: ControlConnectionId,
    epoch: SessionEpoch,
    reason: ReleaseAllReason,
) -> (disposition: EmergencyDisposition)
    ensures
        (*final(state), disposition) == old(state).after_emergency((connection_id, epoch), reason),
{
    let key = (connection_id, epoch);
    if inbound_epoch_retired(state, key) {
        return match state.active {
            Some((generation, active_epoch, _)) => if generation == connection_id && active_epoch.0
                > epoch.0 {
                EmergencyDisposition::Ignore
            } else {
                EmergencyDisposition::Violation(epoch)
            },
            None => EmergencyDisposition::Violation(epoch),
        };
    }
    match state.active {
        Some((generation, active_epoch, _)) => {
            retire_inbound_epoch(state, (generation, active_epoch));
            state.active = None;
            if generation == connection_id && active_epoch == epoch {
                EmergencyDisposition::Release(epoch, reason)
            } else {
                EmergencyDisposition::Violation(active_epoch)
            }
        },
        None => {
            retire_inbound_epoch(state, key);
            EmergencyDisposition::Release(epoch, reason)
        },
    }
}

/// Gives up on an epoch one of whose frames nobody takes. The epoch is released and the
/// connection closed.
pub fn fail_close_reliable_delivery(
    state: &mut QosInboundState,
    connection_id: ControlConnectionId,
    epoch: SessionEpoch,
)
    ensures
        *final(state) == old(state).after_failed_delivery((connection_id, epoch)),
{
    retire_inbound_epoch(state, (connection_id, epoch));
    match state.active {
        Some((generation, active_epoch, _)) => {
            if generation == connection_id && active_epoch == epoch {
                state.active = None;
            }
        },
        None => {},
    }
}

/// Decides on a reliable stream that its sender cancelled.
pub fn handle_terminal_cancel_reset(
    state: &mut QosInboundState,
    connection_id: ControlConnectionId,
    stream_epoch: Option<SessionEpoch>,
) -> (outcome: CancelOutcome)
    ensures
        (*final(state), outcome) == old(state).after_cancel(connection_id, stream_epoch),
{
    let stream_epoch = match stream_epoch {
        Some(epoch) => epoch,
        None => {
            return CancelOutcome::Harmless;
        },
    };
    let key = (connection_id, stream_epoch);
    if inbound_epoch_retired(state, key) {
        return CancelOutcome::Harmless;
    }
    match state.active {
        Some((generation, epoch, _)) => {
            if generation == connection_id && epoch == stream_epoch {
                retire_inbound_epoch(state, key);
                state.active = None;
                CancelOutcome::Release(stream_epoch)
            } else if generation == connection_id && epoch.0 > stream_epoch.0 {
                CancelOutcome::Harmless
            } else {
                CancelOutcome::Unknown
            }
        },
        None => CancelOutcome::Unknown,
    }
}

/// Decides on a reliable stream that has failed.
pub fn fail_close_active_qos(
    state: &mut QosInboundState,
    connection_id: ControlConnectionId,
    stream_epoch: Option<SessionEpoch>,
) -> (failure: StreamFailure)
    ensures
        (*final(state), failure) == old(state).after_stream_failure(connection_id, stream_epoch),
{
    let stream_epoch = match stream_epoch {
        Some(epoch) => epoch,
        None => {
            return StreamFailure::Close { release: None };
        },
    };
    let key = (connection_id, stream_epoch);
    let active = match state.active {
        Some((generation, epoch, _)) => generation == connection_id && epoch == stream_epoch,
        None => false,
    };
    if active {
        retire_inbound_epoch(state, key);
        state.active = None;
        StreamFailure::Close { release: Some(stream_epoch) }
    } else if inbound_epoch_retired(state, key) {
        StreamFailure::Ignore
    } else {
        StreamFailure::Close { release: None }
    }
}

/// Retires the active epoch of a connection that ends, and hands it out to be released.
pub fn fail_close_current_qos_generation(
    state: &mut QosInboundState,
    connection_id: ControlConnectionId,
) -> (release: Option<SessionEpoch>)
    ensures
        (*final(state), release) == old(state).after_close(connection_id),
{
    match state.active {
        Some((generation, epoch, _)) => {
            if generation == connection_id {
                retire_inbound_epoch(state, (generation, epoch));
                state.active = None;
                Some(epoch)
            } else {
                None
            }
        },
        None => None,
    }
}

/// Anything that can happen to the state of a connection.
pub enum InboundOp {
    Reliable(ReliableFrameView),
    Realtime(SessionEpoch, u64),
    Emergency(SessionEpoch, ReleaseAllReason),
    FailedDelivery(SessionEpoch),
    Cancel(Option<SessionEpoch>),
    StreamFailure(Option<SessionEpoch>),
    Close,
}

impl QosInboundState {
    /// The state after something happened on connection `id`.
    pub open spec fn after(self, id: ControlConnectionId, op: InboundOp) -> QosInboundState {
        match op {
            InboundOp::Reliable(frame) => self.after_reliable(id, frame).0,
            InboundOp::Realtime(epoch, sequence) => self.after_realtime((id, epoch), sequence),
            InboundOp::Emergency(epoch, reason) => self.after_emergency((id, epoch), reason).0,
            InboundOp::FailedDelivery(epoch) => self.after_failed_delivery((id, epoch)),
            InboundOp::Cancel(stream_epoch) => self.after_cancel(id, stream_epoch).0,
            InboundOp::StreamFailure(stream_epoch) => self.after_stream_failure(
                id,
                stream_epoch,
            ).0,
            InboundOp::Close => self.after_close(id).0,
        }
    }

    /// The state after a history of such events, oldest first.
    pub open spec fn after_all(self, id: ControlConnectionId, ops: Seq<InboundOp>) -> QosInboundState
        decreases ops.len(),
    {
        if ops.len() == 0 {
            self
        } else {
            self.after_all(id, ops.drop_last()).after(id, ops.last())
        }
    }

    /// Whether something can happen now. A delivery fails only of a frame that was taken
    /// for delivery, and then no earlier epoch is active any more.
    pub open spec fn allows(self, id: ControlConnectionId, op: InboundOp) -> bool {
        op matches InboundOp::FailedDelivery(epoch) ==> !(self.active matches Some((_, active, _))
            && active.0 < epoch.0)
    }

    /// Whether each event of a history can happen where it stands.
    pub open spec fn allows_all(self, id: ControlConnectionId, ops: Seq<InboundOp>) -> bool {
        forall|i: int| 0 <= i < ops.len() ==> self.before(id, ops, i).allows(id, #[trigger] ops[i])
    }

    /// The state just before the event at `i` of a history.
    pub open spec fn before(
        self,
        id: ControlConnectionId,
        ops: Seq<InboundOp>,
        i: int,
    ) -> QosInboundState {
        self.after_all(id, ops.take(i))
    }

    /// Whether the event at `i` of a history is a reliable frame that is delivered.
    pub open spec fn delivers_reliable(
        self,
        id: ControlConnectionId,
        ops: Seq<InboundOp>,
        i: int,
    ) -> bool {
        ops[i] matches InboundOp::Reliable(frame) && match self.before(id, ops, i).after_reliable(
            id,
            frame,
        ).1 {
            ReliableAccept::Accepted | ReliableAccept::EpochAdvanced { .. } => true,
            _ => false,
        }
    }

    /// Whether the event at `i` of a history is a realtime frame that is delivered.
    pub open spec fn delivers_realtime(
        self,
        id: ControlConnectionId,
        ops: Seq<InboundOp>,
        i: int,
    ) -> bool {
        ops[i] matches InboundOp::Realtime(epoch, sequence) && self.before(
            id,
            ops,
            i,
        ).admits_realtime((id, epoch), sequence)
    }
}

/// Whatever happens keeps the state of a connection well-formed, and what is retired
/// stays retired.
pub proof fn events_keep_well_formed(
    state: QosInboundState,
    id: ControlConnectionId,
    op: InboundOp,
)
    requires
        state.well_formed(id),
        state.allows(id, op),
    ensures
        state.after(id, op).well_formed(id),
        forall|key: EpochKey| state.retired(key) ==> state.after(id, op).retired(key),
{
}

/// Over any history, the state stays well-formed and what is retired stays retired.
pub proof fn histories_keep_well_formed(
    state: QosInboundState,
    id: ControlConnectionId,
    ops: Seq<InboundOp>,
)
    requires
        state.well_formed(id),
        state.allows_all(id, ops),
    ensures
        state.after_all(id, ops).well_formed(id),
        forall|key: EpochKey| state.retired(key) ==> state.after_all(id, ops).retired(key),
    decreases ops.len(),
{
    if ops.len() > 0 {
        let n = ops.len() - 1;
        assert(ops.drop_last() =~= ops.take(n));
        lemma_allowed_prefix(state, id, ops, n);
        histories_keep_well_formed(state, id, ops.drop_last());
        assert(ops[n] == ops.last());
        events_keep_well_formed(state.after_all(id, ops.drop_last()), id, ops.last());
    }
}

proof fn lemma_allowed_prefix(
    state: QosInboundState,
    id: ControlConnectionId,
    ops: Seq<InboundOp>,
    n: int,
)
    requires
        state.allows_all(id, ops),
        0 <= n <= ops.len(),
    ensures
        state.allows_all(id, ops.take(n)),
{
    assert forall|i: int| 0 <= i < n implies state.before(id, ops.take(n), i).allows(
        id,
        #[trigger] ops.take(n)[i],
    ) by {
        assert(ops.take(n).take(i) =~= ops.take(i));
        assert(ops.take(n)[i] == ops[i]);
    }
}

proof fn lemma_well_formed_before(
    state: QosInboundState,
    id: ControlConnectionId,
    ops: Seq<InboundOp>,
    i: int,
)
    requires
        state.well_formed(id),
        state.allows_all(id, ops),
        0 <= i <= ops.len(),
    ensures
        state.before(id, ops, i).well_formed(id),
{
    lemma_allowed_prefix(state, id, ops, i);
    histories_keep_well_formed(state, id, ops.take(i));
}

/// A retired epoch is never active again, whatever happens.
pub proof fn retired_epochs_stay_inactive(
    state: QosInboundState,
    id: ControlConnectionId,
    ops: Seq<InboundOp>,
    epoch: SessionEpoch,
)
    requires
        state.well_formed(id),
        state.allows_all(id, ops),
        state.retired((id, epoch)),
    ensures
        !state.after_all(id, ops).is_active((id, epoch)),
{
    histories_keep_well_formed(state, id, ops);
}

/// A frame of a retired epoch never changes the state, so it can not disturb the epoch
/// that is active; and while a later epoch is active it is dropped in silence.
pub proof fn retired_frames_are_inert(
    state: QosInboundState,
    id: ControlConnectionId,
    frame: ReliableFrameView,
)
    requires
        state.retired((id, frame.session_epoch)),
    ensures
        state.after_reliable(id, frame).0 == state,
        state.superseded((id, frame.session_epoch)) ==> state.after_reliable(id, frame).1
            == ReliableAccept::RetiredEpoch,
        !state.superseded((id, frame.session_epoch)) ==> state.after_reliable(id, frame).1 == (
        ReliableAccept::CurrentViolation { epoch: frame.session_epoch }),
{
}

/// After the last sequence number nothing follows: the frame that comes next fails closed.
pub proof fn exhausted_sequence_fails_closed(
    state: QosInboundState,
    id: ControlConnectionId,
    frame: ReliableFrameView,
)
    requires
        state.well_formed(id),
        state.active == Some((id, frame.session_epoch, u64::MAX)),
        !(frame.event is Enter),
    ensures
        state.after_reliable(id, frame).1 == (ReliableAccept::CurrentViolation {
            epoch: frame.session_epoch,
        }),
        state.after_reliable(id, frame).0.active is None,
        state.after_reliable(id, frame).0.retired((id, frame.session_epoch)),
{
}

/// The active epoch is retired before anybody is told to release it: wherever a decision
/// asks for a release, that epoch is retired in the state it leaves, or was before.
pub proof fn releases_follow_retirement(
    state: QosInboundState,
    id: ControlConnectionId,
    frame: ReliableFrameView,
    epoch: SessionEpoch,
    reason: ReleaseAllReason,
    stream_epoch: Option<SessionEpoch>,
)
    requires
        state.well_formed(id),
    ensures
        match state.after_reliable(id, frame).1 {
            ReliableAccept::EpochAdvanced { retired } => state.after_reliable(id, frame).0.retired(
                (id, retired),
            ),
            ReliableAccept::CurrentViolation { epoch } => state.after_reliable(id, frame).0.retired(
                (id, epoch),
            ),
            _ => true,
        },
        match state.after_emergency((id, epoch), reason).1 {
            EmergencyDisposition::Release(e, _) => state.after_emergency(
                (id, epoch),
                reason,
            ).0.retired((id, e)),
            EmergencyDisposition::Violation(e) => state.after_emergency(
                (id, epoch),
                reason,
            ).0.retired((id, e)),
            EmergencyDisposition::Ignore => true,
        },
        state.after_cancel(id, stream_epoch).1 matches CancelOutcome::Release(e)
            ==> state.after_cancel(id, stream_epoch).0.retired((id, e)),
        state.after_stream_failure(id, stream_epoch).1 matches StreamFailure::Close {
            release: Some(e),
        } ==> state.after_stream_failure(id, stream_epoch).0.retired((id, e)),
        state.after_close(id).1 matches Some(e) ==> state.after_close(id).0.retired((id, e)),
        state.after_failed_delivery((id, epoch)).retired((id, epoch)),
{
}

/// The state has moved past `(epoch, sequence)`: nothing up to there can be delivered
/// on the reliable lane any more.
pub open spec fn past_reliable(
    state: QosInboundState,
    id: ControlConnectionId,
    epoch: SessionEpoch,
    sequence: u64,
) -> bool {
    ||| state.retired((id, epoch))
    ||| state.active matches Some((generation, active_epoch, last)) && generation == id && (
    active_epoch.0 > epoch.0 || (active_epoch == epoch && last >= sequence))
}

proof fn lemma_past_reliable_step(
    state: QosInboundState,
    id: ControlConnectionId,
    op: InboundOp,
    epoch: SessionEpoch,
    sequence: u64,
)
    requires
        state.well_formed(id),
        state.allows(id, op),
        past_reliable(state, id, epoch, sequence),
    ensures
        past_reliable(state.after(id, op), id, epoch, sequence),
{
}

proof fn lemma_past_reliable(
    state: QosInboundState,
    id: ControlConnectionId,
    ops: Seq<InboundOp>,
    i: int,
    j: int,
    epoch: SessionEpoch,
    sequence: u64,
)
    requires
        state.well_formed(id),
        state.allows_all(id, ops),
        0 <= i <= j <= ops.len(),
        past_reliable(state.before(id, ops, i), id, epoch, sequence),
    ensures
        past_reliable(state.before(id, ops, j), id, epoch, sequence),
    decreases j - i,
{
    if i < j {
        lemma_past_reliable(state, id, ops, i, j - 1, epoch, sequence);
        lemma_history_step(state, id, ops, j - 1);
        lemma_well_formed_before(state, id, ops, j - 1);
        lemma_past_reliable_step(
            state.before(id, ops, j - 1),
            id,
            ops[j - 1],
            epoch,
            sequence,
        );
    }
}

proof fn lemma_history_step(
    state: QosInboundState,
    id: ControlConnectionId,
    ops: Seq<InboundOp>,
    i: int,
)
    requires
        0 <= i < ops.len(),
    ensures
        state.before(id, ops, i + 1) == state.before(id, ops, i).after(id, ops[i]),
{
    assert(ops.take(i + 1).drop_last() =~= ops.take(i));
    assert(ops.take(i + 1).last() == ops[i]);
}

/// Reliable input is delivered in order and never twice: over any history of a
/// connection, of two delivered frames the later one belongs to a later epoch, or to the
/// same epoch with a higher sequence number.
pub proof fn reliable_delivery_is_ordered(
    state: QosInboundState,
    id: ControlConnectionId,
    ops: Seq<InboundOp>,
    i: int,
    j: int,
)
    requires
        state.well_formed(id),
        state.allows_all(id, ops),
        0 <= i < j < ops.len(),
        state.delivers_reliable(id, ops, i),
        state.delivers_reliable(id, ops, j),
    ensures
        ops[i]->Reliable_0.session_epoch.0 < ops[j]->Reliable_0.session_epoch.0 || (
        ops[i]->Reliable_0.session_epoch == ops[j]->Reliable_0.session_epoch
            && ops[i]->Reliable_0.sequence < ops[j]->Reliable_0.sequence),
{
    let frame = ops[i]->Reliable_0;
    lemma_well_formed_before(state, id, ops, i);
    lemma_history_step(state, id, ops, i);
    assert(past_reliable(
        state.before(id, ops, i + 1),
        id,
        frame.session_epoch,
        frame.sequence,
    ));
    lemma_past_reliable(state, id, ops, i + 1, j, frame.session_epoch, frame.sequence);
    lemma_well_formed_before(state, id, ops, j);
}

/// Once a frame was taken for delivery, its delivery may fail at any later time.
pub proof fn delivered_epochs_may_fail(
    state: QosInboundState,
    id: ControlConnectionId,
    ops: Seq<InboundOp>,
    i: int,
    j: int,
)
    requires
        state.well_formed(id),
        state.allows_all(id, ops),
        0 <= i < j <= ops.len(),
        state.delivers_reliable(id, ops, i),
    ensures
        state.before(id, ops, j).allows(
            id,
            InboundOp::FailedDelivery(ops[i]->Reliable_0.session_epoch),
        ),
{
    let frame = ops[i]->Reliable_0;
    lemma_well_formed_before(state, id, ops, i);
    lemma_history_step(state, id, ops, i);
    lemma_past_reliable(state, id, ops, i + 1, j, frame.session_epoch, frame.sequence);
    lemma_well_formed_before(state, id, ops, j);
}

/// Within an epoch no reliable frame is skipped: a delivered frame that does not enter
/// an epoch carries the sequence number after the one delivered before it.
pub proof fn reliable_delivery_has_no_gaps(
    state: QosInboundState,
    id: ControlConnectionId,
    frame: ReliableFrameView,
)
    requires
        state.well_formed(id),
        state.after_reliable(id, frame).1 == ReliableAccept::Accepted,
        !(frame.event is Enter),
    ensures
        state.active matches Some((generation, epoch, last)) && generation == id && epoch
            == frame.session_epoch && frame.sequence == last + 1,
        frame.event is ReleaseAll ==> state.after_reliable(id, frame).0.retired(
            (id, frame.session_epoch),
        ),
        !(frame.event is ReleaseAll) ==> state.after_reliable(id, frame).0.active == Some(
            (id, frame.session_epoch, frame.sequence),
        ),
{
}

/// The state has moved past a realtime frame: no frame up to it can be delivered.
pub open spec fn past_realtime(
    state: QosInboundState,
    id: ControlConnectionId,
    epoch: SessionEpoch,
    sequence: u64,
) -> bool {
    ||| state.retired((id, epoch))
    ||| state.superseded((id, epoch))
    ||| state.is_active((id, epoch)) && (state.realtime_last matches Some((key, last)) && key == (
        id,
        epoch,
    ) && last >= sequence)
}

proof fn lemma_past_realtime_step(
    state: QosInboundState,
    id: ControlConnectionId,
    op: InboundOp,
    epoch: SessionEpoch,
    sequence: u64,
)
    requires
        state.well_formed(id),
        state.allows(id, op),
        past_realtime(state, id, epoch, sequence),
    ensures
        past_realtime(state.after(id, op), id, epoch, sequence),
{
}

proof fn lemma_past_realtime(
    state: QosInboundState,
    id: ControlConnectionId,
    ops: Seq<InboundOp>,
    i: int,
    j: int,
    epoch: SessionEpoch,
    sequence: u64,
)
    requires
        state.well_formed(id),
        state.allows_all(id, ops),
        0 <= i <= j <= ops.len(),
        past_realtime(state.before(id, ops, i), id, epoch, sequence),
    ensures
        past_realtime(state.before(id, ops, j), id, epoch, sequence),
    decreases j - i,
{
    if i < j {
        lemma_past_realtime(state, id, ops, i, j - 1, epoch, sequence);
        lemma_history_step(state, id, ops, j - 1);
        lemma_well_formed_before(state, id, ops, j - 1);
        lemma_past_realtime_step(
            state.before(id, ops, j - 1),
            id,
            ops[j - 1],
            epoch,
            sequence,
        );
    }
}

/// The epoch of a realtime event.
pub open spec fn epoch_of(op: InboundOp) -> SessionEpoch {
    op->Realtime_0
}

/// Realtime input never goes back: over any history of a connection, of two delivered
/// datagrams the later one belongs to a later epoch, or to the same epoch with a higher
/// sequence number.
pub proof fn realtime_delivery_is_ordered(
    state: QosInboundState,
    id: ControlConnectionId,
    ops: Seq<InboundOp>,
    i: int,
    j: int,
)
    requires
        state.well_formed(id),
        state.allows_all(id, ops),
        0 <= i < j < ops.len(),
        state.delivers_realtime(id, ops, i),
        state.delivers_realtime(id, ops, j),
    ensures
        epoch_of(ops[i]).0 < epoch_of(ops[j]).0 || (ops[i]->Realtime_0 == ops[j]->Realtime_0
            && ops[i]->Realtime_1 < ops[j]->Realtime_1),
{
    let epoch = ops[i]->Realtime_0;
    let sequence = ops[i]->Realtime_1;
    lemma_well_formed_before(state, id, ops, i);
    lemma_history_step(state, id, ops, i);
    lemma_past_realtime(state, id, ops, i + 1, j, epoch, sequence);
    lemma_well_formed_before(state, id, ops, j);
}

/// Realtime input is only ever delivered for the epoch that the reliable lane has
/// entered and not left.
pub proof fn realtime_needs_active_epoch(
    state: QosInboundState,
    id: ControlConnectionId,
    ops: Seq<InboundOp>,
    i: int,
)
    requires
        state.well_formed(id),
        0 <= i < ops.len(),
        state.delivers_realtime(id, ops, i),
    ensures
        state.before(id, ops, i).is_active((id, ops[i]->Realtime_0)),
        !state.before(id, ops, i).retired((id, ops[i]->Realtime_0)),
{
}

/// Entering an epoch makes it the active one, from the frame's sequence number on, if it is
/// later than everything that is retired and than the epoch that is active. The epoch that
/// it displaces is retired and handed out to be released, and its realtime input forgotten.
pub proof fn entering_makes_an_epoch_active(
    state: QosInboundState,
    id: ControlConnectionId,
    frame: ReliableFrameView,
)
    requires
        state.well_formed(id),
        frame.event is Enter,
        state.retired_through matches Some((_, retired)) ==> retired.0 < frame.session_epoch.0,
        state.active matches Some((_, active, _)) ==> active.0 < frame.session_epoch.0,
    ensures
        ({
            let (after, accept) = state.after_reliable(id, frame);
            &&& after.active == Some((id, frame.session_epoch, frame.sequence))
            &&& match state.active {
                None => accept == ReliableAccept::Accepted && after.retired_through
                    == state.retired_through,
                Some((_, displaced, _)) => accept == (ReliableAccept::EpochAdvanced {
                    retired: displaced,
                }) && after.retired_through == Some((id, displaced)),
            }
            &&& after.realtime_last is None
        }),
{
}

/// The frame that follows the last one of the active epoch is delivered. A release ends the
/// epoch: it is retired and nothing is active any more. Any other frame moves the epoch on
/// by one, and nothing else.
pub proof fn the_next_frame_is_delivered(
    state: QosInboundState,
    id: ControlConnectionId,
    last: u64,
    frame: ReliableFrameView,
)
    requires
        state.well_formed(id),
        state.active == Some((id, frame.session_epoch, last)),
        frame.sequence == last + 1,
        !(frame.event is Enter),
    ensures
        ({
            let (after, accept) = state.after_reliable(id, frame);
            &&& accept == ReliableAccept::Accepted
            &&& frame.event is ReleaseAll ==> after.active is None && after.retired_through
                == Some((id, frame.session_epoch)) && after.realtime_last is None
            &&& !(frame.event is ReleaseAll) ==> after.active == Some(
                (id, frame.session_epoch, frame.sequence),
            ) && after.retired_through == state.retired_through && after.realtime_last
                == state.realtime_last
        }),
{
}

/// A frame out of order ends the active epoch: it is retired, nothing is active any more,
/// and the epoch is handed out to be released. So does an enter that is not of a later
/// epoch, and input of another epoch that is not over.
pub proof fn frames_out_of_order_end_the_active_epoch(
    state: QosInboundState,
    id: ControlConnectionId,
    active: SessionEpoch,
    last: u64,
    frame: ReliableFrameView,
)
    requires
        state.well_formed(id),
        state.active == Some((id, active, last)),
        state.retired_through matches Some((_, retired)) ==> retired.0 < frame.session_epoch.0,
        frame.event is Enter ==> frame.session_epoch.0 <= active.0,
        !(frame.event is Enter) ==> frame.session_epoch != active || frame.sequence != last + 1,
    ensures
        ({
            let (after, accept) = state.after_reliable(id, frame);
            &&& accept == (ReliableAccept::CurrentViolation { epoch: active })
            &&& after.active is None
            &&& after.retired_through == Some((id, active))
            &&& after.realtime_last is None
        }),
{
}

/// Input before anything was entered is a breach: its epoch is retired at once and handed
/// out to be released.
pub proof fn input_has_to_be_entered_first(
    state: QosInboundState,
    id: ControlConnectionId,
    frame: ReliableFrameView,
)
    requires
        state.well_formed(id),
        state.active is None,
        state.retired_through matches Some((_, retired)) ==> retired.0 < frame.session_epoch.0,
        !(frame.event is Enter),
    ensures
        ({
            let (after, accept) = state.after_reliable(id, frame);
            &&& accept == (ReliableAccept::CurrentViolation { epoch: frame.session_epoch })
            &&& after.active is None
            &&& after.retired_through == Some((id, frame.session_epoch))
        }),
{
}

/// A frame of an epoch that is over changes nothing. It is dropped while a later epoch is
/// active, and a breach otherwise.
pub proof fn late_frames_are_dropped_or_a_breach(
    state: QosInboundState,
    id: ControlConnectionId,
    retired: SessionEpoch,
    frame: ReliableFrameView,
)
    requires
        state.well_formed(id),
        state.retired_through == Some((id, retired)),
        frame.session_epoch.0 <= retired.0,
    ensures
        state.after_reliable(id, frame) == (
            state,
            if state.active is Some {
                ReliableAccept::RetiredEpoch
            } else {
                ReliableAccept::CurrentViolation { epoch: frame.session_epoch }
            },
        ),
{
}

/// Realtime input of the active epoch is delivered exactly if it is newer than what was
/// delivered of that epoch, and is then the newest. Realtime input of any other epoch is
/// not delivered. Nothing else ever changes with it.
pub proof fn newer_realtime_input_is_delivered(
    state: QosInboundState,
    id: ControlConnectionId,
    epoch: SessionEpoch,
    sequence: u64,
)
    requires
        state.well_formed(id),
    ensures
        state.admits_realtime((id, epoch), sequence) <==> {
            &&& state.active matches Some((_, active, _)) && active == epoch
            &&& state.realtime_last matches Some((_, newest)) ==> newest < sequence
        },
        ({
            let after = state.after_realtime((id, epoch), sequence);
            &&& after.active == state.active
            &&& after.retired_through == state.retired_through
            &&& state.admits_realtime((id, epoch), sequence) ==> after.realtime_last == Some(
                ((id, epoch), sequence),
            )
            &&& !state.admits_realtime((id, epoch), sequence) ==> after == state
        }),
{
}

/// An emergency release of the active epoch is delivered, with the reason that it carried.
/// The epoch is retired then and nothing is active any more.
pub proof fn emergencies_release_the_active_epoch(
    state: QosInboundState,
    id: ControlConnectionId,
    epoch: SessionEpoch,
    last: u64,
    reason: ReleaseAllReason,
)
    requires
        state.well_formed(id),
        state.active == Some((id, epoch, last)),
    ensures
        ({
            let (after, disposition) = state.after_emergency((id, epoch), reason);
            &&& disposition == EmergencyDisposition::Release(epoch, reason)
            &&& after.active is None
            &&& after.retired_through == Some((id, epoch))
            &&& after.realtime_last is None
        }),
{
}

/// An emergency release while nothing is active is delivered too, if its epoch is not over,
/// and the epoch is over then.
pub proof fn emergencies_release_epochs_before_they_are_entered(
    state: QosInboundState,
    id: ControlConnectionId,
    epoch: SessionEpoch,
    reason: ReleaseAllReason,
)
    requires
        state.well_formed(id),
        state.active is None,
        state.retired_through matches Some((_, retired)) ==> retired.0 < epoch.0,
    ensures
        ({
            let (after, disposition) = state.after_emergency((id, epoch), reason);
            &&& disposition == EmergencyDisposition::Release(epoch, reason)
            &&& after.active is None
            &&& after.retired_through == Some((id, epoch))
        }),
{
}

/// An emergency release of another epoch than the active one, that is not over, is a breach
/// and ends the active one.
pub proof fn foreign_emergencies_end_the_active_epoch(
    state: QosInboundState,
    id: ControlConnectionId,
    active: SessionEpoch,
    last: u64,
    epoch: SessionEpoch,
    reason: ReleaseAllReason,
)
    requires
        state.well_formed(id),
        state.active == Some((id, active, last)),
        epoch != active,
        state.retired_through matches Some((_, retired)) ==> retired.0 < epoch.0,
    ensures
        ({
            let (after, disposition) = state.after_emergency((id, epoch), reason);
            &&& disposition == EmergencyDisposition::Violation(active)
            &&& after.active is None
            &&& after.retired_through == Some((id, active))
        }),
{
}

/// An emergency release of an epoch that is over changes nothing. It is dropped while a
/// later epoch is active, and a breach otherwise.
pub proof fn late_emergencies_are_dropped_or_a_breach(
    state: QosInboundState,
    id: ControlConnectionId,
    retired: SessionEpoch,
    epoch: SessionEpoch,
    reason: ReleaseAllReason,
)
    requires
        state.well_formed(id),
        state.retired_through == Some((id, retired)),
        epoch.0 <= retired.0,
    ensures
        state.after_emergency((id, epoch), reason) == (
            state,
            if state.active is Some {
                EmergencyDisposition::Ignore
            } else {
                EmergencyDisposition::Violation(epoch)
            },
        ),
{
}

/// However the stream of the active epoch goes wrong, the epoch ends: it is retired, nothing
/// is active any more, and it is handed out to be released. It makes no difference whether
/// the stream was cancelled, has failed, or went with its connection, nor whether it was a
/// delivery that failed.
pub proof fn the_active_epoch_ends_with_its_stream(
    state: QosInboundState,
    id: ControlConnectionId,
    epoch: SessionEpoch,
    last: u64,
)
    requires
        state.well_formed(id),
        state.active == Some((id, epoch, last)),
    ensures
        state.after_cancel(id, Some(epoch)).1 == CancelOutcome::Release(epoch),
        state.after_stream_failure(id, Some(epoch)).1 == (StreamFailure::Close {
            release: Some(epoch),
        }),
        state.after_close(id).1 == Some(epoch),
        forall|after: QosInboundState|
            after == state.after_cancel(id, Some(epoch)).0 || after == state.after_stream_failure(
                id,
                Some(epoch),
            ).0 || after == state.after_close(id).0 || after == state.after_failed_delivery(
                (id, epoch),
            ) ==> #[trigger] after.active is None && after.retired_through == Some((id, epoch))
                && after.realtime_last is None,
{
}

/// A stream of another epoch than the active one, or of none, changes nothing by ending. It
/// does no harm if it was cancelled after its epoch was over or displaced, or before it had
/// any. If it has failed, the connection goes on exactly if its epoch is over.
pub proof fn other_streams_leave_the_active_epoch_alone(
    state: QosInboundState,
    id: ControlConnectionId,
    stream_epoch: Option<SessionEpoch>,
)
    requires
        state.well_formed(id),
        state.active matches Some((_, active, _)) ==> stream_epoch != Some(active),
    ensures
        ({
            let over = stream_epoch matches Some(epoch) && state.retired_through matches Some(
                (_, retired),
            ) && epoch.0 <= retired.0;
            let displaced = stream_epoch matches Some(epoch) && state.active matches Some(
                (_, active, _),
            ) && epoch.0 < active.0;
            &&& state.after_cancel(id, stream_epoch) == (
                state,
                if stream_epoch is None || over || displaced {
                    CancelOutcome::Harmless
                } else {
                    CancelOutcome::Unknown
                },
            )
            &&& state.after_stream_failure(id, stream_epoch) == (
                state,
                if over {
                    StreamFailure::Ignore
                } else {
                    StreamFailure::Close { release: None }
                },
            )
        }),
{
}

/// The end of a connection on which nothing is active releases nothing and changes nothing.
pub proof fn idle_connections_end_quietly(state: QosInboundState, id: ControlConnectionId)
    requires
        state.active is None,
    ensures
        state.after_close(id) == (state, None::<SessionEpoch>),
{
}

/// A delivery that failed ends its epoch, whatever is active: every epoch up to it is over,
/// and no earlier retirement is taken back.
pub proof fn failed_deliveries_end_their_epoch(
    state: QosInboundState,
    id: ControlConnectionId,
    epoch: SessionEpoch,
)
    requires
        state.well_formed(id),
    ensures
        ({
            let after = state.after_failed_delivery((id, epoch));
            &&& after.retired_through matches Some((generation, through)) && generation == id
                && through.0 >= epoch.0 && (through == epoch || state.retired_through == Some(
                (id, through),
            ))
            &&& after.active == (match state.active {
                Some((_, active, _)) if active == epoch => None,
                _ => state.active,
            })
        }),
{
}

/// A release is handed out exactly once for each epoch that comes in ascending order, and a
/// repeated one is coalesced.
pub proof fn releases_are_handed_out_once(
    emitter: TerminalReleaseEmitter,
    through: SessionEpoch,
    epoch: SessionEpoch,
)
    requires
        emitter.emitted_through == Some(through),
    ensures
        emitter.covers(epoch) <==> epoch.0 <= through.0,
{
}

/// Hands out terminal releases, each epoch's once.
#[derive(Debug, Clone, Copy, PartialEq, Eq)]
pub struct TerminalReleaseEmitter {
    /// The epoch up to which releases were handed out.
    pub emitted_through: Option<SessionEpoch>,
}

impl TerminalReleaseEmitter {
    /// Whether the release of an epoch was handed out, or covered by a later one's.
    pub open spec fn covers(self, epoch: SessionEpoch) -> bool {
        self.emitted_through matches Some(through) && epoch.0 <= through.0
    }

    pub fn new() -> (emitter: Self)
        ensures
            emitter.emitted_through is None,
    {
        TerminalReleaseEmitter { emitted_through: None }
    }

    /// Whether a release is to be handed out now. A release that is covered already is
    /// coalesced with the earlier one.
    pub fn emit(&mut self, epoch: SessionEpoch) -> (forward: bool)
        ensures
            forward == !old(self).covers(epoch),
            final(self).covers(epoch),
            forward ==> final(self).emitted_through == Some(epoch),
            !forward ==> *final(self) == *old(self),
            forall|e: SessionEpoch| old(self).covers(e) ==> final(self).covers(e),
    {
        let covered = match self.emitted_through {
            Some(through) => epoch.0 <= through.0,
            None => false,
        };
        if covered {
            return false;
        }
        self.emitted_through = Some(epoch);
        true
    }
}

/// The last realtime frame that nobody has taken yet. An older one is overtaken.
#[derive(Debug)]
pub struct LatestRealtimeEmitter {
    pub latest: Option<RealtimeInputFrame>,
}

impl LatestRealtimeEmitter {
    pub fn new() -> (emitter: Self)
        ensures
            emitter.latest is None,
    {
        LatestRealtimeEmitter { latest: None }
    }

    /// Offers a frame. Whatever was not taken yet is lost.
    pub fn emit(&mut self, frame: RealtimeInputFrame)
        ensures
            final(self).latest == Some(frame),
    {
        self.latest = Some(frame);
    }

    /// Takes the frame, once.
    pub fn take(&mut self) -> (frame: Option<RealtimeInputFrame>)
        ensures
            frame == old(self).latest,
            final(self).latest is None,
    {
        self.latest.take()
    }
}

} // verus!
