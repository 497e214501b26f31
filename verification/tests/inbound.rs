use rshare_net::bootstrap::{
    bootstrap_frame_length, Bootstrap, BootstrapFailure, BootstrapReader, BootstrapStep,
    StreamBudget, StreamRole, StreamTail, AUTHENTICATED_UNI_STREAM_TASK_BUDGET,
};
use rshare_net::codec::{RealtimeInputCodec, ReliableInputCodec};
use rshare_net::handshake::rejection;
use rshare_net::inbound::{
    accept_reliable_state, LatestRealtimeEmitter, QosInboundState, ReliableAccept,
    TerminalReleaseEmitter,
};
use rshare_net::lanes::{
    connection_closed, fail_generation, legacy_frame_length, message_fault, message_frame_length,
    preface_fault, read_datagram, read_lane, read_message, read_preface, reliable_frame_length,
    CloseReason, LaneReader, MessageStep, PrefaceFault, PrefaceStep, ProtocolReport, ReadFault,
    ReliableStep, ReliableStream, StreamEnd,
};
use rshare_net::message::{HandshakeRejectReason, Message};
use rshare_net::qos::{
    LaneDiscriminator, AWAITED_CANCEL_RESET_CODE, TERMINAL_CANCEL_RESET_CODE,
};
use rshare_net::sender::TerminalRelease;
use rshare_net::types::{
    ClockDomainId, ControlConnectionId, DeviceId, KeyState, MonotonicStamp, RealtimeInputFrame,
    RealtimeInputPayload, ReleaseAllReason, ReliableInputEvent, ReliableInputFrame, SessionEpoch,
    INPUT_PROTOCOL_VERSION,
};

const GENERATION: ControlConnectionId = ControlConnectionId(5);

fn frame(epoch: u64, sequence: u64, event: ReliableInputEvent) -> ReliableInputFrame {
    ReliableInputFrame {
        protocol_version: INPUT_PROTOCOL_VERSION,
        session_epoch: SessionEpoch(epoch),
        sequence,
        captured_at: MonotonicStamp::new(ClockDomainId(1), sequence),
        event,
    }
}

fn enter(epoch: u64, sequence: u64) -> ReliableInputFrame {
    frame(
        epoch,
        sequence,
        ReliableInputEvent::Enter { target_display_id: "a".into(), x: 0, y: 0 },
    )
}

fn key(epoch: u64, sequence: u64) -> ReliableInputFrame {
    frame(epoch, sequence, ReliableInputEvent::Key { keycode: 0x41, state: KeyState::Pressed })
}

fn release(epoch: u64, sequence: u64, reason: ReleaseAllReason) -> ReliableInputFrame {
    frame(epoch, sequence, ReliableInputEvent::ReleaseAll { reason })
}

fn failed(epoch: u64) -> Option<TerminalRelease> {
    Some(TerminalRelease {
        epoch: SessionEpoch(epoch),
        reason: ReleaseAllReason::BackendFailure,
    })
}

fn bytes(frame: &ReliableInputFrame) -> Vec<u8> {
    ReliableInputCodec::encode(frame).unwrap().to_vec()
}

fn end_of(step: ReliableStep) -> StreamEnd {
    match step {
        ReliableStep::Stop(end) => end,
        _ => panic!("the stream must stop"),
    }
}

/// Takes a frame that has to be delivered, and delivers it.
fn deliver(
    stream: &mut ReliableStream,
    state: &mut QosInboundState,
    frame: &ReliableInputFrame,
) -> (Option<TerminalRelease>, ReliableStep) {
    match stream.read_frame(state, Some(GENERATION), &bytes(frame)) {
        ReliableStep::Deliver { frame: delivered, release } => {
            assert_eq!(&delivered, frame);
            let step = stream.frame_offered(state, GENERATION, &delivered, true);
            (release, step)
        }
        _ => panic!("the frame must be delivered"),
    }
}

/// A connection on which epoch 2 has displaced epoch 1, with the streams of both.
fn two_epoch_fixture() -> (QosInboundState, ReliableStream, ReliableStream) {
    let mut state = QosInboundState::default();
    let mut old = ReliableStream::new(false);
    deliver(&mut old, &mut state, &enter(1, 1));
    let mut new = ReliableStream::new(false);
    let (displaced, _) = deliver(&mut new, &mut state, &enter(2, 1));
    assert_eq!(displaced, failed(1));
    (state, old, new)
}

#[test]
fn retired_old_epoch_does_not_clear_new_active_epoch_and_max_sequence_fails_closed() {
    let mut state = QosInboundState::default();
    assert_eq!(
        accept_reliable_state(&mut state, GENERATION, &enter(1, 1)),
        ReliableAccept::Accepted
    );
    assert_eq!(
        accept_reliable_state(
            &mut state,
            GENERATION,
            &release(1, 2, ReleaseAllReason::SessionEnded)
        ),
        ReliableAccept::Accepted
    );
    assert_eq!(
        accept_reliable_state(&mut state, GENERATION, &enter(2, u64::MAX)),
        ReliableAccept::Accepted
    );
    assert_eq!(
        accept_reliable_state(&mut state, GENERATION, &key(1, 3)),
        ReliableAccept::RetiredEpoch
    );
    assert!(state
        .active
        .is_some_and(|(_, epoch, sequence)| epoch == SessionEpoch(2) && sequence == u64::MAX));
    assert_eq!(
        accept_reliable_state(&mut state, GENERATION, &key(2, u64::MAX)),
        ReliableAccept::CurrentViolation { epoch: SessionEpoch(2) }
    );
}

#[test]
fn late_frame_after_terminal_epoch_is_a_violation_but_superseded_epoch_is_ignored() {
    let mut terminal = QosInboundState::default();
    assert_eq!(
        accept_reliable_state(&mut terminal, GENERATION, &enter(1, 1)),
        ReliableAccept::Accepted
    );
    assert_eq!(
        accept_reliable_state(
            &mut terminal,
            GENERATION,
            &release(1, 2, ReleaseAllReason::SessionEnded)
        ),
        ReliableAccept::Accepted
    );
    assert_eq!(
        accept_reliable_state(&mut terminal, GENERATION, &enter(1, 1)),
        ReliableAccept::CurrentViolation { epoch: SessionEpoch(1) }
    );

    let mut superseded = QosInboundState::default();
    assert_eq!(
        accept_reliable_state(&mut superseded, GENERATION, &enter(1, 1)),
        ReliableAccept::Accepted
    );
    assert_eq!(
        accept_reliable_state(&mut superseded, GENERATION, &enter(2, 1)),
        ReliableAccept::EpochAdvanced { retired: SessionEpoch(1) }
    );
    assert_eq!(
        accept_reliable_state(&mut superseded, GENERATION, &enter(1, 1)),
        ReliableAccept::RetiredEpoch
    );
    assert_eq!(superseded.active, Some((GENERATION, SessionEpoch(2), 1)));
}

#[test]
fn future_emergency_closes_and_releases_only_receiver_active_epoch() {
    let mut state = QosInboundState::default();
    deliver(&mut ReliableStream::new(false), &mut state, &enter(1, 1));
    let emergency = ReliableStream::new(true);
    let data = bytes(&release(2, 1, ReleaseAllReason::SessionEnded));
    let end = end_of(emergency.read_frame(&mut state, Some(GENERATION), &data));
    assert_eq!(end.close, Some(CloseReason::FutureEmergency));
    assert_eq!(end.release, failed(1));
    assert_eq!(state.retired_through, Some((GENERATION, SessionEpoch(1))));
    assert_eq!(state.active, None);
}

#[test]
fn late_duplicate_enter_after_terminal_epoch_fails_closed_without_duplicate_release() {
    let mut state = QosInboundState::default();
    let mut emitter = TerminalReleaseEmitter::new();
    let mut stream = ReliableStream::new(false);
    deliver(&mut stream, &mut state, &enter(1, 1));
    let (_, step) = deliver(&mut stream, &mut state, &release(1, 2, ReleaseAllReason::SessionEnded));
    let end = end_of(step);
    assert_eq!(end.close, None);
    let terminal = end.release.unwrap();
    assert_eq!(terminal.epoch, SessionEpoch(1));
    assert_eq!(terminal.reason, ReleaseAllReason::SessionEnded);
    assert!(emitter.emit(terminal.epoch));

    let late = ReliableStream::new(false);
    let end = end_of(late.read_frame(&mut state, Some(GENERATION), &bytes(&enter(1, 1))));
    assert_eq!(end.close, Some(CloseReason::SequenceViolation));
    assert!(!emitter.emit(end.release.unwrap().epoch));
    assert_eq!(state.retired_through, Some((GENERATION, SessionEpoch(1))));
}

#[test]
fn larger_enter_retires_old_epoch_and_ignores_delayed_old_terminal_signals() {
    let (mut state, old, _new) = two_epoch_fixture();
    assert_eq!(state.active, Some((GENERATION, SessionEpoch(2), 1)));
    let end = old.read_fault(
        &mut state,
        Some(GENERATION),
        ReadFault::Reset(TERMINAL_CANCEL_RESET_CODE as u64),
        false,
    );
    assert_eq!(end, StreamEnd { close: None, release: None });
    let emergency = ReliableStream::new(true);
    let data = bytes(&release(1, 2, ReleaseAllReason::SessionEnded));
    let end = end_of(emergency.read_frame(&mut state, Some(GENERATION), &data));
    assert_eq!(end, StreamEnd { close: None, release: None });
    assert_eq!(state.active, Some((GENERATION, SessionEpoch(2), 1)));
}

#[test]
fn retired_old_stream_fin_does_not_close_or_release_active_replacement() {
    let (mut state, old, _new) = two_epoch_fixture();
    let end = old.read_fault(&mut state, Some(GENERATION), ReadFault::FinishedEarly, false);
    assert_eq!(end, StreamEnd { close: None, release: None });
    assert_eq!(state.active, Some((GENERATION, SessionEpoch(2), 1)));
}

#[test]
fn retired_old_stream_nonterminal_reset_does_not_close_active_replacement() {
    let (mut state, old, _new) = two_epoch_fixture();
    let end = old.read_fault(&mut state, Some(GENERATION), ReadFault::Reset(77), true);
    assert_eq!(end, StreamEnd { close: None, release: None });
    assert_eq!(state.active, Some((GENERATION, SessionEpoch(2), 1)));
}

#[test]
fn active_stream_nonterminal_reset_still_fails_closed() {
    let (mut state, _old, new) = two_epoch_fixture();
    let end = new.read_fault(&mut state, Some(GENERATION), ReadFault::Reset(78), false);
    assert_eq!(end.close, Some(CloseReason::TruncatedReliableLength));
    assert_eq!(end.release, failed(2));
    assert_eq!(state.active, None);
}

#[test]
fn unbound_terminal_cancel_reset_does_not_disturb_active_epoch() {
    let (mut state, _old, _new) = two_epoch_fixture();
    let end = ReliableStream::new(false).read_fault(
        &mut state,
        Some(GENERATION),
        ReadFault::Reset(TERMINAL_CANCEL_RESET_CODE as u64),
        false,
    );
    assert_eq!(end, StreamEnd { close: None, release: None });
    assert_eq!(state.active, Some((GENERATION, SessionEpoch(2), 1)));
}

#[test]
fn unbound_unknown_reset_still_fails_closed_and_releases_active_epoch() {
    let (mut state, _old, _new) = two_epoch_fixture();
    let end = ReliableStream::new(false).read_fault(
        &mut state,
        Some(GENERATION),
        ReadFault::Reset(79),
        false,
    );
    assert_eq!(end.close, Some(CloseReason::TruncatedReliableLength));
    assert_eq!(end.release, None);
    assert_eq!(
        connection_closed(&mut state, GENERATION),
        Some(TerminalRelease { epoch: SessionEpoch(2), reason: ReleaseAllReason::Timeout })
    );
    assert_eq!(connection_closed(&mut state, GENERATION), None);
}

#[test]
fn retired_old_stream_cannot_inject_non_enter_for_active_replacement_epoch() {
    let (mut state, old, _new) = two_epoch_fixture();
    let end = end_of(old.read_frame(&mut state, Some(GENERATION), &bytes(&key(2, 2))));
    assert_eq!(end.close, Some(CloseReason::EpochMismatch));
    assert_eq!(end.release, failed(2));
    assert_eq!(state.active, None);
}

#[test]
fn truncated_reliable_frame_closes_and_releases_current_epoch() {
    let mut state = QosInboundState::default();
    let mut stream = ReliableStream::new(false);
    deliver(&mut stream, &mut state, &enter(4, 1));
    deliver(&mut stream, &mut state, &key(4, 2));
    assert_eq!(state.active, Some((GENERATION, SessionEpoch(4), 2)));

    assert_eq!(reliable_frame_length(&16u32.to_be_bytes()), Ok(16));
    let second = ReliableStream::new(false);
    let end = second.read_fault(&mut state, Some(GENERATION), ReadFault::FinishedEarly, true);
    assert_eq!(end.close, Some(CloseReason::TruncatedReliablePayload));
    let release = end.release.or_else(|| connection_closed(&mut state, GENERATION)).unwrap();
    assert_eq!(release.epoch, SessionEpoch(4));

    let (mut state, _old, new) = two_epoch_fixture();
    let end = new.read_fault(&mut state, Some(GENERATION), ReadFault::FinishedEarly, true);
    assert_eq!(end.close, Some(CloseReason::TruncatedReliablePayload));
    assert_eq!(end.release, failed(2));
}

#[test]
fn reliable_fin_at_frame_boundary_still_closes_when_epoch_is_active() {
    let mut state = QosInboundState::default();
    let mut stream = ReliableStream::new(false);
    deliver(&mut stream, &mut state, &enter(5, 1));
    deliver(&mut stream, &mut state, &key(5, 2));
    assert_eq!(state.active, Some((GENERATION, SessionEpoch(5), 2)));

    let preface = LaneDiscriminator::ReliableInput.preface();
    assert_eq!(read_preface(&preface[..4], true, true), PrefaceStep::ReadLane);
    assert_eq!(read_lane(preface[4]), LaneReader::Reliable { emergency: false });
    let second = ReliableStream::new(false);
    let end = second.read_fault(&mut state, Some(GENERATION), ReadFault::FinishedEarly, false);
    assert_eq!(end.close, Some(CloseReason::TruncatedReliableLength));
    let release = end.release.or_else(|| connection_closed(&mut state, GENERATION)).unwrap();
    assert_eq!(release.epoch, SessionEpoch(5));
    assert_eq!(state.active, None);
}

#[test]
fn cancelled_streams_of_the_active_epoch_release_it_quietly() {
    let (mut state, _old, new) = two_epoch_fixture();
    let end = new.read_fault(
        &mut state,
        Some(GENERATION),
        ReadFault::Reset(TERMINAL_CANCEL_RESET_CODE as u64),
        true,
    );
    assert_eq!(end, StreamEnd { close: None, release: failed(2) });
}

#[test]
fn full_reliable_input_receiver_fails_closed_and_requests_release() {
    let epoch = SessionEpoch(17);
    let mut state = QosInboundState::default();
    let mut stream = ReliableStream::new(false);
    let mut received = 0;
    for sequence in 1..=257u64 {
        let sent = if sequence == 1 {
            enter(epoch.0, 1)
        } else {
            frame(epoch.0, sequence, ReliableInputEvent::Wheel { delta_x: 0, delta_y: 1 })
        };
        match stream.read_frame(&mut state, Some(GENERATION), &bytes(&sent)) {
            ReliableStep::Deliver { frame, release } => {
                assert_eq!(release, None);
                assert_eq!(frame, sent);
                let room = received < 256;
                let step = stream.frame_offered(&mut state, GENERATION, &frame, room);
                if room {
                    received += 1;
                    assert!(matches!(step, ReliableStep::Continue));
                } else {
                    let end = end_of(step);
                    assert_eq!(end.close, Some(CloseReason::ReceiverUnavailable));
                    assert_eq!(end.release, failed(17));
                }
            }
            _ => panic!("the frame must be offered"),
        }
    }
    assert_eq!(received, 256);
    assert_eq!(state.active, None);
}

#[test]
fn reliable_sequence_gap_closes_before_full_callback_and_does_not_drop_release() {
    let epoch = SessionEpoch(91);
    let mut state = QosInboundState::default();
    let mut stream = ReliableStream::new(false);
    deliver(&mut stream, &mut state, &enter(91, 1));
    let end = end_of(stream.read_frame(&mut state, Some(GENERATION), &bytes(&key(91, 3))));
    assert_eq!(end.close, Some(CloseReason::SequenceViolation));
    let release = end.release.unwrap();
    assert_eq!(release.epoch, epoch);
    assert_eq!(release.reason, ReleaseAllReason::BackendFailure);
    assert!(state.retired_through.is_some_and(|retired| retired == (GENERATION, epoch)));

    let mut emitter = TerminalReleaseEmitter::new();
    assert!(emitter.emit(SessionEpoch(90)));
    assert!(emitter.emit(release.epoch));
}

#[test]
fn frames_wait_for_a_known_peer_and_have_to_be_frames() {
    let mut state = QosInboundState::default();
    let stream = ReliableStream::new(false);
    let end = end_of(stream.read_frame(&mut state, None, &bytes(&enter(1, 1))));
    assert_eq!(end, StreamEnd { close: None, release: None });
    let end = end_of(stream.read_frame(&mut state, None, b"nonsense"));
    assert_eq!(end.close, Some(CloseReason::InvalidInputFrame));
    let end = end_of(stream.read_frame(&mut state, Some(GENERATION), b"nonsense"));
    assert_eq!(end.close, Some(CloseReason::InvalidInputFrame));
    assert_eq!(end.release, None);
    let emergency = ReliableStream::new(true);
    let end = end_of(emergency.read_frame(&mut state, Some(GENERATION), &bytes(&enter(1, 1))));
    assert_eq!(end.close, Some(CloseReason::NonTerminalEmergency));
}

#[test]
fn input_frames_have_a_longest_length() {
    assert_eq!(reliable_frame_length(&4098u32.to_be_bytes()), Ok(4098));
    assert_eq!(
        reliable_frame_length(&4099u32.to_be_bytes()),
        Err(CloseReason::OversizedInputFrame)
    );
    let (mut state, _old, new) = two_epoch_fixture();
    let end = new.fail(&mut state, Some(GENERATION), CloseReason::OversizedInputFrame);
    assert_eq!(end.close, Some(CloseReason::OversizedInputFrame));
    assert_eq!(end.release, failed(2));
}

#[test]
fn unknown_lane_discriminator_is_stream_local_and_reports_protocol_error() {
    match read_lane(255) {
        LaneReader::Reject(report) => {
            assert_eq!(report.text(), "unknown qos lane discriminator 255")
        }
        _ => panic!("an unknown lane must be rejected"),
    }
    assert_eq!(read_lane(1), LaneReader::Reliable { emergency: false });
    assert_eq!(read_lane(2), LaneReader::Reliable { emergency: true });
    assert_eq!(read_lane(3), LaneReader::Messages(LaneDiscriminator::Control));
    assert_eq!(read_lane(4), LaneReader::Messages(LaneDiscriminator::Bulk));
    assert_eq!(read_lane(5), LaneReader::Messages(LaneDiscriminator::Telemetry));
}

#[test]
fn missing_qos_lane_magic_is_stream_local_and_reports_authenticated_error() {
    assert_eq!(read_preface(b"RSQ3", true, true), PrefaceStep::ReadLane);
    for (required, installed) in [(true, false), (false, true)] {
        match read_preface(b"NOPE", required, installed) {
            PrefaceStep::Reject(report) => {
                assert_eq!(report.text(), "missing qos lane preface on authenticated stream");
                assert!(report.text().contains("missing qos lane preface"));
            }
            _ => panic!("a stream has to name its lane"),
        }
    }
    assert_eq!(read_preface(&[0, 0, 0, 9], false, false), PrefaceStep::Legacy);
}

#[test]
fn truncated_qos_lane_discriminator_is_stream_local_and_reports_authenticated_error() {
    assert_eq!(
        preface_fault(ReadFault::FinishedEarly, true),
        PrefaceFault::Reject(ProtocolReport::TruncatedDiscriminator)
    );
    assert_eq!(
        ProtocolReport::TruncatedDiscriminator.text(),
        "truncated qos lane discriminator"
    );
    assert_eq!(
        preface_fault(ReadFault::FinishedEarly, false),
        PrefaceFault::Reject(ProtocolReport::TruncatedPreface)
    );
    for code in [TERMINAL_CANCEL_RESET_CODE, AWAITED_CANCEL_RESET_CODE] {
        assert_eq!(
            preface_fault(ReadFault::Reset(code as u64), false),
            PrefaceFault::Harmless
        );
    }
    assert_eq!(
        preface_fault(ReadFault::Other, false),
        PrefaceFault::Fail(CloseReason::PrefaceReadFailure)
    );
    assert_eq!(
        preface_fault(ReadFault::Reset(3), true),
        PrefaceFault::Fail(CloseReason::DiscriminatorReadFailure)
    );
}

#[test]
fn authenticated_wrong_lane_message_is_rejected() {
    let audio = Message::AudioStreamStop { stream_id: 77, reason: "wrong-lane".into() };
    match read_message(LaneDiscriminator::Control, Some(audio)) {
        MessageStep::Stop { report: Some(report), close: None } => {
            assert_eq!(report.text(), "message entered wrong qos lane");
            assert!(report.text().contains("wrong qos lane"));
        }
        _ => panic!("a bulk message has no place on the control lane"),
    }
    let heartbeat = || Some(Message::Heartbeat { sequence: 1, timestamp: 2 });
    assert!(matches!(
        read_message(LaneDiscriminator::Bulk, heartbeat()),
        MessageStep::Stop { report: Some(ProtocolReport::WrongLane), close: None }
    ));
    assert!(matches!(
        read_message(LaneDiscriminator::Control, heartbeat()),
        MessageStep::Control(_)
    ));
    assert!(matches!(
        read_message(LaneDiscriminator::Control, Some(Message::ScreenUpdate)),
        MessageStep::Stop { report: Some(ProtocolReport::WrongLane), close: None }
    ));
    assert!(matches!(
        read_message(LaneDiscriminator::Control, None),
        MessageStep::Stop { report: None, close: Some(CloseReason::InvalidMessageFrame) }
    ));
}

#[test]
fn authenticated_reliable_compat_input_fails_closed_without_entering_message_fifo() {
    let key = Message::Key { keycode: 0x41, state: KeyState::Pressed };
    match read_message(LaneDiscriminator::ReliableCompat, Some(key)) {
        MessageStep::Stop { report: Some(report), close: Some(close) } => {
            assert_eq!(
                report.text(),
                "reliable compatibility input lacks authenticated epoch metadata"
            );
            assert_eq!(close.text(), "rejected reliable compatibility input");
        }
        _ => panic!("input without an epoch must be rejected"),
    }
}

#[test]
fn truncated_authenticated_message_lane_closes_connection() {
    assert_eq!(
        message_fault(ReadFault::FinishedEarly, false),
        Some(CloseReason::TruncatedMessageLength)
    );
    assert_eq!(
        message_fault(ReadFault::Other, true),
        Some(CloseReason::TruncatedMessagePayload)
    );
    assert_eq!(
        message_fault(ReadFault::Reset(AWAITED_CANCEL_RESET_CODE as u64), true),
        None
    );
    assert_eq!(message_frame_length(&9u32.to_be_bytes(), 9), Ok(9));
    assert_eq!(
        message_frame_length(&10u32.to_be_bytes(), 9),
        Err(CloseReason::OversizedMessageFrame)
    );
    assert_eq!(
        legacy_frame_length(&10u32.to_be_bytes(), 9),
        Err(CloseReason::FrameLimitExceeded)
    );
}

#[test]
fn partial_stream_budget_exhaustion_fails_closed_and_releases_active_epoch() {
    let mut budget = StreamBudget::new();
    for _ in 0..AUTHENTICATED_UNI_STREAM_TASK_BUDGET {
        budget.try_acquire().unwrap();
    }
    let reason = budget.try_acquire().unwrap_err();
    assert_eq!(reason.code(), 0x525342);
    assert_eq!(reason.text(), "authenticated uni stream task budget exhausted");
    let (mut state, _old, _new) = two_epoch_fixture();
    let end = fail_generation(&mut state, Some(GENERATION), reason);
    assert_eq!(end.close, Some(CloseReason::TaskBudgetExhausted));
    assert_eq!(end.release, failed(2));
    assert_eq!(
        fail_generation(&mut state, None, CloseReason::PrefaceReadFailure),
        StreamEnd { close: Some(CloseReason::PrefaceReadFailure), release: None }
    );
    budget.release();
    assert!(budget.try_acquire().is_ok());
    assert_eq!(CloseReason::EpochMismatch.code(), 0);
}

#[test]
fn datagrams_are_delivered_for_the_active_epoch_in_order() {
    let mut state = QosInboundState::default();
    deliver(&mut ReliableStream::new(false), &mut state, &enter(1, 1));
    let datagram = |epoch, sequence| {
        let frame = RealtimeInputFrame {
            protocol_version: INPUT_PROTOCOL_VERSION,
            session_epoch: SessionEpoch(epoch),
            sequence,
            captured_at: MonotonicStamp::new(ClockDomainId(1), 1),
            payload: RealtimeInputPayload::RelativeMouse { dx: 1, dy: 2 },
        };
        (frame, RealtimeInputCodec::encode(&frame).unwrap())
    };
    let (frame, data) = datagram(1, 7);
    assert_eq!(read_datagram(&mut state, GENERATION, &data), Some(frame));
    assert_eq!(read_datagram(&mut state, GENERATION, &data), None);
    let (_, data) = datagram(2, 8);
    assert_eq!(read_datagram(&mut state, GENERATION, &data), None);
    assert_eq!(read_datagram(&mut state, GENERATION, b"legacy"), None);
}

#[test]
fn full_realtime_downstream_keeps_only_latest_and_worker_exits_on_drop() {
    let mut latest = LatestRealtimeEmitter::new();
    assert_eq!(latest.take(), None);
    let frame = |sequence| RealtimeInputFrame {
        protocol_version: INPUT_PROTOCOL_VERSION,
        session_epoch: SessionEpoch(7),
        sequence,
        captured_at: MonotonicStamp::new(ClockDomainId(1), 1),
        payload: RealtimeInputPayload::RelativeMouse { dx: 1, dy: 2 },
    };
    for sequence in 1..=100 {
        latest.emit(frame(sequence));
    }
    assert_eq!(latest.take().unwrap().sequence, 100);
    assert_eq!(latest.take(), None);
}

#[test]
fn releases_are_coalesced_up_to_the_last_one() {
    let mut emitter = TerminalReleaseEmitter::new();
    assert!(emitter.emit(SessionEpoch(3)));
    assert!(!emitter.emit(SessionEpoch(3)));
    assert!(!emitter.emit(SessionEpoch(1)));
    assert!(emitter.emit(SessionEpoch(4)));
}

#[test]
fn a_bootstrap_takes_one_stream_with_one_greeting() {
    let mut bootstrap = Bootstrap::new(true);
    assert_eq!(bootstrap.stream_opened(), StreamRole::Bootstrap);
    assert_eq!(
        bootstrap.datagram_received(),
        Some(CloseReason::DatagramBeforeAuthentication)
    );
    assert!(matches!(bootstrap.read_message(None), BootstrapStep::Skip));
    assert!(matches!(
        bootstrap.read_message(Some(Message::Ack { sequence: 1 })),
        BootstrapStep::Close(CloseReason::IllegalBootstrapMessage)
    ));
    let greeting = rejection(DeviceId(1), HandshakeRejectReason::IdentityUnavailable);
    assert!(matches!(
        bootstrap.read_message(Some(greeting)),
        BootstrapStep::Deliver(Message::HelloRejected { .. })
    ));
    assert_eq!(
        bootstrap.stream_opened(),
        StreamRole::TooEarly(CloseReason::PreAuthenticationStream)
    );
    assert_eq!(bootstrap.request_commit(), Err(BootstrapFailure::StreamNotVerified));
    assert_eq!(
        bootstrap.enforce_bootstrap_stream_eof(StreamTail::Data),
        Err(CloseReason::BootstrapTrailingData)
    );
    assert_eq!(
        bootstrap.enforce_bootstrap_stream_eof(StreamTail::Failed),
        Err(CloseReason::BootstrapCloseCheckFailed)
    );
    assert_eq!(
        bootstrap.enforce_bootstrap_stream_eof(StreamTail::TimedOut),
        Err(CloseReason::BootstrapNotFinished)
    );
    assert_eq!(
        bootstrap.complete_peer_protocol_handshake(false),
        Err(BootstrapFailure::StreamNotVerified)
    );
    assert_eq!(bootstrap.enforce_bootstrap_stream_eof(StreamTail::End), Ok(()));
    assert_eq!(bootstrap.request_commit(), Ok(()));
    assert_eq!(
        bootstrap.stream_opened(),
        StreamRole::TooEarly(CloseReason::StreamDuringCommit)
    );
    assert_eq!(bootstrap.datagram_received(), Some(CloseReason::DatagramDuringCommit));
    bootstrap.mark_bootstrap_reader_ack(BootstrapReader::Reliable);
    assert_eq!(
        bootstrap.complete_peer_protocol_handshake(false),
        Err(BootstrapFailure::ReadersNotAcknowledged)
    );
    bootstrap.mark_bootstrap_reader_ack(BootstrapReader::Datagram);
    assert_eq!(
        bootstrap.complete_peer_protocol_handshake(true),
        Err(BootstrapFailure::PeerClosed)
    );
    assert_eq!(bootstrap.complete_peer_protocol_handshake(false), Ok(()));
    assert_eq!(bootstrap.complete_peer_protocol_handshake(true), Ok(()));
    assert_eq!(bootstrap.stream_opened(), StreamRole::Authenticated);
    assert_eq!(bootstrap.datagram_received(), None);
    assert_eq!(Bootstrap::new(false).stream_opened(), StreamRole::Authenticated);
}

#[test]
fn raw_oversized_bootstrap_length_is_closed_before_payload_read() {
    let limit = 10 * 1024 * 1024;
    assert_eq!(bootstrap_frame_length(&65536u32.to_be_bytes(), limit), Ok(65536));
    assert_eq!(
        bootstrap_frame_length(&65537u32.to_be_bytes(), limit),
        Err(CloseReason::FrameLimitExceeded)
    );
    assert_eq!(
        bootstrap_frame_length(&11u32.to_be_bytes(), 10),
        Err(CloseReason::FrameLimitExceeded)
    );
}
