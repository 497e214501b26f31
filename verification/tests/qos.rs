use rshare_net::encryption::PeerCertificateFingerprint;
use rshare_net::handshake::PeerAuthContext;
use rshare_net::lanes::{read_message, MessageStep};
use rshare_net::message::Message;
use rshare_net::qos::{
    plan_message_write, plan_reliable_write, BulkFrame, ClassifiedMessage, ConnectionRegistry,
    ControlFrame, LaneDiscriminator, PeerTransportHandle, RealtimeSendOutcome, RegisteredPeer,
    TelemetryFrame, TransportSendError,
};
use rshare_net::sender::{
    realtime_outcome, SenderClose, TerminalRelease, RELIABLE_LANE_CAPACITY,
    TELEMETRY_LANE_CAPACITY,
};
use rshare_net::types::{
    ClockDomainId, ControlConnectionId, DeviceId, KeyState, MonotonicStamp, RealtimeInputFrame,
    RealtimeInputPayload, ReleaseAllReason, ReliableInputEvent, ReliableInputFrame, SessionEpoch,
    INPUT_PROTOCOL_VERSION,
};

fn fixture_auth(peer: u128, connection: u128) -> PeerAuthContext {
    PeerAuthContext {
        peer_id: DeviceId(peer),
        certificate_fingerprint: PeerCertificateFingerprint::from_der(b"test"),
        control_connection_id: ControlConnectionId(connection),
    }
}

fn fixture_handle(reliable_capacity: usize) -> PeerTransportHandle {
    PeerTransportHandle::new(fixture_auth(1, 10), reliable_capacity)
}

fn reliable(epoch: u64, sequence: u64, event: ReliableInputEvent) -> ReliableInputFrame {
    ReliableInputFrame {
        protocol_version: INPUT_PROTOCOL_VERSION,
        session_epoch: SessionEpoch(epoch),
        sequence,
        captured_at: MonotonicStamp::new(ClockDomainId(1), sequence),
        event,
    }
}

fn reliable_key_down(epoch: u64, sequence: u64) -> ReliableInputFrame {
    reliable(
        epoch,
        sequence,
        ReliableInputEvent::Key { keycode: 0x41, state: KeyState::Pressed },
    )
}

fn reliable_release(epoch: u64, sequence: u64, reason: ReleaseAllReason) -> ReliableInputFrame {
    reliable(epoch, sequence, ReliableInputEvent::ReleaseAll { reason })
}

fn enter(epoch: u64) -> ReliableInputFrame {
    reliable(
        epoch,
        1,
        ReliableInputEvent::Enter { target_display_id: "primary".into(), x: 0, y: 0 },
    )
}

fn realtime(epoch: u64) -> RealtimeInputFrame {
    RealtimeInputFrame {
        protocol_version: INPUT_PROTOCOL_VERSION,
        session_epoch: SessionEpoch(epoch),
        sequence: 1,
        captured_at: MonotonicStamp::new(ClockDomainId(1), 1),
        payload: RealtimeInputPayload::RelativeMouse { dx: 1, dy: 2 },
    }
}

fn probe(sequence: u64) -> TelemetryFrame {
    TelemetryFrame::LatencyProbe {
        sequence,
        timestamp_ms: 2,
        endpoint_switch: false,
        origin_sequence: None,
    }
}

fn registered(peer: u128, connection: u128) -> RegisteredPeer<PeerTransportHandle> {
    RegisteredPeer {
        auth: fixture_auth(peer, connection),
        transport: PeerTransportHandle::new(fixture_auth(peer, connection), 4),
    }
}

#[test]
fn delayed_old_generation_remove_keeps_replacement() {
    let mut registry = ConnectionRegistry::new();
    let peer_id = DeviceId(1);
    assert!(registry.insert(peer_id, registered(1, 10)).is_none());
    let replaced = registry.insert(peer_id, registered(1, 11)).unwrap();
    assert_eq!(replaced.auth.control_connection_id, ControlConnectionId(10));

    assert!(registry.remove_if_generation(peer_id, ControlConnectionId(10)).is_none());
    assert_eq!(
        registry.peer(peer_id).unwrap().auth.control_connection_id,
        ControlConnectionId(11)
    );
    assert!(registry.remove_if_generation(peer_id, ControlConnectionId(11)).is_some());
    assert!(registry.is_empty());
}

#[test]
fn a_registry_lists_its_peers_in_order() {
    let mut registry = ConnectionRegistry::new();
    for peer in [3u128, 1, 2] {
        registry.insert(DeviceId(peer), registered(peer, peer * 10));
    }
    let ids: Vec<u128> = registry.snapshot().iter().map(|(id, _)| id.0).collect();
    assert_eq!(ids, vec![1, 2, 3]);
    assert_eq!(registry.len(), 3);
}

#[test]
fn telemetry_reaches_every_peer_that_has_room() {
    let mut registry = ConnectionRegistry::new();
    registry.insert(DeviceId(1), registered(1, 10));
    let mut full = registered(2, 20);
    for sequence in 0..TELEMETRY_LANE_CAPACITY as u64 {
        full.transport.try_send_telemetry(probe(sequence)).unwrap();
    }
    registry.insert(DeviceId(2), full);
    assert_eq!(
        registry.broadcast_telemetry(probe(99)),
        vec![(DeviceId(1), Ok(())), (DeviceId(2), Err(TransportSendError::LaneClosed))]
    );
    let mut first = registry.remove_if_generation(DeviceId(1), ControlConnectionId(10)).unwrap();
    assert_eq!(first.transport.next_telemetry(), Some(probe(99)));
    assert_eq!(first.transport.next_telemetry(), None);
}

#[test]
fn realtime_goes_to_every_peer_but_not_for_entombed_epochs() {
    let mut registry = ConnectionRegistry::new();
    let mut overflowing = registered(1, 10);
    for sequence in 0..5 {
        let _ = overflowing.transport.try_send_reliable_input(reliable_key_down(7, sequence));
    }
    registry.insert(DeviceId(1), overflowing);
    registry.insert(DeviceId(2), registered(2, 20));
    let results = registry.broadcast_realtime(&realtime(7));
    assert_eq!(results.len(), 2);
    assert_eq!(results[0], (DeviceId(1), Ok(None)));
    assert_eq!(results[1].1.as_ref().unwrap().as_ref().unwrap().len(), 45);
    let mut wrong = realtime(7);
    wrong.protocol_version += 1;
    assert_eq!(
        registry.broadcast_realtime(&wrong)[1].1,
        Err(TransportSendError::UnsupportedMessage)
    );
    assert_eq!(realtime_outcome(true), RealtimeSendOutcome::Sent);
    assert_eq!(realtime_outcome(false), RealtimeSendOutcome::DroppedLatest);
}

#[test]
fn message_classifier_keeps_bulk_and_telemetry_out_of_control() {
    let audio = Message::AudioStreamStop { stream_id: 77, reason: "done".into() };
    assert!(matches!(
        ClassifiedMessage::try_from(audio).unwrap(),
        ClassifiedMessage::Bulk(BulkFrame::AudioStreamStop { .. })
    ));

    let diagnostic = Message::LatencyProbe {
        sequence: 1,
        timestamp_ms: 2,
        endpoint_switch: false,
        origin_sequence: None,
    };
    assert!(matches!(
        ClassifiedMessage::try_from(diagnostic).unwrap(),
        ClassifiedMessage::Telemetry(TelemetryFrame::LatencyProbe { .. })
    ));
}

#[test]
fn frames_come_back_from_their_messages() {
    let frames = vec![
        ControlFrame::Goodbye { device_id: DeviceId(3), reason: "bye".into() },
        ControlFrame::ClipboardRequest,
        ControlFrame::heartbeat(1, 2),
        ControlFrame::Ack { sequence: 4 },
        ControlFrame::Error { code: 5, message: "e".into() },
    ];
    for frame in frames {
        assert_eq!(
            ClassifiedMessage::try_from(frame.clone().into_message()),
            Ok(ClassifiedMessage::Control(frame))
        );
    }
    let bulk = BulkFrame::audio_stream_stop(9, "done".into());
    assert_eq!(
        ClassifiedMessage::try_from(bulk.clone().into_message()),
        Ok(ClassifiedMessage::Bulk(bulk))
    );
    assert_eq!(
        ClassifiedMessage::try_from(Message::ScreenUpdate),
        Ok(ClassifiedMessage::Unsupported)
    );
}

#[test]
fn lanes_have_their_bytes_and_priorities() {
    let lanes = [
        (LaneDiscriminator::ReliableInput, 1, 100),
        (LaneDiscriminator::Emergency, 2, 255),
        (LaneDiscriminator::Control, 3, 80),
        (LaneDiscriminator::Bulk, 4, -10),
        (LaneDiscriminator::Telemetry, 5, 0),
    ];
    for (lane, tag, priority) in lanes {
        assert_eq!(lane.as_u8(), tag);
        assert_eq!(LaneDiscriminator::from_u8(tag), Some(lane));
        assert_eq!(lane.priority(), priority);
        assert_eq!(lane.preface(), [b"RSQ3".as_slice(), &[tag]].concat());
    }
    assert_eq!(LaneDiscriminator::from_u8(0), None);
    assert_eq!(LaneDiscriminator::from_u8(7), None);
}

#[test]
fn writes_start_with_a_preface_and_a_length() {
    let write = plan_reliable_write(LaneDiscriminator::Emergency, &reliable_key_down(1, 1), false);
    assert_eq!(write.preface, Some(b"RSQ3\x02".to_vec()));
    let wire = write.wire.unwrap();
    assert_eq!(wire[..4], (wire.len() as u32 - 4).to_be_bytes());
    let message = Message::Ack { sequence: 1 };
    let write = plan_message_write(LaneDiscriminator::Control, &message, b"{}", true);
    assert_eq!(write.preface, None);
    assert_eq!(write.wire.unwrap(), vec![0, 0, 0, 7, 0, 0, 0, 3, 41, b'{', b'}']);
}

#[test]
fn reliable_overflow_tombstones_before_terminal_release_callback() {
    let mut handle = fixture_handle(1);
    handle.try_send_reliable_input(reliable_key_down(7, 1)).unwrap();
    let overflow = handle.try_send_reliable_input(reliable_key_down(7, 2)).unwrap_err();
    assert_eq!(overflow, TransportSendError::ReliableLaneFull);
    assert!(handle.is_tombstoned(SessionEpoch(7)));
    assert!(handle.is_cancelled(SessionEpoch(7)));
    assert!(!handle.is_cancelled(SessionEpoch(8)));

    let release = handle.take_emergency().unwrap();
    assert_eq!(release.session_epoch, SessionEpoch(7));
    assert_eq!(
        release.event,
        ReliableInputEvent::ReleaseAll { reason: ReleaseAllReason::BackendFailure }
    );
    handle.emergency_written();
    assert!(handle.next_reliable().is_none());
    assert_eq!(
        handle.try_send_reliable_input(reliable_key_down(7, 3)),
        Err(TransportSendError::UnsupportedMessage)
    );
    handle.try_send_reliable_input(reliable_key_down(8, 1)).unwrap();
    assert_eq!(handle.next_reliable().unwrap().sequence, 1);
}

#[test]
fn occupied_emergency_slot_fails_closed_with_typed_release() {
    let mut handle = fixture_handle(RELIABLE_LANE_CAPACITY);
    handle
        .try_send_emergency(reliable_release(9, 1, ReleaseAllReason::BackendFailure))
        .unwrap();
    assert_eq!(
        handle.try_send_emergency(reliable_release(9, 2, ReleaseAllReason::BackendFailure)),
        Err(TransportSendError::EmergencySlotFull)
    );
    assert_eq!(
        handle.take_releases(),
        vec![TerminalRelease {
            epoch: SessionEpoch(9),
            reason: ReleaseAllReason::BackendFailure
        }]
    );
    assert!(handle.is_tombstoned(SessionEpoch(9)));
    assert_eq!(handle.close, Some(SenderClose::EmergencySlotUnavailable));
    assert!(handle.take_releases().is_empty());
}

#[test]
fn sender_future_emergency_closes_and_releases_sender_active_epoch() {
    let mut handle = fixture_handle(RELIABLE_LANE_CAPACITY);
    handle.try_send_reliable_input(enter(1)).unwrap();
    assert_eq!(
        handle.try_send_emergency(reliable_release(2, 1, ReleaseAllReason::SessionEnded)),
        Err(TransportSendError::UnsupportedMessage)
    );
    assert_eq!(handle.close, Some(SenderClose::FutureEmergency));
    let releases = handle.take_releases();
    assert_eq!(releases.len(), 1);
    let event = releases[0].for_peer(&handle.auth());
    assert_eq!(event.epoch, SessionEpoch(1));
    assert_eq!(event.reason, ReleaseAllReason::BackendFailure);
    assert_eq!(event.auth, fixture_auth(1, 10));
    assert!(!handle.is_tombstoned(SessionEpoch(2)));
    assert!(handle.is_tombstoned(SessionEpoch(1)));
}

#[test]
fn released_epochs_do_not_stand_in_the_way_of_later_emergencies() {
    let ended = ReleaseAllReason::SessionEnded;
    let mut handle = fixture_handle(RELIABLE_LANE_CAPACITY);
    handle.try_send_reliable_input(enter(1)).unwrap();
    handle.try_send_reliable_input(reliable_release(1, 2, ended)).unwrap();
    assert_eq!(handle.try_send_emergency(reliable_release(2, 1, ended)), Ok(()));
    assert_eq!(handle.close, None);
    assert!(handle.take_releases().is_empty());
    assert!(!handle.is_tombstoned(SessionEpoch(1)));
    assert_eq!(handle.take_emergency().unwrap().session_epoch, SessionEpoch(2));

    let mut handle = fixture_handle(RELIABLE_LANE_CAPACITY);
    handle.try_send_reliable_input(enter(1)).unwrap();
    handle.try_send_emergency(reliable_release(1, 2, ended)).unwrap();
    handle.take_emergency().unwrap();
    handle.emergency_written();
    assert_eq!(handle.try_send_emergency(reliable_release(2, 1, ended)), Ok(()));
    assert_eq!(handle.close, None);
    assert!(handle.take_releases().is_empty());

    let mut handle = fixture_handle(RELIABLE_LANE_CAPACITY);
    handle.try_send_reliable_input(enter(2)).unwrap();
    handle.try_send_reliable_input(reliable_release(1, 2, ended)).unwrap();
    assert_eq!(
        handle.try_send_emergency(reliable_release(3, 1, ended)),
        Err(TransportSendError::UnsupportedMessage)
    );
}

#[test]
fn overwritten_cancel_still_resets_blocked_old_epoch_and_allows_new_enter() {
    let blocked_epoch = SessionEpoch(50);
    let text = |epoch, sequence| {
        reliable(epoch, sequence, ReliableInputEvent::TextCommit { text: "x".repeat(3_072) })
    };
    let mut handle = fixture_handle(2);
    handle.try_send_reliable_input(enter(50)).unwrap();
    assert_eq!(handle.next_reliable().unwrap().session_epoch, blocked_epoch);
    handle.try_send_reliable_input(text(50, 2)).unwrap();
    assert_eq!(handle.next_reliable().unwrap().sequence, 2);

    handle.fail_reliable_frame(text(50, 3)).unwrap();
    handle.take_emergency().unwrap();
    handle.emergency_written();
    handle.fail_reliable_frame(text(51, 1)).unwrap();
    assert_eq!(handle.cancelled_through, Some(SessionEpoch(51)));
    assert!(handle.is_cancelled(blocked_epoch));
    let replacement_epoch = SessionEpoch(52);
    assert!(!handle.is_cancelled(replacement_epoch));
    handle.try_send_reliable_input(enter(52)).unwrap();
    assert_eq!(handle.active, Some(replacement_epoch));
    assert_eq!(handle.next_reliable().unwrap().session_epoch, replacement_epoch);

    let mut reversed = fixture_handle(2);
    reversed.fail_reliable_frame(text(51, 1)).unwrap();
    reversed.take_emergency().unwrap();
    reversed.emergency_written();
    reversed.fail_reliable_frame(text(50, 1)).unwrap();
    assert_eq!(reversed.cancelled_through, Some(SessionEpoch(51)));
}

#[test]
fn authenticated_qos_control_and_bulk_use_separate_framed_streams() {
    assert_eq!(
        ClassifiedMessage::try_from(ControlFrame::heartbeat(7, 11).into_message()),
        Ok(ClassifiedMessage::Control(ControlFrame::heartbeat(7, 11)))
    );
    let stopped = BulkFrame::audio_stream_stop(78, "done".into());
    assert_eq!(
        ClassifiedMessage::try_from(stopped.clone().into_message()),
        Ok(ClassifiedMessage::Bulk(stopped))
    );
    let mut handle = fixture_handle(1);
    let measured = TelemetryFrame::latency_probe(13, 17, false, None);
    handle.try_send_telemetry(measured).unwrap();
    assert_eq!(handle.next_telemetry(), Some(measured));

    for message in [
        Message::ClipboardData { mime_type: "text/plain".into(), data: vec![1, 2, 3] },
        Message::AudioStreamStop { stream_id: 79, reason: "compat-audio".into() },
        Message::UsbDeviceDetached { bus_id: "usb:1-2".into(), reason: "gone".into() },
    ] {
        let ClassifiedMessage::Bulk(frame) =
            ClassifiedMessage::try_from(message.clone()).unwrap()
        else {
            panic!("expected bulk lane");
        };
        assert_eq!(frame.into_message(), message);
        let write = plan_message_write(LaneDiscriminator::Bulk, &message, b"{}", false);
        assert_eq!(write.preface, Some(b"RSQ3\x04".to_vec()));
        assert!(matches!(
            read_message(LaneDiscriminator::Bulk, Some(message.clone())),
            MessageStep::Bulk(_)
        ));
        assert!(!matches!(
            read_message(LaneDiscriminator::Control, Some(message)),
            MessageStep::Control(_)
        ));
    }
}

#[test]
fn send_errors_have_their_words() {
    let words = [
        (TransportSendError::ReliableLaneFull, "reliable input lane is full"),
        (TransportSendError::LaneClosed, "transport lane is closed"),
        (TransportSendError::EmergencySlotFull, "emergency slot is occupied"),
        (TransportSendError::UnsupportedMessage, "message is not supported by a QoS lane"),
    ];
    for (error, text) in words {
        assert_eq!(error.text(), text);
    }
}

#[test]
fn emergencies_carry_releases_only() {
    let mut handle = fixture_handle(1);
    assert_eq!(
        handle.try_send_emergency(reliable_key_down(1, 1)),
        Err(TransportSendError::UnsupportedMessage)
    );
    assert!(handle.take_emergency().is_none());
}

#[test]
fn reliable_writer_fault_tombstones_and_emits_terminal_release() {
    let epoch = SessionEpoch(88);
    let mut handle = fixture_handle(2);
    handle.try_send_reliable_input(enter(88)).unwrap();
    let frame = handle.next_reliable().unwrap();
    assert_eq!(handle.reliable_writer_failed(frame), Ok(()));
    assert!(handle.is_tombstoned(epoch));
    assert_eq!(
        handle.try_send_reliable_input(enter(89)),
        Err(TransportSendError::LaneClosed)
    );
    let release = handle.take_emergency().unwrap();
    handle.emergency_writer_failed(&release);
    assert_eq!(
        handle.take_releases(),
        vec![TerminalRelease {
            epoch,
            reason: ReleaseAllReason::BackendFailure
        }]
    );
    handle.emergency_written();
    assert_eq!(
        handle.try_send_emergency(reliable_release(89, 1, ReleaseAllReason::Timeout)),
        Err(TransportSendError::LaneClosed)
    );
}
