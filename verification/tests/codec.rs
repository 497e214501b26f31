use rshare_net::codec::{
    MessageCodec, MessageCodecError, MessageDecoder, RealtimeCodecError, RealtimeInputCodec,
    RealtimeInputKind, ReliableCodecError, ReliableInputCodec, ControlMessageCodec,
    MAX_MESSAGE_SIZE, MAX_RELIABLE_INPUT_FRAME, MAX_TEXT_COMMIT_BYTES,
};
use rshare_net::inbound::{accept_qos_realtime, accept_reliable_state, QosInboundState};
use rshare_net::message::{HandshakeRejectReason, Message, PeerTransportCapabilities};
use rshare_net::types::{
    ButtonState, ClockDomainId, ControlConnectionId, DeviceId, GamepadButton, GamepadDeviceInfo,
    KeyState, MonotonicStamp, MouseButton, RealtimeInputFrame, RealtimeInputPayload,
    ReleaseAllReason, ReliableInputEvent, ReliableInputFrame, SessionEpoch, INPUT_PROTOCOL_VERSION,
};

fn realtime_frame(sequence: u64, payload: RealtimeInputPayload) -> RealtimeInputFrame {
    RealtimeInputFrame {
        protocol_version: INPUT_PROTOCOL_VERSION,
        session_epoch: SessionEpoch(42),
        sequence,
        captured_at: MonotonicStamp::new(ClockDomainId(7), 123_456),
        payload,
    }
}

fn reliable_frame(sequence: u64, event: ReliableInputEvent) -> ReliableInputFrame {
    ReliableInputFrame {
        protocol_version: INPUT_PROTOCOL_VERSION,
        session_epoch: SessionEpoch(4),
        sequence,
        captured_at: MonotonicStamp::new(ClockDomainId(7), 123_456),
        event,
    }
}

fn hello(name: &str) -> Message {
    Message::Hello {
        app_id: "r-sharemouse".to_string(),
        device_id: DeviceId(1),
        device_name: name.to_string(),
        hostname: "test-host".to_string(),
        protocol_version: 1,
        transport_capabilities: PeerTransportCapabilities::required_v3(),
    }
}

fn payload_of(name: &str, value: serde_json::Value) -> Vec<u8> {
    let mut object = serde_json::Map::new();
    object.insert(name.to_string(), value);
    serde_json::to_vec(&serde_json::Value::Object(object)).unwrap()
}

fn object(fields: &[(&str, u64)]) -> serde_json::Value {
    let mut object = serde_json::Map::new();
    for (name, value) in fields {
        object.insert(name.to_string(), serde_json::Value::from(*value));
    }
    serde_json::Value::Object(object)
}

#[test]
fn test_encode_decode() {
    let msg = hello("Test");
    let payload = payload_of("device_name", serde_json::Value::from("Test"));

    let encoded = MessageCodec::encode(&msg, &payload).unwrap();
    let decoded = MessageCodec::decode(&encoded).unwrap();

    let value: serde_json::Value = serde_json::from_slice(&decoded).unwrap();
    assert_eq!(value["device_name"], "Test");
    assert_eq!(encoded[..4], (payload.len() as u32 + 1).to_be_bytes());
    assert_eq!(encoded[4], 0);
}

#[test]
fn test_decoder_streaming() {
    let heartbeat = |sequence: u64, timestamp: u64| {
        payload_of("Heartbeat", object(&[("sequence", sequence), ("timestamp", timestamp)]))
    };
    let msg1 = heartbeat(100, 200);
    let msg2 = heartbeat(300, 400);

    let enc1 = MessageCodec::frame_message(&msg1);
    let enc2 = MessageCodec::frame_message(&msg2);

    let mut decoder = MessageDecoder::new();

    // Feed partial data
    decoder.feed(&enc1[..5]);
    assert!(decoder.try_decode().unwrap().is_none());
    assert_eq!(decoder.buffered(), 5);

    // Feed rest of first message
    decoder.feed(&enc1[5..]);
    let dec1: serde_json::Value =
        serde_json::from_slice(&decoder.try_decode().unwrap().unwrap()).unwrap();
    assert_eq!(dec1["Heartbeat"]["sequence"], 100);
    assert_eq!(dec1["Heartbeat"]["timestamp"], 200);

    // Feed second message
    decoder.feed(&enc2[..]);
    let dec2: serde_json::Value =
        serde_json::from_slice(&decoder.try_decode().unwrap().unwrap()).unwrap();
    assert_eq!(dec2["Heartbeat"]["sequence"], 300);
    assert_eq!(dec2["Heartbeat"]["timestamp"], 400);
    assert_eq!(decoder.buffered(), 0);
}

#[test]
fn a_decoder_refuses_oversized_payloads_and_forgets_on_request() {
    let mut decoder = MessageDecoder::default().with_max_size(3);
    decoder.feed(&[0, 0, 0, 4, 1, 2, 3, 4]);
    assert_eq!(decoder.try_decode(), Err(MessageCodecError::TooLarge { len: 4 }));
    decoder.clear();
    assert_eq!(decoder.buffered(), 0);
    decoder.feed(&[0, 0, 0, 3, 1, 2, 3, 0, 0, 0, 0]);
    assert_eq!(decoder.try_decode(), Ok(Some(vec![1, 2, 3])));
    assert_eq!(decoder.try_decode(), Ok(Some(vec![])));
    assert_eq!(decoder.try_decode(), Ok(None));
}

#[test]
fn test_message_type_tags() {
    assert_eq!(MessageCodec::message_type_tag(&hello("")), 0);
    assert_eq!(
        MessageCodec::message_type_tag(&Message::HelloRejected {
            app_id: "r-sharemouse".to_string(),
            device_id: DeviceId(2),
            reason: HandshakeRejectReason::ApplicationMismatch,
        }),
        3
    );
    assert_eq!(MessageCodec::message_type_tag(&Message::UsbTransfer), 52);
    assert_eq!(MessageCodec::message_type_tag(&Message::UsbDeviceClaimRequest), 55);
}

#[test]
fn hello_rejected_uses_reserved_tag_and_round_trips() {
    let message = Message::HelloRejected {
        app_id: "r-sharemouse".to_string(),
        device_id: DeviceId(2),
        reason: HandshakeRejectReason::ProtocolMismatch { required: 3, received: 2 },
    };

    assert_eq!(MessageCodec::message_type_tag(&message), 3);
    let payload =
        payload_of("ProtocolMismatch", object(&[("required", 3), ("received", 2)]));
    let encoded = MessageCodec::encode(&message, &payload).unwrap();
    let decoded = MessageCodec::decode(&encoded).unwrap();
    assert_eq!(decoded, payload);
    let value: serde_json::Value = serde_json::from_slice(&decoded).unwrap();
    assert_eq!(value["ProtocolMismatch"]["required"], 3);
    assert_eq!(value["ProtocolMismatch"]["received"], 2);
}

#[test]
fn test_max_message_size() {
    let msg = Message::ClipboardData { mime_type: "text/plain".to_string(), data: vec![0u8; 100] };

    let result = MessageCodec::encode(&msg, &[0u8; 100]);
    assert!(result.is_ok());

    let limit = vec![0u8; MAX_MESSAGE_SIZE];
    assert!(ControlMessageCodec::encode(&msg, &limit).is_ok());
    let over = vec![0u8; MAX_MESSAGE_SIZE + 1];
    assert_eq!(
        ControlMessageCodec::encode(&msg, &over),
        Err(MessageCodecError::TooLarge { len: MAX_MESSAGE_SIZE + 1 })
    );
}

#[test]
fn message_frames_are_checked_against_their_length() {
    assert_eq!(MessageCodec::decode(&[0, 0, 0, 1]), Err(MessageCodecError::FrameTooShort { len: 4 }));
    assert_eq!(
        ControlMessageCodec::decode(&[0, 0, 0, 9, 40, 1]),
        Err(MessageCodecError::FrameLengthMismatch { expected: 9, actual: 2 })
    );
    assert_eq!(ControlMessageCodec::decode(&[0, 0, 0, 2, 40, 1]), Ok(vec![1]));
}

#[test]
fn realtime_round_trip_preserves_ordering_metadata() {
    let frame = realtime_frame(9, RealtimeInputPayload::RelativeMouse { dx: 7, dy: -4 });

    let encoded = RealtimeInputCodec::encode(&frame).unwrap();

    assert_eq!(RealtimeInputCodec::decode(&encoded).unwrap(), frame);
}

#[test]
fn realtime_round_trip_preserves_every_payload_variant() {
    let payloads = [
        RealtimeInputPayload::RelativeMouse { dx: i32::MIN, dy: i32::MAX },
        RealtimeInputPayload::AbsoluteAnchor { x: -800, y: 600 },
        RealtimeInputPayload::GamepadAxes {
            gamepad_id: 3,
            left_stick_x: i16::MIN,
            left_stick_y: i16::MAX,
            right_stick_x: -123,
            right_stick_y: 456,
            left_trigger: 1,
            right_trigger: u16::MAX,
        },
        RealtimeInputPayload::CursorVisual { x: -1920, y: 1080, visible: true },
    ];

    for (sequence, payload) in payloads.into_iter().enumerate() {
        let frame = realtime_frame(sequence as u64, payload);
        let encoded = RealtimeInputCodec::encode(&frame).unwrap();
        assert_eq!(RealtimeInputCodec::decode(&encoded).unwrap(), frame);
    }
}

#[test]
fn realtime_encoding_uses_the_exact_fixed_header_layout() {
    let frame = realtime_frame(9, RealtimeInputPayload::RelativeMouse { dx: 7, dy: -4 });

    let encoded = RealtimeInputCodec::encode(&frame).unwrap();

    assert_eq!(encoded.len(), 37 + 8);
    assert_eq!(&encoded[0..2], &INPUT_PROTOCOL_VERSION.to_be_bytes());
    assert_eq!(encoded[2], 1);
    assert_eq!(&encoded[3..5], &8_u16.to_be_bytes());
    assert_eq!(&encoded[5..13], &42_u64.to_be_bytes());
    assert_eq!(&encoded[13..21], &9_u64.to_be_bytes());
    assert_eq!(&encoded[21..29], &7_u64.to_be_bytes());
    assert_eq!(&encoded[29..37], &123_456_u64.to_be_bytes());
    assert_eq!(&encoded[37..41], &7_i32.to_be_bytes());
    assert_eq!(&encoded[41..45], &(-4_i32).to_be_bytes());
}

#[test]
fn realtime_decode_rejects_wrong_version_kind_length_and_trailing_bytes() {
    let frame = realtime_frame(1, RealtimeInputPayload::RelativeMouse { dx: 1, dy: 2 });
    let encoded = RealtimeInputCodec::encode(&frame).unwrap();

    let mut wrong_version = encoded.to_vec();
    wrong_version[0..2].copy_from_slice(&(INPUT_PROTOCOL_VERSION + 1).to_be_bytes());
    assert_eq!(
        RealtimeInputCodec::decode(&wrong_version),
        Err(RealtimeCodecError::UnsupportedVersion { version: INPUT_PROTOCOL_VERSION + 1 })
    );

    let mut unknown_kind = encoded.to_vec();
    unknown_kind[2] = u8::MAX;
    assert_eq!(
        RealtimeInputCodec::decode(&unknown_kind),
        Err(RealtimeCodecError::UnknownKind { kind: u8::MAX })
    );

    let mut wrong_length = encoded.to_vec();
    wrong_length[3..5].copy_from_slice(&u16::MAX.to_be_bytes());
    assert!(RealtimeInputCodec::decode(&wrong_length).is_err());

    let mut truncated = encoded.to_vec();
    truncated.pop();
    assert!(RealtimeInputCodec::decode(&truncated).is_err());

    let mut trailing = encoded.to_vec();
    trailing.push(0);
    assert!(RealtimeInputCodec::decode(&trailing).is_err());

    assert_eq!(RealtimeInputCodec::decode(&[0; 5]), Err(RealtimeCodecError::TooShort { len: 5 }));
}

#[test]
fn realtime_decode_rejects_noncanonical_cursor_visibility() {
    let frame =
        realtime_frame(1, RealtimeInputPayload::CursorVisual { x: 10, y: 20, visible: false });
    let mut encoded = RealtimeInputCodec::encode(&frame).unwrap().to_vec();
    *encoded.last_mut().unwrap() = 2;

    assert!(RealtimeInputCodec::decode(&encoded).is_err());
}

#[test]
fn realtime_encode_rejects_wrong_inner_protocol_version() {
    let mut frame = realtime_frame(1, RealtimeInputPayload::RelativeMouse { dx: 1, dy: 2 });
    frame.protocol_version += 1;

    assert!(RealtimeInputCodec::encode(&frame).is_err());
}

#[test]
fn realtime_kinds_have_fixed_sizes() {
    let sizes: Vec<u16> = [1u8, 2, 3, 4]
        .into_iter()
        .map(|kind| RealtimeInputKind::decode(kind).unwrap().payload_size())
        .collect();
    assert_eq!(sizes, vec![8, 8, 13, 9]);
    assert!(RealtimeInputKind::decode(0).is_err());
    assert!(RealtimeInputKind::decode(5).is_err());
}

#[test]
fn realtime_receiver_filters_out_of_order_frames_after_decode() {
    let owner = ControlConnectionId(5);
    let mut gate = QosInboundState::default();
    let mut enter = reliable_frame(
        1,
        ReliableInputEvent::Enter { target_display_id: "a".to_string(), x: 0, y: 0 },
    );
    enter.session_epoch = SessionEpoch(42);
    accept_reliable_state(&mut gate, owner, &enter);
    let frames = [10u64, 12, 11].map(|sequence| {
        let frame = realtime_frame(
            sequence,
            RealtimeInputPayload::RelativeMouse { dx: sequence as i32, dy: 0 },
        );
        let encoded = RealtimeInputCodec::encode(&frame).unwrap();
        RealtimeInputCodec::decode(&encoded).unwrap()
    });

    assert!(accept_qos_realtime(&mut gate, owner, &frames[0]));
    assert!(accept_qos_realtime(&mut gate, owner, &frames[1]));
    assert!(!accept_qos_realtime(&mut gate, owner, &frames[2]));
}

#[test]
fn reliable_round_trip_preserves_every_event_variant() {
    let events = vec![
        ReliableInputEvent::Enter {
            target_display_id: "display-main".to_string(),
            x: -800,
            y: 600,
        },
        ReliableInputEvent::Leave,
        ReliableInputEvent::ReleaseAll { reason: ReleaseAllReason::OwnershipTransfer },
        ReliableInputEvent::Key { keycode: 0x41, state: KeyState::Released },
        ReliableInputEvent::TextCommit { text: "你好🙂".to_string() },
        ReliableInputEvent::MouseButton {
            button: MouseButton::Back,
            state: ButtonState::Pressed,
            x: -1920,
            y: 1080,
            realtime_anchor_sequence: 19,
        },
        ReliableInputEvent::Wheel { delta_x: i32::MIN, delta_y: i32::MAX },
        ReliableInputEvent::GamepadConnected {
            info: GamepadDeviceInfo {
                gamepad_id: 2,
                name: "test-pad".to_string(),
                vendor_id: Some(0x1234),
                product_id: Some(0x5678),
            },
        },
        ReliableInputEvent::GamepadDisconnected { gamepad_id: 2 },
        ReliableInputEvent::GamepadButton {
            gamepad_id: 2,
            button: GamepadButton::Other(42),
            pressed: true,
        },
    ];

    for (sequence, event) in events.into_iter().enumerate() {
        let frame = reliable_frame(sequence as u64, event);
        let encoded = ReliableInputCodec::encode(&frame).unwrap();
        assert_eq!(ReliableInputCodec::decode(&encoded).unwrap(), frame);
    }
}

#[test]
fn mouse_button_anchor_round_trips_compactly() {
    let frame = reliable_frame(
        22,
        ReliableInputEvent::MouseButton {
            button: MouseButton::Left,
            state: ButtonState::Released,
            x: 800,
            y: 450,
            realtime_anchor_sequence: 19,
        },
    );

    let encoded = ReliableInputCodec::encode(&frame).unwrap();

    assert_eq!(ReliableInputCodec::decode(&encoded).unwrap(), frame);
    assert!(encoded.len() < 96);
}

#[test]
fn reliable_encoding_is_deterministic_and_bounded() {
    let frame = reliable_frame(
        22,
        ReliableInputEvent::Enter {
            target_display_id: "display-main".to_string(),
            x: 800,
            y: 450,
        },
    );

    let first = ReliableInputCodec::encode(&frame).unwrap();
    let second = ReliableInputCodec::encode(&frame).unwrap();

    assert_eq!(first, second);
    assert!(first.len() <= MAX_RELIABLE_INPUT_FRAME + 2);

    let oversized = reliable_frame(
        23,
        ReliableInputEvent::Enter {
            target_display_id: "x".repeat(MAX_RELIABLE_INPUT_FRAME),
            x: 0,
            y: 0,
        },
    );
    assert!(ReliableInputCodec::encode(&oversized).is_err());
    assert!(ReliableInputCodec::decode(&vec![0; MAX_RELIABLE_INPUT_FRAME + 3]).is_err());
}

#[test]
fn reliable_decode_rejects_unknown_outer_protocol_and_event_tag() {
    let frame = reliable_frame(1, ReliableInputEvent::Leave);
    let encoded = ReliableInputCodec::encode(&frame).unwrap();

    let mut unknown_outer = encoded.to_vec();
    unknown_outer[0..2].copy_from_slice(&(INPUT_PROTOCOL_VERSION + 1).to_be_bytes());
    assert!(ReliableInputCodec::decode(&unknown_outer).is_err());

    const EVENT_TAG_OFFSET: usize = 2 + 2 + 8 + 8 + 8 + 8;
    let mut unknown_event = encoded.to_vec();
    assert_eq!(
        &unknown_event[EVENT_TAG_OFFSET..EVENT_TAG_OFFSET + 4],
        &1_u32.to_be_bytes(),
        "the test must mutate the serialized Leave event discriminant"
    );
    unknown_event[EVENT_TAG_OFFSET..EVENT_TAG_OFFSET + 4].copy_from_slice(&u32::MAX.to_be_bytes());
    assert!(ReliableInputCodec::decode(&unknown_event).is_err());
}

#[test]
fn reliable_decode_rejects_truncated_invalid_and_trailing_data() {
    assert!(ReliableInputCodec::decode(&[]).is_err());
    assert!(ReliableInputCodec::decode(&[0]).is_err());

    let frame =
        reliable_frame(1, ReliableInputEvent::Key { keycode: 0x41, state: KeyState::Pressed });
    let encoded = ReliableInputCodec::encode(&frame).unwrap();

    let mut truncated = encoded.to_vec();
    truncated.pop();
    assert!(ReliableInputCodec::decode(&truncated).is_err());

    let mut invalid = encoded.to_vec();
    *invalid.last_mut().unwrap() = u8::MAX;
    assert!(ReliableInputCodec::decode(&invalid).is_err());

    let mut trailing = encoded.to_vec();
    trailing.push(0);
    assert_eq!(
        ReliableInputCodec::decode(&trailing),
        Err(ReliableCodecError::Trailing { consumed: encoded.len() - 2, body: encoded.len() - 1 })
    );
}

#[test]
fn reliable_decode_rejects_outer_and_body_version_mismatch() {
    let frame = reliable_frame(1, ReliableInputEvent::Leave);
    let mut encoded = ReliableInputCodec::encode(&frame).unwrap().to_vec();
    encoded[2..4].copy_from_slice(&(INPUT_PROTOCOL_VERSION + 1).to_be_bytes());

    assert!(ReliableInputCodec::decode(&encoded).is_err());

    let mut wrong_body = frame;
    wrong_body.protocol_version += 1;
    assert!(ReliableInputCodec::encode(&wrong_body).is_err());
}

#[test]
fn text_commit_enforces_utf8_byte_limit_on_encode_and_decode() {
    let boundary_text = "🙂".repeat(MAX_TEXT_COMMIT_BYTES / 4);
    assert_eq!(boundary_text.len(), MAX_TEXT_COMMIT_BYTES);
    let boundary = reliable_frame(1, ReliableInputEvent::TextCommit { text: boundary_text });
    let encoded = ReliableInputCodec::encode(&boundary).unwrap();
    assert!(encoded.len() <= MAX_RELIABLE_INPUT_FRAME + 2);
    assert_eq!(ReliableInputCodec::decode(&encoded).unwrap(), boundary);

    let over_limit_text = "x".repeat(MAX_TEXT_COMMIT_BYTES + 1);
    let over_limit = reliable_frame(2, ReliableInputEvent::TextCommit { text: over_limit_text });
    assert!(ReliableInputCodec::encode(&over_limit).is_err());

    const TEXT_LENGTH_OFFSET: usize = 2 + 2 + 8 + 8 + 8 + 8 + 4;
    let mut over_limit_wire = encoded.to_vec();
    over_limit_wire[TEXT_LENGTH_OFFSET..TEXT_LENGTH_OFFSET + 8]
        .copy_from_slice(&((MAX_TEXT_COMMIT_BYTES + 1) as u64).to_be_bytes());
    over_limit_wire.push(b'x');
    assert!(over_limit_wire.len() <= MAX_RELIABLE_INPUT_FRAME + 2);
    assert!(ReliableInputCodec::decode(&over_limit_wire).is_err());
}

#[test]
fn reliable_frames_have_the_documented_layout() {
    let frame = reliable_frame(
        9,
        ReliableInputEvent::Key { keycode: 0x0102_0304, state: KeyState::Released },
    );
    let encoded = ReliableInputCodec::encode(&frame).unwrap();
    let mut expected = Vec::new();
    expected.extend_from_slice(&INPUT_PROTOCOL_VERSION.to_be_bytes());
    expected.extend_from_slice(&INPUT_PROTOCOL_VERSION.to_be_bytes());
    expected.extend_from_slice(&4u64.to_be_bytes());
    expected.extend_from_slice(&9u64.to_be_bytes());
    expected.extend_from_slice(&7u64.to_be_bytes());
    expected.extend_from_slice(&123_456u64.to_be_bytes());
    expected.extend_from_slice(&3u32.to_be_bytes());
    expected.extend_from_slice(&0x0102_0304u32.to_be_bytes());
    expected.extend_from_slice(&1u32.to_be_bytes());
    assert_eq!(encoded.to_vec(), expected);
}
