//! Wire formats: realtime input datagrams, reliable input frames and framed
//! messages.

use bytes::{Bytes, BytesMut};
use vstd::prelude::*;
use vstd::slice::{slice_subrange, slice_to_vec};
use vstd::utf8::encode_utf8;

use crate::buffer;
use crate::buffer::{buffered, frozen};
use crate::message::Message;
use crate::reliable_wire;
use crate::reliable_wire::{body_bytes, take_body};
use crate::types::{
    ClockDomainId, MonotonicStamp, RealtimeInputFrame, RealtimeInputPayload, ReliableEventView,
    ReliableFrameView, ReliableInputEvent, ReliableInputFrame, SessionEpoch,
    INPUT_PROTOCOL_VERSION,
};
use crate::wire;
use crate::wire::{be16, be32, be64, be_i16, be_i32, from_be16, from_be32, from_be64};

verus! {

broadcast use crate::wire::group_be_lengths;

pub const REALTIME_INPUT_HEADER_SIZE: usize = 37;

pub const RELATIVE_MOUSE_PAYLOAD_SIZE: u16 = 8;

pub const ABSOLUTE_ANCHOR_PAYLOAD_SIZE: u16 = 8;

pub const GAMEPAD_AXES_PAYLOAD_SIZE: u16 = 13;

pub const CURSOR_VISUAL_PAYLOAD_SIZE: u16 = 9;

/// What a realtime datagram carries, as its third byte names it.
#[derive(Debug, Clone, Copy, PartialEq, Eq, Structural)]
pub enum RealtimeInputKind {
    RelativeMouse,
    AbsoluteAnchor,
    GamepadAxes,
    CursorVisual,
}

/// Why a realtime frame cannot be encoded or decoded.
#[derive(Debug, Clone, Copy, PartialEq, Eq, Structural)]
pub enum RealtimeCodecError {
    /// Fewer bytes than a header.
    TooShort { len: usize },
    /// A protocol version other than `INPUT_PROTOCOL_VERSION`.
    UnsupportedVersion { version: u16 },
    /// A kind byte that no payload has.
    UnknownKind { kind: u8 },
    /// A payload size that the kind does not have.
    InvalidPayloadLength { payload_size: u16, kind: u8 },
    /// More or fewer bytes than header and payload need.
    LengthMismatch { expected: usize, actual: usize },
    /// A cursor visibility byte that is neither 0 nor 1.
    InvalidCursorVisibility { value: u8 },
}

impl RealtimeInputKind {
    /// The byte that names this kind.
    pub open spec fn tag(self) -> u8 {
        match self {
            RealtimeInputKind::RelativeMouse => 1,
            RealtimeInputKind::AbsoluteAnchor => 2,
            RealtimeInputKind::GamepadAxes => 3,
            RealtimeInputKind::CursorVisual => 4,
        }
    }

    /// The size of this kind's payload.
    pub open spec fn size(self) -> u16 {
        match self {
            RealtimeInputKind::RelativeMouse => 8,
            RealtimeInputKind::AbsoluteAnchor => 8,
            RealtimeInputKind::GamepadAxes => 13,
            RealtimeInputKind::CursorVisual => 9,
        }
    }

    /// The kind of a payload.
    pub open spec fn of(payload: RealtimeInputPayload) -> RealtimeInputKind {
        match payload {
            RealtimeInputPayload::RelativeMouse { .. } => RealtimeInputKind::RelativeMouse,
            RealtimeInputPayload::AbsoluteAnchor { .. } => RealtimeInputKind::AbsoluteAnchor,
            RealtimeInputPayload::GamepadAxes { .. } => RealtimeInputKind::GamepadAxes,
            RealtimeInputPayload::CursorVisual { .. } => RealtimeInputKind::CursorVisual,
        }
    }

    /// The kind that a byte names.
    pub fn decode(value: u8) -> (kind: Result<Self, RealtimeCodecError>)
        ensures
            match kind {
                Ok(k) => k.tag() == value,
                Err(e) => !(1 <= value <= 4) && e == (RealtimeCodecError::UnknownKind {
                    kind: value,
                }),
            },
    {
        match value {
            1 => Ok(RealtimeInputKind::RelativeMouse),
            2 => Ok(RealtimeInputKind::AbsoluteAnchor),
            3 => Ok(RealtimeInputKind::GamepadAxes),
            4 => Ok(RealtimeInputKind::CursorVisual),
            other => Err(RealtimeCodecError::UnknownKind { kind: other }),
        }
    }

    /// The size of this kind's payload.
    pub fn payload_size(self) -> (size: u16)
        ensures
            size == self.size(),
    {
        match self {
            RealtimeInputKind::RelativeMouse => RELATIVE_MOUSE_PAYLOAD_SIZE,
            RealtimeInputKind::AbsoluteAnchor => ABSOLUTE_ANCHOR_PAYLOAD_SIZE,
            RealtimeInputKind::GamepadAxes => GAMEPAD_AXES_PAYLOAD_SIZE,
            RealtimeInputKind::CursorVisual => CURSOR_VISUAL_PAYLOAD_SIZE,
        }
    }

    fn as_tag(self) -> (tag: u8)
        ensures
            tag == self.tag(),
    {
        match self {
            RealtimeInputKind::RelativeMouse => 1,
            RealtimeInputKind::AbsoluteAnchor => 2,
            RealtimeInputKind::GamepadAxes => 3,
            RealtimeInputKind::CursorVisual => 4,
        }
    }
}

/// The payload part of a realtime datagram.
pub open spec fn realtime_payload_bytes(payload: RealtimeInputPayload) -> Seq<u8> {
    match payload {
        RealtimeInputPayload::RelativeMouse { dx, dy } => be_i32(dx) + be_i32(dy),
        RealtimeInputPayload::AbsoluteAnchor { x, y } => be_i32(x) + be_i32(y),
        RealtimeInputPayload::GamepadAxes {
            gamepad_id,
            left_stick_x,
            left_stick_y,
            right_stick_x,
            right_stick_y,
            left_trigger,
            right_trigger,
        } => seq![gamepad_id] + be_i16(left_stick_x) + be_i16(left_stick_y) + be_i16(right_stick_x)
            + be_i16(right_stick_y) + be16(left_trigger) + be16(right_trigger),
        RealtimeInputPayload::CursorVisual { x, y, visible } => be_i32(x) + be_i32(y) + seq![
            if visible {
                1u8
            } else {
                0u8
            },
        ],
    }
}

/// The header of a realtime datagram.
pub open spec fn realtime_header_bytes(frame: RealtimeInputFrame) -> Seq<u8> {
    be16(frame.protocol_version) + seq![RealtimeInputKind::of(frame.payload).tag()] + be16(
        RealtimeInputKind::of(frame.payload).size(),
    ) + be64(frame.session_epoch.0) + be64(frame.sequence) + be64(frame.captured_at.domain.0)
        + be64(frame.captured_at.value_us)
}

/// A realtime frame on the wire: a fixed header of 37 bytes, then the payload.
pub open spec fn realtime_bytes(frame: RealtimeInputFrame) -> Seq<u8> {
    realtime_header_bytes(frame) + realtime_payload_bytes(frame.payload)
}

/// The first thing wrong with a datagram, in the order in which it is looked at.
pub open spec fn realtime_fault(data: Seq<u8>) -> Option<RealtimeCodecError> {
    let version = from_be16(data);
    let size = from_be16(data.skip(3));
    if data.len() < REALTIME_INPUT_HEADER_SIZE {
        Some(RealtimeCodecError::TooShort { len: data.len() as usize })
    } else if version != INPUT_PROTOCOL_VERSION {
        Some(RealtimeCodecError::UnsupportedVersion { version })
    } else if !(1 <= data[2] <= 4) {
        Some(RealtimeCodecError::UnknownKind { kind: data[2] })
    } else if size != (if data[2] <= 2 {
        8u16
    } else if data[2] == 3 {
        13u16
    } else {
        9u16
    }) {
        Some(RealtimeCodecError::InvalidPayloadLength { payload_size: size, kind: data[2] })
    } else if data.len() != REALTIME_INPUT_HEADER_SIZE + size {
        Some(
            RealtimeCodecError::LengthMismatch {
                expected: (REALTIME_INPUT_HEADER_SIZE + size) as usize,
                actual: data.len() as usize,
            },
        )
    } else if data[2] == 4 && data[45] > 1 {
        Some(RealtimeCodecError::InvalidCursorVisibility { value: data[45] })
    } else {
        None
    }
}

/// Realtime input datagrams.
pub struct RealtimeInputCodec;

impl RealtimeInputCodec {
    /// Puts a frame on the wire. Only frames of the current version have a form.
    pub fn encode(frame: &RealtimeInputFrame) -> (encoded: Result<Bytes, RealtimeCodecError>)
        ensures
            match encoded {
                Ok(bytes) => frame.protocol_version == INPUT_PROTOCOL_VERSION && frozen(bytes)
                    == realtime_bytes(*frame),
                Err(e) => frame.protocol_version != INPUT_PROTOCOL_VERSION && e == (
                RealtimeCodecError::UnsupportedVersion { version: frame.protocol_version }),
            },
    {
        if frame.protocol_version != INPUT_PROTOCOL_VERSION {
            return Err(RealtimeCodecError::UnsupportedVersion { version: frame.protocol_version });
        }
        let kind = match frame.payload {
            RealtimeInputPayload::RelativeMouse { .. } => RealtimeInputKind::RelativeMouse,
            RealtimeInputPayload::AbsoluteAnchor { .. } => RealtimeInputKind::AbsoluteAnchor,
            RealtimeInputPayload::GamepadAxes { .. } => RealtimeInputKind::GamepadAxes,
            RealtimeInputPayload::CursorVisual { .. } => RealtimeInputKind::CursorVisual,
        };
        let payload_size = kind.payload_size();
        let mut encoded = buffer::with_capacity(REALTIME_INPUT_HEADER_SIZE + payload_size as usize);
        buffer::put_u16(&mut encoded, frame.protocol_version);
        buffer::put_u8(&mut encoded, kind.as_tag());
        buffer::put_u16(&mut encoded, payload_size);
        buffer::put_u64(&mut encoded, frame.session_epoch.0);
        buffer::put_u64(&mut encoded, frame.sequence);
        buffer::put_u64(&mut encoded, frame.captured_at.domain.0);
        buffer::put_u64(&mut encoded, frame.captured_at.value_us);
        assert(buffered(encoded) =~= realtime_header_bytes(*frame));
        match frame.payload {
            RealtimeInputPayload::RelativeMouse { dx, dy } => {
                buffer::put_i32(&mut encoded, dx);
                buffer::put_i32(&mut encoded, dy);
            },
            RealtimeInputPayload::AbsoluteAnchor { x, y } => {
                buffer::put_i32(&mut encoded, x);
                buffer::put_i32(&mut encoded, y);
            },
            RealtimeInputPayload::GamepadAxes {
                gamepad_id,
                left_stick_x,
                left_stick_y,
                right_stick_x,
                right_stick_y,
                left_trigger,
                right_trigger,
            } => {
                buffer::put_u8(&mut encoded, gamepad_id);
                buffer::put_i16(&mut encoded, left_stick_x);
                buffer::put_i16(&mut encoded, left_stick_y);
                buffer::put_i16(&mut encoded, right_stick_x);
                buffer::put_i16(&mut encoded, right_stick_y);
                buffer::put_u16(&mut encoded, left_trigger);
                buffer::put_u16(&mut encoded, right_trigger);
            },
            RealtimeInputPayload::CursorVisual { x, y, visible } => {
                buffer::put_i32(&mut encoded, x);
                buffer::put_i32(&mut encoded, y);
                buffer::put_u8(
                    &mut encoded,
                    if visible {
                        1
                    } else {
                        0
                    },
                );
            },
        }
        assert(buffered(encoded) =~= realtime_bytes(*frame));
        Ok(buffer::freeze(encoded))
    }

    /// Reads a frame back. What is accepted is exactly what `encode` produces.
    pub fn decode(data: &[u8]) -> (decoded: Result<RealtimeInputFrame, RealtimeCodecError>)
        ensures
            match decoded {
                Ok(frame) => frame.protocol_version == INPUT_PROTOCOL_VERSION && realtime_bytes(
                    frame,
                ) == data@ && realtime_fault(data@) is None,
                Err(e) => realtime_fault(data@) == Some(e),
            },
    {
        let len: usize = data.len();
        assert(data@.skip(0) =~= data@);
        if len < REALTIME_INPUT_HEADER_SIZE {
            return Err(RealtimeCodecError::TooShort { len });
        }
        let protocol_version: u16 = wire::read_u16(data, 0);
        if protocol_version != INPUT_PROTOCOL_VERSION {
            return Err(RealtimeCodecError::UnsupportedVersion { version: protocol_version });
        }
        let kind = match RealtimeInputKind::decode(data[2]) {
            Ok(kind) => kind,
            Err(error) => {
                return Err(error);
            },
        };
        let payload_size: u16 = wire::read_u16(data, 3);
        if payload_size != kind.payload_size() {
            return Err(RealtimeCodecError::InvalidPayloadLength { payload_size, kind: data[2] });
        }
        let expected: usize = REALTIME_INPUT_HEADER_SIZE + payload_size as usize;
        if len != expected {
            return Err(RealtimeCodecError::LengthMismatch { expected, actual: len });
        }
        let session_epoch = SessionEpoch(wire::read_u64(data, 5));
        let sequence: u64 = wire::read_u64(data, 13);
        let captured_at = MonotonicStamp::new(
            ClockDomainId(wire::read_u64(data, 21)),
            wire::read_u64(data, 29),
        );
        let payload = match kind {
            RealtimeInputKind::RelativeMouse => RealtimeInputPayload::RelativeMouse {
                dx: wire::read_i32(data, 37),
                dy: wire::read_i32(data, 41),
            },
            RealtimeInputKind::AbsoluteAnchor => RealtimeInputPayload::AbsoluteAnchor {
                x: wire::read_i32(data, 37),
                y: wire::read_i32(data, 41),
            },
            RealtimeInputKind::GamepadAxes => RealtimeInputPayload::GamepadAxes {
                gamepad_id: data[37],
                left_stick_x: wire::read_i16(data, 38),
                left_stick_y: wire::read_i16(data, 40),
                right_stick_x: wire::read_i16(data, 42),
                right_stick_y: wire::read_i16(data, 44),
                left_trigger: wire::read_u16(data, 46),
                right_trigger: wire::read_u16(data, 48),
            },
            RealtimeInputKind::CursorVisual => {
                let visible = match data[45] {
                    0 => false,
                    1 => true,
                    other => {
                        return Err(RealtimeCodecError::InvalidCursorVisibility { value: other });
                    },
                };
                RealtimeInputPayload::CursorVisual {
                    x: wire::read_i32(data, 37),
                    y: wire::read_i32(data, 41),
                    visible,
                }
            },
        };
        let frame = RealtimeInputFrame {
            protocol_version,
            session_epoch,
            sequence,
            captured_at,
            payload,
        };
        proof {
            lemma_realtime_header(data@, frame);
            lemma_realtime_payload(data@, frame.payload);
            assert(realtime_bytes(frame) =~= data@);
        }
        Ok(frame)
    }
}

/// The header of a frame whose fields were read out of `data` is the header of `data`.
proof fn lemma_realtime_header(data: Seq<u8>, frame: RealtimeInputFrame)
    requires
        data.len() >= 37,
        frame.protocol_version == from_be16(data),
        RealtimeInputKind::of(frame.payload).tag() == data[2],
        RealtimeInputKind::of(frame.payload).size() == from_be16(data.skip(3)),
        frame.session_epoch.0 == from_be64(data.skip(5)),
        frame.sequence == from_be64(data.skip(13)),
        frame.captured_at.domain.0 == from_be64(data.skip(21)),
        frame.captured_at.value_us == from_be64(data.skip(29)),
    ensures
        realtime_header_bytes(frame) == data.take(37),
{
    wire::lemma_from_be16(data);
    wire::lemma_from_be16(data.skip(3));
    wire::lemma_from_be64(data.skip(5));
    wire::lemma_from_be64(data.skip(13));
    wire::lemma_from_be64(data.skip(21));
    wire::lemma_from_be64(data.skip(29));
    assert(realtime_header_bytes(frame) =~= data.take(2) + seq![data[2]] + data.skip(3).take(2)
        + data.skip(5).take(8) + data.skip(13).take(8) + data.skip(21).take(8) + data.skip(29).take(
        8,
    ));
    assert(realtime_header_bytes(frame) =~= data.take(37));
}

/// The payload that was read out of `data` is what stands behind the header.
proof fn lemma_realtime_payload(data: Seq<u8>, payload: RealtimeInputPayload)
    requires
        data.len() == 37 + RealtimeInputKind::of(payload).size(),
        realtime_payload_read(data, payload),
    ensures
        realtime_payload_bytes(payload) == data.skip(37),
{
    match payload {
        RealtimeInputPayload::GamepadAxes { .. } => {
            assert forall|c: u16| #[trigger] (c as i16) as u16 == c by {
                wire::lemma_signed_casts(0, 0, c, 0);
            }
            wire::lemma_from_be16(data.skip(38));
            wire::lemma_from_be16(data.skip(40));
            wire::lemma_from_be16(data.skip(42));
            wire::lemma_from_be16(data.skip(44));
            wire::lemma_from_be16(data.skip(46));
            wire::lemma_from_be16(data.skip(48));
            assert(realtime_payload_bytes(payload) =~= seq![data[37]] + data.skip(38).take(2)
                + data.skip(40).take(2) + data.skip(42).take(2) + data.skip(44).take(2)
                + data.skip(46).take(2) + data.skip(48).take(2));
        },
        _ => {
            wire::lemma_signed_casts(0, 0, 0, from_be32(data.skip(37)));
            wire::lemma_signed_casts(0, 0, 0, from_be32(data.skip(41)));
            wire::lemma_from_be32(data.skip(37));
            wire::lemma_from_be32(data.skip(41));
            assert(data.skip(37).take(4) + data.skip(41).take(4) =~= data.subrange(37, 45));
        },
    }
    assert(realtime_payload_bytes(payload) =~= data.skip(37));
}

/// What `encode` puts on the wire has no fault: every frame of the current version
/// is decoded again.
pub proof fn realtime_encoding_is_accepted(frame: RealtimeInputFrame)
    requires
        frame.protocol_version == INPUT_PROTOCOL_VERSION,
    ensures
        realtime_fault(realtime_bytes(frame)) is None,
{
    let kind = RealtimeInputKind::of(frame.payload);
    let data = realtime_bytes(frame);
    lemma_realtime_payload_len(frame.payload);
    wire::lemma_be16(frame.protocol_version, data.skip(2));
    assert(data =~= be16(frame.protocol_version) + data.skip(2));
    wire::lemma_be16(kind.size(), data.skip(5));
    assert(data.skip(3) =~= be16(kind.size()) + data.skip(5));
    assert(data[2] == kind.tag());
}

proof fn lemma_realtime_payload_len(payload: RealtimeInputPayload)
    ensures
        realtime_payload_bytes(payload).len() == RealtimeInputKind::of(payload).size(),
{
}

/// Different frames have different encodings. With `realtime_encoding_is_accepted`
/// this makes decoding the inverse of encoding: the frame that comes back is the
/// frame that was sent.
pub proof fn realtime_encoding_is_injective(a: RealtimeInputFrame, b: RealtimeInputFrame)
    requires
        realtime_bytes(a) == realtime_bytes(b),
    ensures
        a == b,
{
    lemma_realtime_reading(a);
    lemma_realtime_reading(b);
}

/// The fields of a frame can be read off its encoding.
proof fn lemma_realtime_reading(f: RealtimeInputFrame)
    ensures
        realtime_fields_read(realtime_bytes(f), f),
        realtime_payload_read(realtime_bytes(f), f.payload),
{
    let data = realtime_bytes(f);
    let payload = realtime_payload_bytes(f.payload);
    let size = RealtimeInputKind::of(f.payload).size();
    let tag = RealtimeInputKind::of(f.payload).tag();
    let r5 = be64(f.captured_at.value_us) + payload;
    let r4 = be64(f.captured_at.domain.0) + r5;
    let r3 = be64(f.sequence) + r4;
    let r2 = be64(f.session_epoch.0) + r3;
    let r1 = be16(size) + r2;
    let r0 = seq![tag] + r1;
    wire::lemma_be16(f.protocol_version, r0);
    wire::lemma_be16(size, r2);
    wire::lemma_be64(f.session_epoch.0, r3);
    wire::lemma_be64(f.sequence, r4);
    wire::lemma_be64(f.captured_at.domain.0, r5);
    wire::lemma_be64(f.captured_at.value_us, payload);
    lemma_concatenation(
        be16(f.protocol_version),
        seq![tag],
        be16(size),
        be64(f.session_epoch.0),
        be64(f.sequence),
        be64(f.captured_at.domain.0),
        be64(f.captured_at.value_us),
        payload,
    );
    assert(data == be16(f.protocol_version) + r0);
    assert(data.skip(3) =~= data.skip(2).skip(1));
    assert(r0.skip(1) =~= r1);
    assert(data.skip(5) =~= data.skip(3).skip(2));
    assert(data.skip(13) =~= data.skip(5).skip(8));
    assert(data.skip(21) =~= data.skip(13).skip(8));
    assert(data.skip(29) =~= data.skip(21).skip(8));
    assert(data.skip(37) =~= data.skip(29).skip(8));
    assert(data[2] == data.skip(2)[0]);
    lemma_realtime_payload_reading(data, f.payload);
}

proof fn lemma_concatenation(
    a: Seq<u8>,
    b: Seq<u8>,
    c: Seq<u8>,
    d: Seq<u8>,
    e: Seq<u8>,
    f: Seq<u8>,
    g: Seq<u8>,
    h: Seq<u8>,
)
    ensures
        (a + b + c + d + e + f + g) + h == a + (b + (c + (d + (e + (f + (g + h)))))),
{
    assert((a + b + c + d + e + f + g) + h =~= a + (b + (c + (d + (e + (f + (g + h)))))));
}

spec fn realtime_fields_read(data: Seq<u8>, f: RealtimeInputFrame) -> bool {
    &&& f.protocol_version == from_be16(data)
    &&& RealtimeInputKind::of(f.payload).tag() == data[2]
    &&& f.session_epoch.0 == from_be64(data.skip(5))
    &&& f.sequence == from_be64(data.skip(13))
    &&& f.captured_at.domain.0 == from_be64(data.skip(21))
    &&& f.captured_at.value_us == from_be64(data.skip(29))
}

spec fn realtime_payload_read(data: Seq<u8>, payload: RealtimeInputPayload) -> bool {
    match payload {
        RealtimeInputPayload::RelativeMouse { dx, dy } => dx == from_be32(data.skip(37)) as i32
            && dy == from_be32(data.skip(41)) as i32,
        RealtimeInputPayload::AbsoluteAnchor { x, y } => x == from_be32(data.skip(37)) as i32 && y
            == from_be32(data.skip(41)) as i32,
        RealtimeInputPayload::GamepadAxes {
            gamepad_id,
            left_stick_x,
            left_stick_y,
            right_stick_x,
            right_stick_y,
            left_trigger,
            right_trigger,
        } => {
            &&& gamepad_id == data[37]
            &&& left_stick_x == from_be16(data.skip(38)) as i16
            &&& left_stick_y == from_be16(data.skip(40)) as i16
            &&& right_stick_x == from_be16(data.skip(42)) as i16
            &&& right_stick_y == from_be16(data.skip(44)) as i16
            &&& left_trigger == from_be16(data.skip(46))
            &&& right_trigger == from_be16(data.skip(48))
        },
        RealtimeInputPayload::CursorVisual { x, y, visible } => x == from_be32(data.skip(37)) as i32
            && y == from_be32(data.skip(41)) as i32 && data[45] == (if visible {
            1u8
        } else {
            0u8
        }),
    }
}

proof fn lemma_realtime_payload_reading(data: Seq<u8>, payload: RealtimeInputPayload)
    requires
        data.len() >= 37,
        data.skip(37) == realtime_payload_bytes(payload),
    ensures
        realtime_payload_read(data, payload),
{
    match payload {
        RealtimeInputPayload::RelativeMouse { dx, dy } => {
            assert(data.subrange(37, 45) =~= data.skip(37));
            lemma_pair_reading(data, dx, dy);
        },
        RealtimeInputPayload::AbsoluteAnchor { x, y } => {
            assert(data.subrange(37, 45) =~= data.skip(37));
            lemma_pair_reading(data, x, y);
        },
        RealtimeInputPayload::GamepadAxes {
            gamepad_id,
            left_stick_x,
            left_stick_y,
            right_stick_x,
            right_stick_y,
            left_trigger,
            right_trigger,
        } => {
            wire::lemma_signed_casts(left_stick_x, 0, 0, 0);
            wire::lemma_signed_casts(left_stick_y, 0, 0, 0);
            wire::lemma_signed_casts(right_stick_x, 0, 0, 0);
            wire::lemma_signed_casts(right_stick_y, 0, 0, 0);
            let r6 = be16(right_trigger) + seq![];
            let r5 = be16(left_trigger) + r6;
            let r4 = be_i16(right_stick_y) + r5;
            let r3 = be_i16(right_stick_x) + r4;
            let r2 = be_i16(left_stick_y) + r3;
            let r1 = be_i16(left_stick_x) + r2;
            wire::lemma_be16(right_trigger, seq![]);
            wire::lemma_be16(left_trigger, r6);
            wire::lemma_be16(right_stick_y as u16, r5);
            wire::lemma_be16(right_stick_x as u16, r4);
            wire::lemma_be16(left_stick_y as u16, r3);
            wire::lemma_be16(left_stick_x as u16, r2);
            lemma_concatenation(
                seq![gamepad_id],
                be_i16(left_stick_x),
                be_i16(left_stick_y),
                be_i16(right_stick_x),
                be_i16(right_stick_y),
                be16(left_trigger),
                be16(right_trigger),
                seq![],
            );
            assert(data.skip(37) =~= realtime_payload_bytes(payload) + Seq::<u8>::empty());
            assert(data.skip(37) == seq![gamepad_id] + r1);
            assert(data[37] == data.skip(37)[0]);
            assert(data.skip(38) =~= data.skip(37).skip(1));
            assert(r1 =~= (seq![gamepad_id] + r1).skip(1));
            assert(data.skip(40) =~= data.skip(38).skip(2));
            assert(data.skip(42) =~= data.skip(40).skip(2));
            assert(data.skip(44) =~= data.skip(42).skip(2));
            assert(data.skip(46) =~= data.skip(44).skip(2));
            assert(data.skip(48) =~= data.skip(46).skip(2));
        },
        RealtimeInputPayload::CursorVisual { x, y, visible } => {
            let pair = be_i32(x) + be_i32(y);
            wire::lemma_be32(x as u32, seq![]);
            wire::lemma_be32(y as u32, seq![]);
            assert(data[45] == data.skip(37)[8]);
            assert(data.subrange(37, 45) =~= data.skip(37).take(8));
            assert(data.skip(37).take(8) =~= pair);
            lemma_pair_reading(data, x, y);
        },
    }
}

proof fn lemma_pair_reading(data: Seq<u8>, x: i32, y: i32)
    requires
        data.len() >= 45,
        data.subrange(37, 45) == be_i32(x) + be_i32(y),
    ensures
        x == from_be32(data.skip(37)) as i32,
        y == from_be32(data.skip(41)) as i32,
{
    wire::lemma_signed_casts(0, x, 0, 0);
    wire::lemma_signed_casts(0, y, 0, 0);
    let pair = data.subrange(37, 45);
    assert(data.skip(37) =~= be_i32(x) + data.skip(41)) by {
        assert forall|i: int| 0 <= i < 4 implies data[37 + i] == be_i32(x)[i] by {
            assert(pair[i] == data[37 + i]);
        }
    }
    assert(data.skip(41) =~= be_i32(y) + data.skip(45)) by {
        assert forall|i: int| 0 <= i < 4 implies data[41 + i] == be_i32(y)[i] by {
            assert(pair[4 + i] == data[41 + i]);
        }
    }
    wire::lemma_be32(x as u32, data.skip(41));
    wire::lemma_be32(y as u32, data.skip(45));
}

/// The largest body of a reliable input frame.
pub const MAX_RELIABLE_INPUT_FRAME: usize = 4096;

/// The longest committed text, in UTF-8 bytes. It leaves room for the frame's fixed
/// fields, the event index and the text's length.
pub const MAX_TEXT_COMMIT_BYTES: usize = 4032;

/// Why a reliable frame cannot be encoded or decoded.
#[allow(inconsistent_fields)]
#[derive(Debug, Clone, Copy, PartialEq, Eq, Structural)]
pub enum ReliableCodecError {
    /// A body version other than `INPUT_PROTOCOL_VERSION`.
    UnsupportedBodyVersion { version: u16 },
    /// A committed text of more than `MAX_TEXT_COMMIT_BYTES` bytes.
    TextCommitTooLong,
    /// A body of more than `MAX_RELIABLE_INPUT_FRAME` bytes.
    BodyTooLarge { len: usize },
    /// Too few bytes for a prefix, or too many for any frame.
    InvalidLength { len: usize },
    /// A prefix other than `INPUT_PROTOCOL_VERSION`.
    UnsupportedOuterVersion { version: u16 },
    /// A body that no frame has.
    Malformed,
    /// Bytes behind the body.
    Trailing { consumed: usize, body: usize },
    /// A prefix and a body that disagree on the version.
    VersionMismatch { outer: u16, body: u16 },
}

/// Whether a frame commits a text that is too long.
pub open spec fn text_commit_too_long(frame: ReliableFrameView) -> bool {
    frame.event matches ReliableEventView::TextCommit { text } && encode_utf8(text).len()
        > MAX_TEXT_COMMIT_BYTES
}

/// Why a frame has no wire form, if it has none.
pub open spec fn reliable_encode_fault(frame: ReliableFrameView) -> Option<ReliableCodecError> {
    if frame.protocol_version != INPUT_PROTOCOL_VERSION {
        Some(ReliableCodecError::UnsupportedBodyVersion { version: frame.protocol_version })
    } else if text_commit_too_long(frame) {
        Some(ReliableCodecError::TextCommitTooLong)
    } else if body_bytes(frame).len() > MAX_RELIABLE_INPUT_FRAME {
        Some(ReliableCodecError::BodyTooLarge { len: body_bytes(frame).len() as usize })
    } else {
        None
    }
}

/// A reliable frame on the wire: the version as a prefix, then the body.
pub open spec fn reliable_bytes(frame: ReliableFrameView) -> Seq<u8> {
    be16(INPUT_PROTOCOL_VERSION) + body_bytes(frame)
}

/// What a reliable frame's bytes mean, or the first thing wrong with them.
pub open spec fn reliable_reading(data: Seq<u8>) -> Result<ReliableFrameView, ReliableCodecError> {
    let outer = from_be16(data);
    let body = data.skip(2);
    if !(2 <= data.len() <= MAX_RELIABLE_INPUT_FRAME + 2) {
        Err(ReliableCodecError::InvalidLength { len: data.len() as usize })
    } else if outer != INPUT_PROTOCOL_VERSION {
        Err(ReliableCodecError::UnsupportedOuterVersion { version: outer })
    } else {
        match take_body(body) {
            None => Err(ReliableCodecError::Malformed),
            Some((frame, rest)) => if rest.len() > 0 {
                Err(
                    ReliableCodecError::Trailing {
                        consumed: (body.len() - rest.len()) as usize,
                        body: body.len() as usize,
                    },
                )
            } else if frame.protocol_version != INPUT_PROTOCOL_VERSION {
                Err(ReliableCodecError::VersionMismatch { outer, body: frame.protocol_version })
            } else if text_commit_too_long(frame) {
                Err(ReliableCodecError::TextCommitTooLong)
            } else {
                Ok(frame)
            },
        }
    }
}

/// Reliable input frames.
pub struct ReliableInputCodec;

impl ReliableInputCodec {
    /// Puts a frame on the wire.
    pub fn encode(frame: &ReliableInputFrame) -> (encoded: Result<Bytes, ReliableCodecError>)
        ensures
            match encoded {
                Ok(bytes) => reliable_encode_fault(frame@) is None && frozen(bytes)
                    == reliable_bytes(frame@),
                Err(e) => reliable_encode_fault(frame@) == Some(e),
            },
    {
        if frame.protocol_version != INPUT_PROTOCOL_VERSION {
            return Err(
                ReliableCodecError::UnsupportedBodyVersion { version: frame.protocol_version },
            );
        }
        if !validate_text_commit_size(frame) {
            return Err(ReliableCodecError::TextCommitTooLong);
        }
        let body = reliable_wire::write_body(frame);
        if body.len() > MAX_RELIABLE_INPUT_FRAME {
            return Err(ReliableCodecError::BodyTooLarge { len: body.len() });
        }
        let mut encoded = buffer::with_capacity(2 + body.len());
        buffer::put_u16(&mut encoded, INPUT_PROTOCOL_VERSION);
        buffer::extend(&mut encoded, body.as_slice());
        assert(buffered(encoded) =~= reliable_bytes(frame@));
        Ok(buffer::freeze(encoded))
    }

    /// Reads a frame back.
    pub fn decode(data: &[u8]) -> (decoded: Result<ReliableInputFrame, ReliableCodecError>)
        ensures
            match decoded {
                Ok(frame) => reliable_reading(data@) == Ok::<ReliableFrameView, ReliableCodecError>(
                    frame@,
                ),
                Err(e) => reliable_reading(data@) == Err::<ReliableFrameView, ReliableCodecError>(
                    e,
                ),
            },
    {
        let len: usize = data.len();
        if len < 2 || len > MAX_RELIABLE_INPUT_FRAME + 2 {
            return Err(ReliableCodecError::InvalidLength { len });
        }
        assert(data@.skip(0) =~= data@);
        let outer: u16 = wire::read_u16(data, 0);
        if outer != INPUT_PROTOCOL_VERSION {
            return Err(ReliableCodecError::UnsupportedOuterVersion { version: outer });
        }
        let body = slice_subrange(data, 2, len);
        assert(body@ =~= data@.skip(2));
        proof {
            reliable_wire::read_body_was_written(body@);
        }
        match reliable_wire::read_body(body) {
            None => Err(ReliableCodecError::Malformed),
            Some((frame, rest)) => {
                if rest.len() > 0 {
                    Err(
                        ReliableCodecError::Trailing {
                            consumed: body.len() - rest.len(),
                            body: body.len(),
                        },
                    )
                } else if frame.protocol_version != INPUT_PROTOCOL_VERSION {
                    Err(
                        ReliableCodecError::VersionMismatch {
                            outer,
                            body: frame.protocol_version,
                        },
                    )
                } else if !validate_text_commit_size(&frame) {
                    Err(ReliableCodecError::TextCommitTooLong)
                } else {
                    Ok(frame)
                }
            },
        }
    }
}

/// Whether a committed text fits. Frames of other events always do.
pub fn validate_text_commit_size(frame: &ReliableInputFrame) -> (fits: bool)
    ensures
        fits == !text_commit_too_long(frame@),
{
    match &frame.event {
        ReliableInputEvent::TextCommit { text } => text.as_str().as_bytes().len()
            <= MAX_TEXT_COMMIT_BYTES,
        _ => true,
    }
}

/// A frame that `encode` accepts is decoded to itself.
pub proof fn reliable_round_trip(frame: ReliableFrameView)
    requires
        reliable_encode_fault(frame) is None,
    ensures
        reliable_reading(reliable_bytes(frame)) == Ok::<ReliableFrameView, ReliableCodecError>(
            frame,
        ),
{
    let body = body_bytes(frame);
    wire::lemma_be16(INPUT_PROTOCOL_VERSION, body);
    assert(body + Seq::<u8>::empty() =~= body);
    reliable_wire::written_body_is_read_back(frame, Seq::<u8>::empty());
}

/// Bytes that decode to a frame are what `encode` makes of that frame.
pub proof fn reliable_reading_is_canonical(data: Seq<u8>)
    ensures
        reliable_reading(data) matches Ok(frame) ==> data == reliable_bytes(frame)
            && reliable_encode_fault(frame) is None,
{
    if reliable_reading(data) is Ok {
        wire::lemma_from_be16(data);
        reliable_wire::read_body_was_written(data.skip(2));
        let frame = reliable_reading(data)->Ok_0;
        assert(body_bytes(frame) + Seq::<u8>::empty() =~= body_bytes(frame));
        let rest = take_body(data.skip(2))->Some_0;
        assert(rest.1 =~= Seq::<u8>::empty());
        assert(data =~= reliable_bytes(frame));
    }
}

/// The largest encoded message.
pub const MAX_MESSAGE_SIZE: usize = 10485760;

/// Length and type tag in front of a framed message.
pub const FRAME_HEADER_SIZE: usize = 5;

/// Why a message cannot be framed, or a frame not be opened.
#[derive(Debug, Clone, Copy, PartialEq, Eq, Structural)]
pub enum MessageCodecError {
    /// A payload, or an announced one, above the limit.
    TooLarge { len: usize },
    /// Fewer bytes than a frame header.
    FrameTooShort { len: usize },
    /// A length field that does not count the bytes behind it.
    FrameLengthMismatch { expected: usize, actual: usize },
}

/// The type tag of a message.
pub open spec fn message_tag(message: Message) -> u8 {
    match message {
        Message::Hello { .. } => 0,
        Message::HelloBack { .. } => 1,
        Message::Goodbye { .. } => 2,
        Message::HelloRejected { .. } => 3,
        Message::MouseMove { .. } => 10,
        Message::MouseButton => 11,
        Message::MouseWheel => 12,
        Message::Key { .. } => 13,
        Message::KeyExtended => 14,
        Message::GamepadConnected => 15,
        Message::GamepadDisconnected => 16,
        Message::GamepadState => 17,
        Message::AudioStreamStart => 18,
        Message::AudioFrame => 19,
        Message::ClipboardData { .. } => 20,
        Message::ClipboardRequest => 21,
        Message::ClipboardResponse => 22,
        Message::AudioStreamStop { .. } => 23,
        Message::AudioStreamError => 24,
        Message::InputDiagnostic => 25,
        Message::LatencyProbe { .. } => 26,
        Message::LatencyProbeAck => 27,
        Message::EndpointEventSubscribe => 28,
        Message::EndpointEventSnapshot => 29,
        Message::ScreenEnter => 30,
        Message::ScreenLeave => 31,
        Message::ScreenUpdate => 32,
        Message::EndpointEventDelta => 33,
        Message::EndpointInjectRequest => 34,
        Message::EndpointInjectResult => 35,
        Message::Heartbeat { .. } => 40,
        Message::Ack { .. } => 41,
        Message::Error { .. } => 42,
        Message::UsbDeviceAttached => 50,
        Message::UsbDeviceDetached { .. } => 51,
        Message::UsbTransfer => 52,
        Message::UsbTransferComplete => 53,
        Message::UsbForwardingError => 54,
        Message::UsbDeviceClaimRequest => 55,
        Message::UsbDeviceClaimResponse => 56,
        Message::UsbDeviceRelease => 57,
        Message::UsbDeviceReset => 58,
        Message::UsbTransferCancel => 59,
        Message::UsbFlowControl => 60,
    }
}

/// A framed message: the length of what follows, the type tag, the payload.
pub open spec fn message_frame(tag: u8, payload: Seq<u8>) -> Seq<u8> {
    be32((1 + payload.len()) as u32) + seq![tag] + payload
}

/// A payload with its length in front.
pub open spec fn length_prefixed(payload: Seq<u8>) -> Seq<u8> {
    be32(payload.len() as u32) + payload
}

/// Framing of encoded messages.
pub struct MessageCodec;

impl MessageCodec {
    /// Frames the payload that `message` was encoded to.
    pub fn encode(message: &Message, payload: &[u8]) -> (frame: Result<Vec<u8>, MessageCodecError>)
        ensures
            match frame {
                Ok(bytes) => payload@.len() <= MAX_MESSAGE_SIZE && bytes@ == message_frame(
                    message_tag(*message),
                    payload@,
                ),
                Err(e) => payload@.len() > MAX_MESSAGE_SIZE && e == (MessageCodecError::TooLarge {
                    len: payload@.len() as usize,
                }),
            },
    {
        let len: usize = payload.len();
        if len > MAX_MESSAGE_SIZE {
            return Err(MessageCodecError::TooLarge { len });
        }
        let mut frame = buffer::with_capacity(FRAME_HEADER_SIZE + len);
        buffer::put_u32(&mut frame, (1 + len) as u32);
        buffer::put_u8(&mut frame, MessageCodec::message_type_tag(message));
        buffer::extend(&mut frame, payload);
        assert(buffered(frame) =~= message_frame(message_tag(*message), payload@));
        Ok(slice_to_vec(buffer::contents(&frame)))
    }

    /// Opens a frame: the payload behind header and tag. The tag is not looked at.
    pub fn decode(data: &[u8]) -> (payload: Result<Vec<u8>, MessageCodecError>)
        ensures
            match payload {
                Ok(bytes) => data@.len() >= FRAME_HEADER_SIZE && from_be32(data@) == data@.len() - 4
                    && bytes@ == data@.skip(5),
                Err(MessageCodecError::FrameTooShort { len }) => len == data@.len() && len
                    < FRAME_HEADER_SIZE,
                Err(MessageCodecError::FrameLengthMismatch { expected, actual }) => data@.len()
                    >= FRAME_HEADER_SIZE && expected == from_be32(data@) && actual == data@.len()
                    - 4 && expected != actual,
                Err(MessageCodecError::TooLarge { .. }) => false,
            },
    {
        let len: usize = data.len();
        if len < FRAME_HEADER_SIZE {
            return Err(MessageCodecError::FrameTooShort { len });
        }
        assert(data@.skip(0) =~= data@);
        let expected: usize = wire::read_u32(data, 0) as usize;
        let actual: usize = len - 4;
        if expected != actual {
            return Err(MessageCodecError::FrameLengthMismatch { expected, actual });
        }
        let payload = slice_subrange(data, FRAME_HEADER_SIZE, len);
        assert(payload@ =~= data@.skip(5));
        Ok(slice_to_vec(payload))
    }

    /// The type tag of a message.
    pub fn message_type_tag(message: &Message) -> (tag: u8)
        ensures
            tag == message_tag(*message),
    {
        match message {
            Message::Hello { .. } => 0,
            Message::HelloBack { .. } => 1,
            Message::Goodbye { .. } => 2,
            Message::HelloRejected { .. } => 3,
            Message::MouseMove { .. } => 10,
            Message::MouseButton => 11,
            Message::MouseWheel => 12,
            Message::Key { .. } => 13,
            Message::KeyExtended => 14,
            Message::GamepadConnected => 15,
            Message::GamepadDisconnected => 16,
            Message::GamepadState => 17,
            Message::AudioStreamStart => 18,
            Message::AudioFrame => 19,
            Message::ClipboardData { .. } => 20,
            Message::ClipboardRequest => 21,
            Message::ClipboardResponse => 22,
            Message::AudioStreamStop { .. } => 23,
            Message::AudioStreamError => 24,
            Message::InputDiagnostic => 25,
            Message::LatencyProbe { .. } => 26,
            Message::LatencyProbeAck => 27,
            Message::EndpointEventSubscribe => 28,
            Message::EndpointEventSnapshot => 29,
            Message::ScreenEnter => 30,
            Message::ScreenLeave => 31,
            Message::ScreenUpdate => 32,
            Message::EndpointEventDelta => 33,
            Message::EndpointInjectRequest => 34,
            Message::EndpointInjectResult => 35,
            Message::Heartbeat { .. } => 40,
            Message::Ack { .. } => 41,
            Message::Error { .. } => 42,
            Message::UsbDeviceAttached => 50,
            Message::UsbDeviceDetached { .. } => 51,
            Message::UsbTransfer => 52,
            Message::UsbTransferComplete => 53,
            Message::UsbForwardingError => 54,
            Message::UsbDeviceClaimRequest => 55,
            Message::UsbDeviceClaimResponse => 56,
            Message::UsbDeviceRelease => 57,
            Message::UsbDeviceReset => 58,
            Message::UsbTransferCancel => 59,
            Message::UsbFlowControl => 60,
        }
    }

    /// Puts a payload's length in front of it, for a stream. The length field holds
    /// 32 bits, so of a longer payload only the low bits of the length are sent.
    pub fn frame_message(payload: &[u8]) -> (frame: BytesMut)
        requires
            payload@.len() + 4 <= isize::MAX,
        ensures
            buffered(frame) == length_prefixed(payload@),
    {
        let mut frame = buffer::with_capacity(4 + payload.len());
        buffer::put_u32(&mut frame, payload.len() as u32);
        buffer::extend(&mut frame, payload);
        assert(buffered(frame) =~= length_prefixed(payload@));
        frame
    }
}

/// Framing of control messages, the same as any other message's.
pub struct ControlMessageCodec;

impl ControlMessageCodec {
    /// Frames the payload that `message` was encoded to.
    pub fn encode(message: &Message, payload: &[u8]) -> (frame: Result<Vec<u8>, MessageCodecError>)
        ensures
            match frame {
                Ok(bytes) => payload@.len() <= MAX_MESSAGE_SIZE && bytes@ == message_frame(
                    message_tag(*message),
                    payload@,
                ),
                Err(e) => payload@.len() > MAX_MESSAGE_SIZE && e == (MessageCodecError::TooLarge {
                    len: payload@.len() as usize,
                }),
            },
    {
        MessageCodec::encode(message, payload)
    }

    /// Opens a frame: the payload behind header and tag.
    pub fn decode(data: &[u8]) -> (payload: Result<Vec<u8>, MessageCodecError>)
        ensures
            match payload {
                Ok(bytes) => data@.len() >= FRAME_HEADER_SIZE && from_be32(data@) == data@.len() - 4
                    && bytes@ == data@.skip(5),
                Err(MessageCodecError::FrameTooShort { len }) => len == data@.len() && len
                    < FRAME_HEADER_SIZE,
                Err(MessageCodecError::FrameLengthMismatch { expected, actual }) => data@.len()
                    >= FRAME_HEADER_SIZE && expected == from_be32(data@) && actual == data@.len()
                    - 4 && expected != actual,
                Err(MessageCodecError::TooLarge { .. }) => false,
            },
    {
        MessageCodec::decode(data)
    }
}

/// A framed payload is opened to itself, whatever its tag.
pub proof fn message_frame_round_trip(tag: u8, payload: Seq<u8>)
    requires
        payload.len() <= MAX_MESSAGE_SIZE,
    ensures
        ({
            let data = message_frame(tag, payload);
            data.len() >= FRAME_HEADER_SIZE && from_be32(data) == data.len() - 4 && data.skip(5)
                == payload
        }),
{
    let count = (1 + payload.len()) as u32;
    let data = message_frame(tag, payload);
    assert(data =~= be32(count) + (seq![tag] + payload));
    wire::lemma_be32(count, seq![tag] + payload);
    assert(data.skip(5) =~= payload);
}

/// Messages of different kinds have different tags: a tag names at most one kind.
pub proof fn message_tags_tell_kinds_apart(a: Message, b: Message)
    requires
        message_tag(a) == message_tag(b),
    ensures
        a is Hello <==> b is Hello,
        a is HelloBack <==> b is HelloBack,
        a is HelloRejected <==> b is HelloRejected,
        a is Goodbye <==> b is Goodbye,
        a is MouseMove <==> b is MouseMove,
        a is MouseButton <==> b is MouseButton,
        a is MouseWheel <==> b is MouseWheel,
        a is Key <==> b is Key,
        a is KeyExtended <==> b is KeyExtended,
        a is GamepadConnected <==> b is GamepadConnected,
        a is GamepadDisconnected <==> b is GamepadDisconnected,
        a is GamepadState <==> b is GamepadState,
        a is InputDiagnostic <==> b is InputDiagnostic,
        a is LatencyProbe <==> b is LatencyProbe,
        a is LatencyProbeAck <==> b is LatencyProbeAck,
        a is EndpointEventSubscribe <==> b is EndpointEventSubscribe,
        a is EndpointEventSnapshot <==> b is EndpointEventSnapshot,
        a is EndpointEventDelta <==> b is EndpointEventDelta,
        a is EndpointInjectRequest <==> b is EndpointInjectRequest,
        a is EndpointInjectResult <==> b is EndpointInjectResult,
        a is AudioStreamStart <==> b is AudioStreamStart,
        a is AudioFrame <==> b is AudioFrame,
        a is AudioStreamStop <==> b is AudioStreamStop,
        a is AudioStreamError <==> b is AudioStreamError,
        a is ClipboardData <==> b is ClipboardData,
        a is ClipboardRequest <==> b is ClipboardRequest,
        a is ClipboardResponse <==> b is ClipboardResponse,
        a is ScreenEnter <==> b is ScreenEnter,
        a is ScreenLeave <==> b is ScreenLeave,
        a is ScreenUpdate <==> b is ScreenUpdate,
        a is Heartbeat <==> b is Heartbeat,
        a is Ack <==> b is Ack,
        a is Error <==> b is Error,
        a is UsbDeviceAttached <==> b is UsbDeviceAttached,
        a is UsbDeviceDetached <==> b is UsbDeviceDetached,
        a is UsbTransfer <==> b is UsbTransfer,
        a is UsbTransferComplete <==> b is UsbTransferComplete,
        a is UsbForwardingError <==> b is UsbForwardingError,
        a is UsbDeviceClaimRequest <==> b is UsbDeviceClaimRequest,
        a is UsbDeviceClaimResponse <==> b is UsbDeviceClaimResponse,
        a is UsbDeviceRelease <==> b is UsbDeviceRelease,
        a is UsbDeviceReset <==> b is UsbDeviceReset,
        a is UsbTransferCancel <==> b is UsbTransferCancel,
        a is UsbFlowControl <==> b is UsbFlowControl,
{
}

/// What one decoding step makes of the bytes at hand.
pub enum DecodeStep {
    /// No complete payload yet.
    Wait,
    /// An announced length above the limit.
    TooLarge { len: nat },
    /// A complete payload, and the bytes behind it.
    Payload { payload: Seq<u8>, rest: Seq<u8> },
}

/// One decoding step on `bytes`, with payloads of at most `max` bytes.
pub open spec fn decode_step(bytes: Seq<u8>, max: nat) -> DecodeStep {
    let len = from_be32(bytes);
    if bytes.len() < 4 {
        DecodeStep::Wait
    } else if len > max {
        DecodeStep::TooLarge { len: len as nat }
    } else if bytes.len() < 4 + len {
        DecodeStep::Wait
    } else {
        DecodeStep::Payload {
            payload: bytes.subrange(4, 4 + len as int),
            rest: bytes.skip(4 + len as int),
        }
    }
}

/// Takes length-prefixed payloads out of a byte stream that arrives in pieces.
pub struct MessageDecoder {
    pub buffer: BytesMut,
    pub max_message_size: usize,
}

impl MessageDecoder {
    /// The bytes that have arrived and were not taken out yet.
    pub open spec fn pending(self) -> Seq<u8> {
        buffered(self.buffer)
    }

    /// A decoder for payloads of at most `MAX_MESSAGE_SIZE` bytes.
    pub fn new() -> (decoder: Self)
        ensures
            decoder.pending() == Seq::<u8>::empty(),
            decoder.max_message_size == MAX_MESSAGE_SIZE,
    {
        MessageDecoder {
            buffer: buffer::with_capacity(8192),
            max_message_size: MAX_MESSAGE_SIZE,
        }
    }

    /// The same decoder with another limit.
    pub fn with_max_size(self, max_size: usize) -> (decoder: Self)
        ensures
            decoder.pending() == self.pending(),
            decoder.max_message_size == max_size,
    {
        MessageDecoder { buffer: self.buffer, max_message_size: max_size }
    }

    /// Adds bytes that have arrived.
    pub fn feed(&mut self, data: &[u8])
        requires
            old(self).pending().len() + data@.len() <= isize::MAX,
        ensures
            final(self).pending() == old(self).pending() + data@,
            final(self).max_message_size == old(self).max_message_size,
    {
        buffer::extend(&mut self.buffer, data);
    }

    /// Takes one complete payload out, if there is one.
    pub fn try_decode(&mut self) -> (decoded: Result<Option<Vec<u8>>, MessageCodecError>)
        ensures
            final(self).max_message_size == old(self).max_message_size,
            match decode_step(old(self).pending(), old(self).max_message_size as nat) {
                DecodeStep::Wait => decoded == Ok::<Option<Vec<u8>>, MessageCodecError>(None)
                    && final(self).pending() == old(self).pending(),
                DecodeStep::TooLarge { len } => decoded == Err::<Option<Vec<u8>>, MessageCodecError>(
                    MessageCodecError::TooLarge { len: len as usize },
                ) && final(self).pending() == old(self).pending(),
                DecodeStep::Payload { payload, rest } => (decoded matches Ok(Some(bytes))
                    && bytes@ == payload) && final(self).pending() == rest,
            },
    {
        let have: usize = buffer::length(&self.buffer);
        if have < 4 {
            return Ok(None);
        }
        let bytes = buffer::contents(&self.buffer);
        assert(bytes@.skip(0) =~= bytes@);
        let len: usize = wire::read_u32(bytes, 0) as usize;
        if len > self.max_message_size {
            return Err(MessageCodecError::TooLarge { len });
        }
        if have - 4 < len {
            return Ok(None);
        }
        let payload = slice_to_vec(slice_subrange(bytes, 4, 4 + len));
        buffer::advance(&mut self.buffer, 4 + len);
        Ok(Some(payload))
    }

    /// Forgets the bytes that have arrived.
    pub fn clear(&mut self)
        ensures
            final(self).pending() == Seq::<u8>::empty(),
            final(self).max_message_size == old(self).max_message_size,
    {
        buffer::clear(&mut self.buffer);
    }

    /// How many bytes wait to be taken out.
    pub fn buffered(&self) -> (count: usize)
        ensures
            count == self.pending().len(),
    {
        buffer::length(&self.buffer)
    }
}

impl Default for MessageDecoder {
    fn default() -> (decoder: Self)
        ensures
            decoder.pending() == Seq::<u8>::empty(),
            decoder.max_message_size == MAX_MESSAGE_SIZE,
    {
        MessageDecoder::new()
    }
}

/// Everything that repeated decoding takes out of `bytes`, and what is left.
pub open spec fn drain(bytes: Seq<u8>, max: nat) -> (Seq<Seq<u8>>, Seq<u8>)
    decreases bytes.len(),
{
    match decode_step(bytes, max) {
        DecodeStep::Payload { payload, rest } => if rest.len() < bytes.len() {
            let (payloads, left) = drain(rest, max);
            (seq![payload] + payloads, left)
        } else {
            (seq![], bytes)
        },
        _ => (seq![], bytes),
    }
}

/// A complete payload stays what it is when more bytes arrive behind it.
proof fn lemma_step_extends(bytes: Seq<u8>, more: Seq<u8>, max: nat)
    ensures
        match decode_step(bytes, max) {
            DecodeStep::Wait => true,
            DecodeStep::TooLarge { len } => decode_step(bytes + more, max) == (
            DecodeStep::TooLarge { len }),
            DecodeStep::Payload { payload, rest } => decode_step(bytes + more, max) == (
            DecodeStep::Payload { payload, rest: rest + more }) && rest.len() < bytes.len(),
        },
{
    if bytes.len() >= 4 {
        wire::lemma_from_be32(bytes);
        wire::lemma_be32(from_be32(bytes), bytes.skip(4) + more);
        assert(bytes + more =~= be32(from_be32(bytes)) + (bytes.skip(4) + more));
        let len = from_be32(bytes) as int;
        if bytes.len() >= 4 + len {
            assert((bytes + more).subrange(4, 4 + len) =~= bytes.subrange(4, 4 + len));
            assert((bytes + more).skip(4 + len) =~= bytes.skip(4 + len) + more);
        }
    }
}

/// It does not matter how a stream is cut: taking out what `first` completes, feeding
/// `second` and taking out the rest gives the same payloads, in the same order, and
/// leaves the same bytes as decoding both at once.
pub proof fn decoding_ignores_cuts(first: Seq<u8>, second: Seq<u8>, max: nat)
    ensures
        ({
            let (early, left) = drain(first, max);
            let (late, end) = drain(left + second, max);
            drain(first + second, max) == (early + late, end)
        }),
    decreases first.len(),
{
    lemma_step_extends(first, second, max);
    match decode_step(first, max) {
        DecodeStep::Payload { payload, rest } => {
            decoding_ignores_cuts(rest, second, max);
            let (early, left) = drain(rest, max);
            let (late, end) = drain(left + second, max);
            assert((rest + second).len() < (first + second).len());
            assert(drain(first + second, max) == (seq![payload] + (early + late), end));
            assert(seq![payload] + (early + late) =~= (seq![payload] + early) + late);
        },
        _ => {
            let (late, end) = drain(first + second, max);
            assert(Seq::<Seq<u8>>::empty() + late =~= late);
        },
    }
}

/// The stream that carries `payloads` one behind the other.
pub open spec fn stream_of(payloads: Seq<Seq<u8>>) -> Seq<u8>
    decreases payloads.len(),
{
    if payloads.len() == 0 {
        seq![]
    } else {
        length_prefixed(payloads[0]) + stream_of(payloads.skip(1))
    }
}

/// Payloads that were framed one behind the other are taken out again, all of them and
/// in order, and nothing is left. They have to fit the decoder's limit and the 32 bits
/// of the length field.
pub proof fn framed_stream_round_trip(payloads: Seq<Seq<u8>>, max: nat)
    requires
        forall|i: int|
            0 <= i < payloads.len() ==> (#[trigger] payloads[i]).len() <= max
                && payloads[i].len() <= u32::MAX,
    ensures
        drain(stream_of(payloads), max) == (payloads, Seq::<u8>::empty()),
    decreases payloads.len(),
{
    let bytes = stream_of(payloads);
    if payloads.len() > 0 {
        let first = payloads[0];
        let rest = stream_of(payloads.skip(1));
        framed_stream_round_trip(payloads.skip(1), max);
        assert(bytes =~= be32(first.len() as u32) + (first + rest));
        wire::lemma_be32(first.len() as u32, first + rest);
        assert(bytes.subrange(4, 4 + first.len() as int) =~= first);
        assert(bytes.skip(4 + first.len() as int) =~= rest);
        assert(seq![first] + payloads.skip(1) =~= payloads);
    } else {
        assert(payloads =~= seq![]);
    }
}

/// Where everything stands in a realtime datagram. Numbers are spelled by their bytes, the most
/// significant first; the length field counts what follows the header.
pub proof fn realtime_datagrams_have_a_fixed_layout(frame: RealtimeInputFrame)
    ensures
        ({
            let data = realtime_bytes(frame);
            &&& data.len() >= 37
            &&& wire::number(data.subrange(0, 2)) == frame.protocol_version
            &&& wire::number(data.subrange(3, 5)) == data.len() - 37
            &&& wire::number(data.subrange(5, 13)) == frame.session_epoch.0
            &&& wire::number(data.subrange(13, 21)) == frame.sequence
            &&& wire::number(data.subrange(21, 29)) == frame.captured_at.domain.0
            &&& wire::number(data.subrange(29, 37)) == frame.captured_at.value_us
            &&& match frame.payload {
                RealtimeInputPayload::RelativeMouse { dx, dy } => data[2] == 1 && data.len() == 45
                    && wire::number(data.subrange(37, 41)) == dx as u32 && wire::number(
                    data.subrange(41, 45),
                ) == dy as u32,
                RealtimeInputPayload::AbsoluteAnchor { x, y } => data[2] == 2 && data.len() == 45
                    && wire::number(data.subrange(37, 41)) == x as u32 && wire::number(
                    data.subrange(41, 45),
                ) == y as u32,
                RealtimeInputPayload::GamepadAxes { .. } => data[2] == 3 && data.len() == 50,
                RealtimeInputPayload::CursorVisual { x, y, visible } => data[2] == 4 && data.len()
                    == 46 && wire::number(data.subrange(37, 41)) == x as u32 && wire::number(
                    data.subrange(41, 45),
                ) == y as u32 && (data[45] == 1 <==> visible) && (data[45] == 0 <==> !visible),
            }
        }),
{
    let data = realtime_bytes(frame);
    let kind = RealtimeInputKind::of(frame.payload);
    let rest = realtime_payload_bytes(frame.payload);
    lemma_realtime_payload_len(frame.payload);
    assert(data.subrange(0, 2) =~= be16(frame.protocol_version));
    assert(data.subrange(3, 5) =~= be16(kind.size()));
    assert(data.subrange(5, 13) =~= be64(frame.session_epoch.0));
    assert(data.subrange(13, 21) =~= be64(frame.sequence));
    assert(data.subrange(21, 29) =~= be64(frame.captured_at.domain.0));
    assert(data.subrange(29, 37) =~= be64(frame.captured_at.value_us));
    wire::numbers_are_spelled_by_their_bytes(frame.protocol_version, 0, frame.session_epoch.0);
    wire::numbers_are_spelled_by_their_bytes(kind.size(), 0, frame.sequence);
    wire::numbers_are_spelled_by_their_bytes(0, 0, frame.captured_at.domain.0);
    wire::numbers_are_spelled_by_their_bytes(0, 0, frame.captured_at.value_us);
    match frame.payload {
        RealtimeInputPayload::RelativeMouse { dx, dy } => {
            assert(data.subrange(37, 41) =~= be_i32(dx));
            assert(data.subrange(41, 45) =~= be_i32(dy));
            wire::numbers_are_spelled_by_their_bytes(0, dx as u32, 0);
            wire::numbers_are_spelled_by_their_bytes(0, dy as u32, 0);
        },
        RealtimeInputPayload::AbsoluteAnchor { x, y } => {
            assert(data.subrange(37, 41) =~= be_i32(x));
            assert(data.subrange(41, 45) =~= be_i32(y));
            wire::numbers_are_spelled_by_their_bytes(0, x as u32, 0);
            wire::numbers_are_spelled_by_their_bytes(0, y as u32, 0);
        },
        RealtimeInputPayload::GamepadAxes { .. } => {},
        RealtimeInputPayload::CursorVisual { x, y, visible } => {
            assert(data.subrange(37, 41) =~= be_i32(x));
            assert(data.subrange(41, 45) =~= be_i32(y));
            wire::numbers_are_spelled_by_their_bytes(0, x as u32, 0);
            wire::numbers_are_spelled_by_their_bytes(0, y as u32, 0);
        },
    }
}

/// The axes of a gamepad stand in a datagram one behind the other: the gamepad's number, the
/// left stick, the right stick, the left trigger, the right trigger.
pub proof fn gamepad_datagrams_have_a_fixed_layout(frame: RealtimeInputFrame)
    ensures
        frame.payload matches RealtimeInputPayload::GamepadAxes {
            gamepad_id,
            left_stick_x,
            left_stick_y,
            right_stick_x,
            right_stick_y,
            left_trigger,
            right_trigger,
        } ==> {
            let data = realtime_bytes(frame);
            &&& data[37] == gamepad_id
            &&& wire::number(data.subrange(38, 40)) == left_stick_x as u16
            &&& wire::number(data.subrange(40, 42)) == left_stick_y as u16
            &&& wire::number(data.subrange(42, 44)) == right_stick_x as u16
            &&& wire::number(data.subrange(44, 46)) == right_stick_y as u16
            &&& wire::number(data.subrange(46, 48)) == left_trigger
            &&& wire::number(data.subrange(48, 50)) == right_trigger
        },
{
    if let RealtimeInputPayload::GamepadAxes {
        gamepad_id,
        left_stick_x,
        left_stick_y,
        right_stick_x,
        right_stick_y,
        left_trigger,
        right_trigger,
    } = frame.payload {
        let data = realtime_bytes(frame);
        assert(data.subrange(38, 40) =~= be_i16(left_stick_x));
        assert(data.subrange(40, 42) =~= be_i16(left_stick_y));
        assert(data.subrange(42, 44) =~= be_i16(right_stick_x));
        assert(data.subrange(44, 46) =~= be_i16(right_stick_y));
        assert(data.subrange(46, 48) =~= be16(left_trigger));
        assert(data.subrange(48, 50) =~= be16(right_trigger));
        wire::numbers_are_spelled_by_their_bytes(left_stick_x as u16, 0, 0);
        wire::numbers_are_spelled_by_their_bytes(left_stick_y as u16, 0, 0);
        wire::numbers_are_spelled_by_their_bytes(right_stick_x as u16, 0, 0);
        wire::numbers_are_spelled_by_their_bytes(right_stick_y as u16, 0, 0);
        wire::numbers_are_spelled_by_their_bytes(left_trigger, 0, 0);
        wire::numbers_are_spelled_by_their_bytes(right_trigger, 0, 0);
    }
}

/// A datagram is accepted only if it has the version, the kind, the length field and the length
/// of some payload. The first of these that is wrong is named, with what was found.
pub proof fn faulty_datagrams_are_refused(data: Seq<u8>)
    requires
        data.len() <= usize::MAX,
    ensures
        ({
            let version = wire::number(data.subrange(0, 2));
            let size = wire::number(data.subrange(3, 5));
            let known = data[2] == 1 || data[2] == 2 || data[2] == 3 || data[2] == 4;
            let fits = (data[2] == 3 && size == 13) || (data[2] == 4 && size == 9) || ((data[2] == 1
                || data[2] == 2) && size == 8);
            match realtime_fault(data) {
                Some(RealtimeCodecError::TooShort { len }) => len == data.len() && data.len() < 37,
                Some(RealtimeCodecError::UnsupportedVersion { version: found }) => data.len() >= 37
                    && found == version && version != INPUT_PROTOCOL_VERSION,
                Some(RealtimeCodecError::UnknownKind { kind }) => data.len() >= 37 && version
                    == INPUT_PROTOCOL_VERSION && kind == data[2] && !known,
                Some(RealtimeCodecError::InvalidPayloadLength { payload_size, kind }) => data.len()
                    >= 37 && version == INPUT_PROTOCOL_VERSION && known && payload_size == size
                    && kind == data[2] && !fits,
                Some(RealtimeCodecError::LengthMismatch { expected, actual }) => data.len() >= 37
                    && version == INPUT_PROTOCOL_VERSION && fits && expected == 37 + size && actual
                    == data.len() && expected != actual,
                Some(RealtimeCodecError::InvalidCursorVisibility { value }) => version
                    == INPUT_PROTOCOL_VERSION && fits && data.len() == 46 && data[2] == 4 && value
                    == data[45] && value != 0 && value != 1,
                None => version == INPUT_PROTOCOL_VERSION && fits && data.len() == 37 + size && (
                data[2] == 4 ==> data[45] == 0 || data[45] == 1),
            }
        }),
{
    if data.len() >= 37 {
        wire::numbers_are_read_as_they_are_spelled(data);
        wire::numbers_are_read_as_they_are_spelled(data.skip(3));
        assert(data.subrange(0, 2) =~= data.take(2));
        assert(data.subrange(3, 5) =~= data.skip(3).take(2));
    }
}

/// A reliable frame starts with the version, in two bytes, and is refused with another one, or
/// if it is too short for that or too long for any frame.
pub proof fn reliable_frames_start_with_the_version(frame: ReliableFrameView, data: Seq<u8>)
    requires
        data.len() <= usize::MAX,
    ensures
        wire::number(reliable_bytes(frame).take(2)) == INPUT_PROTOCOL_VERSION,
        reliable_bytes(frame).skip(2) == body_bytes(frame),
        data.len() < 2 || data.len() > 4098 ==> reliable_reading(data) == Err::<
            ReliableFrameView,
            _,
        >(ReliableCodecError::InvalidLength { len: data.len() as usize }),
        2 <= data.len() <= 4098 && wire::number(data.take(2)) != INPUT_PROTOCOL_VERSION ==> (
        reliable_reading(data) matches Err(
            ReliableCodecError::UnsupportedOuterVersion { version },
        ) && version == wire::number(data.take(2))),
{
    wire::numbers_are_spelled_by_their_bytes(INPUT_PROTOCOL_VERSION, 0, 0);
    wire::numbers_are_read_as_they_are_spelled(data);
    assert(reliable_bytes(frame).take(2) =~= be16(INPUT_PROTOCOL_VERSION));
    assert(reliable_bytes(frame).skip(2) =~= body_bytes(frame));
}

/// A frame that is read is one of the current version, and commits no text of more than
/// 4032 bytes; nor is one written that is another version's, or that commits a longer text.
pub proof fn reliable_frames_keep_their_limits(frame: ReliableFrameView, data: Seq<u8>)
    ensures
        reliable_reading(data) == Ok::<ReliableFrameView, ReliableCodecError>(frame)
            || reliable_encode_fault(frame) is None ==> frame.protocol_version
            == INPUT_PROTOCOL_VERSION && (frame.event matches ReliableEventView::TextCommit { text }
            ==> encode_utf8(text).len() <= 4032),
        frame.protocol_version == INPUT_PROTOCOL_VERSION && body_bytes(frame).len() <= 4096 && !(
        frame.event is TextCommit) ==> reliable_encode_fault(frame) is None,
        reliable_encode_fault(frame) is None ==> reliable_bytes(frame).len() <= 4098,
{
}

/// A framed message starts with the length of what follows, in four bytes; the tag and the
/// payload as it is follow. A length that stands in front of a payload counts just that.
pub proof fn frames_count_what_follows(tag: u8, payload: Seq<u8>)
    requires
        payload.len() < u32::MAX,
    ensures
        ({
            let frame = message_frame(tag, payload);
            &&& frame.len() == 5 + payload.len()
            &&& wire::number(frame.take(4)) == frame.len() - 4
            &&& frame[4] == tag
            &&& frame.skip(5) == payload
        }),
        ({
            let frame = length_prefixed(payload);
            &&& frame.len() == 4 + payload.len()
            &&& wire::number(frame.take(4)) == payload.len()
            &&& frame.skip(4) == payload
        }),
{
    wire::numbers_are_spelled_by_their_bytes(0, (1 + payload.len()) as u32, 0);
    wire::numbers_are_spelled_by_their_bytes(0, payload.len() as u32, 0);
    assert(message_frame(tag, payload).take(4) =~= be32((1 + payload.len()) as u32));
    assert(message_frame(tag, payload).skip(5) =~= payload);
    assert(length_prefixed(payload).take(4) =~= be32(payload.len() as u32));
    assert(length_prefixed(payload).skip(4) =~= payload);
}

/// The tag of every kind of message.
pub proof fn kinds_of_messages_have_fixed_tags(message: Message)
    ensures
        message is Hello <==> message_tag(message) == 0,
        message is HelloBack <==> message_tag(message) == 1,
        message is Goodbye <==> message_tag(message) == 2,
        message is HelloRejected <==> message_tag(message) == 3,
        message is MouseMove <==> message_tag(message) == 10,
        message is MouseButton <==> message_tag(message) == 11,
        message is MouseWheel <==> message_tag(message) == 12,
        message is Key <==> message_tag(message) == 13,
        message is KeyExtended <==> message_tag(message) == 14,
        message is GamepadConnected <==> message_tag(message) == 15,
        message is GamepadDisconnected <==> message_tag(message) == 16,
        message is GamepadState <==> message_tag(message) == 17,
        message is AudioStreamStart <==> message_tag(message) == 18,
        message is AudioFrame <==> message_tag(message) == 19,
        message is ClipboardData <==> message_tag(message) == 20,
        message is ClipboardRequest <==> message_tag(message) == 21,
        message is ClipboardResponse <==> message_tag(message) == 22,
        message is AudioStreamStop <==> message_tag(message) == 23,
        message is AudioStreamError <==> message_tag(message) == 24,
        message is InputDiagnostic <==> message_tag(message) == 25,
        message is LatencyProbe <==> message_tag(message) == 26,
        message is LatencyProbeAck <==> message_tag(message) == 27,
        message is EndpointEventSubscribe <==> message_tag(message) == 28,
        message is EndpointEventSnapshot <==> message_tag(message) == 29,
        message is ScreenEnter <==> message_tag(message) == 30,
        message is ScreenLeave <==> message_tag(message) == 31,
        message is ScreenUpdate <==> message_tag(message) == 32,
        message is EndpointEventDelta <==> message_tag(message) == 33,
        message is EndpointInjectRequest <==> message_tag(message) == 34,
        message is EndpointInjectResult <==> message_tag(message) == 35,
        message is Heartbeat <==> message_tag(message) == 40,
        message is Ack <==> message_tag(message) == 41,
        message is Error <==> message_tag(message) == 42,
        message is UsbDeviceAttached <==> message_tag(message) == 50,
        message is UsbDeviceDetached <==> message_tag(message) == 51,
        message is UsbTransfer <==> message_tag(message) == 52,
        message is UsbTransferComplete <==> message_tag(message) == 53,
        message is UsbForwardingError <==> message_tag(message) == 54,
        message is UsbDeviceClaimRequest <==> message_tag(message) == 55,
        message is UsbDeviceClaimResponse <==> message_tag(message) == 56,
        message is UsbDeviceRelease <==> message_tag(message) == 57,
        message is UsbDeviceReset <==> message_tag(message) == 58,
        message is UsbTransferCancel <==> message_tag(message) == 59,
        message is UsbFlowControl <==> message_tag(message) == 60,
{
}

/// A payload is taken out as soon as all of its bytes are there, and not before. One that is
/// announced to be longer than the limit is refused as soon as its length is there.
pub proof fn payloads_are_taken_out_when_they_are_complete(
    payload: Seq<u8>,
    rest: Seq<u8>,
    arrived: int,
    max: nat,
)
    requires
        payload.len() <= u32::MAX,
        0 <= arrived < 4 + payload.len(),
    ensures
        ({
            let whole = length_prefixed(payload);
            &&& payload.len() <= max ==> decode_step(whole + rest, max) == (DecodeStep::Payload {
                payload,
                rest,
            })
            &&& payload.len() <= max || arrived < 4 ==> decode_step(whole.take(arrived), max)
                is Wait
            &&& payload.len() > max && arrived >= 4 ==> decode_step(whole.take(arrived), max) == (
            DecodeStep::TooLarge { len: payload.len() })
        }),
{
    let whole = length_prefixed(payload);
    let len = payload.len() as u32;
    wire::lemma_be32(len, payload + rest);
    assert(whole + rest =~= be32(len) + (payload + rest));
    assert((whole + rest).subrange(4, 4 + payload.len() as int) =~= payload);
    assert((whole + rest).skip(4 + payload.len() as int) =~= rest);
    if arrived >= 4 {
        let some = payload.take(arrived - 4);
        wire::lemma_be32(len, some);
        assert(whole.take(arrived) =~= be32(len) + some);
    }
}

} // verus!
