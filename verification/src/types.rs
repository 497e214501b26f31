//! Identifiers, input frames and messages that the rest of the library speaks of.

use vstd::prelude::*;

verus! {

/// Version of the realtime and reliable input frames.
pub const INPUT_PROTOCOL_VERSION: u16 = 1;

/// Version of the peer protocol that a greeting announces.
pub const PROTOCOL_VERSION: u32 = 3;

/// A device, by the 128 bits of its UUID.
#[derive(Debug, Clone, Copy, PartialEq, Eq, Hash, Structural)]
pub struct DeviceId(pub u128);

/// One authenticated control connection, by the 128 bits of its UUID.
#[derive(Debug, Clone, Copy, PartialEq, Eq, Hash, Structural)]
pub struct ControlConnectionId(pub u128);

/// One period during which a peer owns the input of a device.
#[derive(Debug, Clone, Copy, PartialEq, Eq, Hash, Structural)]
pub struct SessionEpoch(pub u64);

/// The clock that a stamp was read from.
#[derive(Debug, Clone, Copy, PartialEq, Eq, Hash, Structural)]
pub struct ClockDomainId(pub u64);

/// A reading of a monotonic clock, in microseconds.
#[derive(Debug, Clone, Copy, PartialEq, Eq, Structural)]
pub struct MonotonicStamp {
    pub domain: ClockDomainId,
    pub value_us: u64,
}

impl MonotonicStamp {
    pub fn new(domain: ClockDomainId, value_us: u64) -> (stamp: Self)
        ensures
            stamp == (MonotonicStamp { domain, value_us }),
    {
        MonotonicStamp { domain, value_us }
    }
}

/// Input that only matters while it is fresh.
#[derive(Debug, Clone, Copy, PartialEq, Eq, Structural)]
pub enum RealtimeInputPayload {
    RelativeMouse { dx: i32, dy: i32 },
    AbsoluteAnchor { x: i32, y: i32 },
    GamepadAxes {
        gamepad_id: u8,
        left_stick_x: i16,
        left_stick_y: i16,
        right_stick_x: i16,
        right_stick_y: i16,
        left_trigger: u16,
        right_trigger: u16,
    },
    CursorVisual { x: i32, y: i32, visible: bool },
}

/// One realtime datagram.
#[derive(Debug, Clone, Copy, PartialEq, Eq, Structural)]
pub struct RealtimeInputFrame {
    pub protocol_version: u16,
    pub session_epoch: SessionEpoch,
    pub sequence: u64,
    pub captured_at: MonotonicStamp,
    pub payload: RealtimeInputPayload,
}

/// Why everything that is held down is released.
#[derive(Debug, Clone, Copy, PartialEq, Eq, Structural)]
pub enum ReleaseAllReason {
    SessionEnded,
    OwnershipTransfer,
    Timeout,
    BackendFailure,
}

#[derive(Debug, Clone, Copy, PartialEq, Eq, Structural)]
pub enum KeyState {
    Pressed,
    Released,
}

#[derive(Debug, Clone, Copy, PartialEq, Eq, Structural)]
pub enum ButtonState {
    Pressed,
    Released,
}

#[derive(Debug, Clone, Copy, PartialEq, Eq, Structural)]
pub enum MouseButton {
    Left,
    Middle,
    Right,
    Back,
    Forward,
    Other(u8),
}

#[derive(Debug, Clone, Copy, PartialEq, Eq, Structural)]
pub enum GamepadButton {
    South,
    East,
    West,
    North,
    Select,
    Start,
    Other(u16),
}

/// A gamepad as its owner announces it.
#[derive(Debug, Clone, PartialEq, Eq)]
pub struct GamepadDeviceInfo {
    pub gamepad_id: u8,
    pub name: String,
    pub vendor_id: Option<u16>,
    pub product_id: Option<u16>,
}

/// Input that must arrive, in order.
#[allow(inconsistent_fields)]
#[derive(Debug, Clone, PartialEq, Eq)]
pub enum ReliableInputEvent {
    Enter { target_display_id: String, x: i32, y: i32 },
    Leave,
    ReleaseAll { reason: ReleaseAllReason },
    Key { keycode: u32, state: KeyState },
    TextCommit { text: String },
    MouseButton {
        button: MouseButton,
        state: ButtonState,
        x: i32,
        y: i32,
        realtime_anchor_sequence: u64,
    },
    Wheel { delta_x: i32, delta_y: i32 },
    GamepadConnected { info: GamepadDeviceInfo },
    GamepadDisconnected { gamepad_id: u8 },
    GamepadButton { gamepad_id: u8, button: GamepadButton, pressed: bool },
}

/// One frame of the reliable input lane.
#[derive(Debug, Clone, PartialEq, Eq)]
pub struct ReliableInputFrame {
    pub protocol_version: u16,
    pub session_epoch: SessionEpoch,
    pub sequence: u64,
    pub captured_at: MonotonicStamp,
    pub event: ReliableInputEvent,
}

/// A reliable event, with its texts as character sequences.
#[allow(inconsistent_fields)]
pub enum ReliableEventView {
    Enter { target_display_id: Seq<char>, x: i32, y: i32 },
    Leave,
    ReleaseAll { reason: ReleaseAllReason },
    Key { keycode: u32, state: KeyState },
    TextCommit { text: Seq<char> },
    MouseButton {
        button: MouseButton,
        state: ButtonState,
        x: i32,
        y: i32,
        realtime_anchor_sequence: u64,
    },
    Wheel { delta_x: i32, delta_y: i32 },
    GamepadConnected {
        gamepad_id: u8,
        name: Seq<char>,
        vendor_id: Option<u16>,
        product_id: Option<u16>,
    },
    GamepadDisconnected { gamepad_id: u8 },
    GamepadButton { gamepad_id: u8, button: GamepadButton, pressed: bool },
}

/// A reliable frame, with its texts as character sequences.
pub struct ReliableFrameView {
    pub protocol_version: u16,
    pub session_epoch: SessionEpoch,
    pub sequence: u64,
    pub captured_at: MonotonicStamp,
    pub event: ReliableEventView,
}

impl View for ReliableInputEvent {
    type V = ReliableEventView;

    open spec fn view(&self) -> ReliableEventView {
        match *self {
            ReliableInputEvent::Enter { target_display_id, x, y } => ReliableEventView::Enter {
                target_display_id: target_display_id@,
                x,
                y,
            },
            ReliableInputEvent::Leave => ReliableEventView::Leave,
            ReliableInputEvent::ReleaseAll { reason } => ReliableEventView::ReleaseAll { reason },
            ReliableInputEvent::Key { keycode, state } => ReliableEventView::Key {
                keycode,
                state,
            },
            ReliableInputEvent::TextCommit { text } => ReliableEventView::TextCommit {
                text: text@,
            },
            ReliableInputEvent::MouseButton { button, state, x, y, realtime_anchor_sequence } =>
                ReliableEventView::MouseButton { button, state, x, y, realtime_anchor_sequence },
            ReliableInputEvent::Wheel { delta_x, delta_y } => ReliableEventView::Wheel {
                delta_x,
                delta_y,
            },
            ReliableInputEvent::GamepadConnected { info } => ReliableEventView::GamepadConnected {
                gamepad_id: info.gamepad_id,
                name: info.name@,
                vendor_id: info.vendor_id,
                product_id: info.product_id,
            },
            ReliableInputEvent::GamepadDisconnected { gamepad_id } =>
                ReliableEventView::GamepadDisconnected { gamepad_id },
            ReliableInputEvent::GamepadButton { gamepad_id, button, pressed } =>
                ReliableEventView::GamepadButton { gamepad_id, button, pressed },
        }
    }
}

impl View for ReliableInputFrame {
    type V = ReliableFrameView;

    open spec fn view(&self) -> ReliableFrameView {
        ReliableFrameView {
            protocol_version: self.protocol_version,
            session_epoch: self.session_epoch,
            sequence: self.sequence,
            captured_at: self.captured_at,
            event: self.event@,
        }
    }
}

} // verus!
