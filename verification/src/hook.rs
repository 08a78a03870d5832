//! What the mouse hook sees of the world on each event, and the outside work
//! it asks the host to carry out.
use vstd::prelude::*;
use crate::policy::HeldKeys;

verus! {

/// The Win32 message for a mouse move.
pub const WM_MOUSEMOVE: u32 = 0x0200;

/// The Win32 message for a left-button press.
pub const WM_LBUTTONDOWN: u32 = 0x0201;

/// The Win32 message for a left-button release.
pub const WM_LBUTTONUP: u32 = 0x0202;

/// The low-level hook flag of a mouse event that software injected.
pub const LLMHF_INJECTED: u32 = 0x0000_0001;

/// The daemon-wide switches the hook reads on each event.
#[derive(Clone, Copy, Debug, PartialEq, Eq, Structural)]
pub struct SharedFlags {
    /// "Keep mouse position after touch" is on.
    pub touch_mouse_independent: bool,
    /// The hook should be installed.
    pub want_hook: bool,
    /// Routing is paused.
    pub paused: bool,
    /// Routing is suspended (another desktop).
    pub suspended: bool,
    /// The hook is installed.
    pub hooked: bool,
    /// "Restore keyboard focus after touch" is on.
    pub restore_keyboard_focus: bool,
    /// Bumped on every reload that discards touch state.
    pub touch_generation: u32,
}

impl SharedFlags {
    /// The touch features are in effect.
    pub open spec fn active(self) -> bool {
        self.touch_mouse_independent && self.want_hook && !self.paused && !self.suspended
    }

    /// The touch features are in effect.
    pub fn touch_active(&self) -> (r: bool)
        ensures
            r == self.active(),
    {
        self.touch_mouse_independent && self.want_hook && !self.paused && !self.suspended
    }
}

/// One low-level mouse event.
#[derive(Clone, Copy, Debug, PartialEq, Eq, Structural)]
pub struct MouseEvent {
    /// The Win32 message, such as `WM_MOUSEMOVE`.
    pub message: u32,
    pub x: i32,
    pub y: i32,
    /// The low-level hook flags.
    pub flags: u32,
    /// The message's extra information, which carries the touch/pen signature.
    pub extra_info: usize,
    /// The message's time stamp.
    pub time: u32,
}

impl MouseEvent {
    /// Software injected the event.
    pub open spec fn injected(self) -> bool {
        self.flags & LLMHF_INJECTED != 0
    }

    /// Software injected the event.
    pub fn is_injected(&self) -> (r: bool)
        ensures
            r == self.injected(),
    {
        self.flags & LLMHF_INJECTED != 0
    }
}

/// What the hook reads of the world for one event: the shared switches,
/// which modifier keys are down, and the system cursor position (if it could
/// be read).
#[derive(Clone, Copy, Debug)]
pub struct HookEnv {
    pub shared: SharedFlags,
    pub keys: HeldKeys,
    pub cursor: Option<(i32, i32)>,
}

/// Outside work the host carries out, in order.
#[derive(Clone, Copy, Debug, PartialEq, Eq, Structural)]
pub enum Effect {
    /// Discard any pending keyboard-focus restoration.
    ResetFocus,
    /// Cancel a native (raw-report) focus restoration request.
    CancelNativeFocus,
    /// Tell focus restoration about an accepted touch message.
    FocusOnTouch { message: u32, x: i32, y: i32, time: u32 },
    /// Tell focus restoration about physical mouse input (a move or a button).
    FocusOnPhysicalInput { is_move: bool, contact: bool },
    /// Complete a native focus restoration at the cursor position.
    FinishNativeFocus { x: i32, y: i32 },
    /// Forget the last routed position and stale crossing movement.
    ResetMovement,
    /// Count hook activity for the watchdog.
    CountEvent,
}

/// What the hook does with the event itself.
#[derive(Clone, Copy, Debug, PartialEq, Eq, Structural)]
pub enum Verdict {
    /// Continue with monitor routing.
    Route,
    /// Pass the event on unchanged.
    PassThrough,
    /// Swallow the event: the pointer was placed.
    Consume,
}

/// A rectangle in pixels, given by its corner and size.
#[derive(Clone, Copy, Debug, PartialEq, Eq, Structural)]
pub struct Rect {
    pub left: i32,
    pub top: i32,
    pub width: i32,
    pub height: i32,
}

impl Rect {
    pub fn new(left: i32, top: i32, width: i32, height: i32) -> (r: Rect)
        ensures
            r == (Rect { left, top, width, height }),
    {
        Rect { left, top, width, height }
    }
}

/// What a loaded layout says of the displays that routing uses.
pub struct ZoneLayout {
    /// The layout is virtual: its zones are not the attached monitors.
    pub virtual_layout: bool,
    /// The full pixel bounds of each main zone.
    pub main_zones: Vec<Rect>,
}

} // verus!
