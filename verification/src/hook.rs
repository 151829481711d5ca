//! What the messages of the platform's keyboard and mouse hooks mean to the
//! engine.

use crate::input::Direction;
use crate::input::INJECTED_KEY_ID;
use crate::input::MOUSE_DUMMY_VK;
use vstd::prelude::*;

verus! {

/// The hook code of a message that is to be processed.
pub const HC_ACTION: i32 = 0;

/// A key went down.
pub const WM_KEYDOWN: u32 = 0x0100;

/// A key came up.
pub const WM_KEYUP: u32 = 0x0101;

/// A key went down while the system key was held.
pub const WM_SYSKEYDOWN: u32 = 0x0104;

/// A key came up while the system key was held.
pub const WM_SYSKEYUP: u32 = 0x0105;

/// The left mouse button went down.
pub const WM_LBUTTONDOWN: u32 = 0x0201;

/// The right mouse button went down.
pub const WM_RBUTTONDOWN: u32 = 0x0204;

/// The middle mouse button went down.
pub const WM_MBUTTONDOWN: u32 = 0x0207;

/// The mouse wheel turned.
pub const WM_MOUSEWHEEL: u32 = 0x020A;

/// One of the extra mouse buttons went down.
pub const WM_XBUTTONDOWN: u32 = 0x020B;

/// One of the extra mouse buttons went down outside the client area.
pub const WM_NCXBUTTONDOWN: u32 = 0x00AB;

/// A key event as the engine takes it.
#[derive(Debug, Clone, Copy, PartialEq, Eq)]
pub struct KeyEvent {
    pub scan_code: u32,
    pub virt_code: u32,
    pub direction: Direction,
    pub is_injected: bool,
}

/// The direction that a keyboard message reports, if it reports one.
pub open spec fn message_direction(message: u32) -> Option<Direction> {
    if message == WM_KEYDOWN || message == WM_SYSKEYDOWN {
        Some(Direction::Down)
    } else if message == WM_KEYUP || message == WM_SYSKEYUP {
        Some(Direction::Up)
    } else {
        None
    }
}

/// Whether a mouse message counts as input: a button that goes down, or the
/// wheel.
pub open spec fn is_mouse_input(message: u32) -> bool {
    ||| message == WM_MOUSEWHEEL
    ||| message == WM_LBUTTONDOWN
    ||| message == WM_RBUTTONDOWN
    ||| message == WM_MBUTTONDOWN
    ||| message == WM_XBUTTONDOWN
    ||| message == WM_NCXBUTTONDOWN
}

/// The event that a message of the keyboard hook reports to the engine, if
/// it reports one: the message is to be processed and says that a key went
/// down or came up. The event counts as synthesized where it carries the
/// tag of synthesized events.
pub open spec fn keyboard_event_of(
    code: i32,
    message: u32,
    virt_code: u32,
    scan_code: u32,
    extra_info: usize,
) -> Option<KeyEvent> {
    if code == HC_ACTION && message_direction(message) is Some {
        Some(
            KeyEvent {
                scan_code,
                virt_code,
                direction: message_direction(message)->0,
                is_injected: extra_info == INJECTED_KEY_ID,
            },
        )
    } else {
        None
    }
}

/// The event that a message of the mouse hook reports to the engine, if it
/// reports one: a press of the key that stands for the mouse.
pub open spec fn mouse_event_of(code: i32, message: u32) -> Option<KeyEvent> {
    if code == HC_ACTION && is_mouse_input(message) {
        Some(
            KeyEvent {
                scan_code: 0,
                virt_code: MOUSE_DUMMY_VK,
                direction: Direction::Down,
                is_injected: false,
            },
        )
    } else {
        None
    }
}

/// Reads a message of the keyboard hook. Where it answers `None` the
/// message is not for the engine and passes.
pub fn keyboard_event(code: i32, message: u32, virt_code: u32, scan_code: u32, extra_info: usize) -> (event:
    Option<KeyEvent>)
    ensures
        event == keyboard_event_of(code, message, virt_code, scan_code, extra_info),
{
    if code != HC_ACTION {
        return None;
    }
    let direction = if message == WM_KEYDOWN || message == WM_SYSKEYDOWN {
        Direction::Down
    } else if message == WM_KEYUP || message == WM_SYSKEYUP {
        Direction::Up
    } else {
        return None;
    };
    Some(KeyEvent { scan_code, virt_code, direction, is_injected: extra_info == INJECTED_KEY_ID })
}

/// Reads a message of the mouse hook. Where it answers `None` the
/// message is not for the engine and passes.
pub fn mouse_event(code: i32, message: u32) -> (event: Option<KeyEvent>)
    ensures
        event == mouse_event_of(code, message),
{
    if code != HC_ACTION {
        return None;
    }
    if message == WM_MOUSEWHEEL || message == WM_LBUTTONDOWN || message == WM_RBUTTONDOWN
        || message == WM_MBUTTONDOWN || message == WM_XBUTTONDOWN || message == WM_NCXBUTTONDOWN {
        Some(
            KeyEvent {
                scan_code: 0,
                virt_code: MOUSE_DUMMY_VK,
                direction: Direction::Down,
                is_injected: false,
            },
        )
    } else {
        None
    }
}

} // verus!
