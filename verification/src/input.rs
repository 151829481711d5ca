//! Key directions, synthesized key events and what is handed to the
//! platform to send one.

use crate::keys::KeyDef;
use vstd::prelude::*;

verus! {

/// The virtual code under which mouse input is reported: no key has it.
pub const MOUSE_DUMMY_VK: u32 = 0xFF;

/// The tag that every synthesized key event carries, by which it is
/// recognised when the platform delivers it back.
pub const INJECTED_KEY_ID: usize = 0xFFC3CED7;

/// The flag of a keyboard input that marks an extended key.
pub const KEYEVENTF_EXTENDEDKEY: u32 = 0x0001;

/// The flag of a keyboard input that marks a key release.
pub const KEYEVENTF_KEYUP: u32 = 0x0002;

/// Whether a key went down or came up.
#[derive(Debug, Clone, Copy, PartialEq, Eq, Structural)]
pub enum Direction {
    Up,
    Down,
}

impl Direction {
    /// The label under which a direction appears in diagnostics.
    pub open spec fn label(self) -> Seq<char> {
        match self {
            Direction::Up => "UP"@,
            Direction::Down => "DOWN"@,
        }
    }

    /// The direction as it is written in diagnostics.
    pub fn as_str(&self) -> (s: &'static str)
        ensures
            s@ == self.label(),
    {
        match self {
            Direction::Up => "UP",
            Direction::Down => "DOWN",
        }
    }
}

/// Which of the two targets of a mapping a synthesized event stands for.
#[derive(Debug, Clone, Copy, PartialEq, Eq, Structural)]
pub enum Role {
    WhenAlone,
    WithOther,
}

impl Role {
    /// The label under which a role appears in diagnostics.
    pub open spec fn label(self) -> Seq<char> {
        match self {
            Role::WhenAlone => "when_alone"@,
            Role::WithOther => "with_other"@,
        }
    }

    /// The role as it is written in diagnostics.
    pub fn as_str(&self) -> (s: &'static str)
        ensures
            s@ == self.label(),
    {
        match self {
            Role::WhenAlone => "when_alone",
            Role::WithOther => "with_other",
        }
    }
}

/// A key event that the engine asks to have synthesized.
#[derive(Debug, Clone, Copy, PartialEq, Eq)]
pub struct Injection {
    pub role: Role,
    pub key: KeyDef,
    pub direction: Direction,
}

/// The fields of one keyboard input as the platform takes it.
#[derive(Debug, Clone, Copy, PartialEq, Eq)]
pub struct KeyboardInput {
    pub virtual_key: u16,
    pub scan_code: u16,
    pub flags: u32,
    pub time: u32,
    pub extra_info: usize,
}

/// A scan code whose high byte is `0xE0` belongs to an extended key.
pub open spec fn is_extended(scan_code: u32) -> bool {
    scan_code / 0x100 == 0xE0
}

/// The flags of the keyboard input that sends a key with this scan code in
/// this direction.
pub open spec fn input_flags(scan_code: u32, direction: Direction) -> u32 {
    let up: u32 = if direction == Direction::Up {
        KEYEVENTF_KEYUP
    } else {
        0
    };
    let extended: u32 = if is_extended(scan_code) {
        KEYEVENTF_EXTENDEDKEY
    } else {
        0
    };
    up | extended
}

/// The keyboard input that sends `key` in `direction`: the low sixteen bits
/// of its two codes, the flags of the direction and of an extended key, no
/// time stamp, and the tag of a synthesized event.
pub open spec fn keyboard_input_of(key: KeyDef, direction: Direction) -> KeyboardInput {
    KeyboardInput {
        virtual_key: (key.virt_code % 0x1_0000) as u16,
        scan_code: (key.scan_code % 0x1_0000) as u16,
        flags: input_flags(key.scan_code, direction),
        time: 0,
        extra_info: INJECTED_KEY_ID,
    }
}

/// Describes the keyboard input that synthesizes `key_def` in `direction`.
pub fn keyboard_input(key_def: &KeyDef, direction: Direction) -> (input: KeyboardInput)
    ensures
        input == keyboard_input_of(*key_def, direction),
{
    let virt: u32 = key_def.virt_code;
    let scan: u32 = key_def.scan_code;
    let mut flags: u32 = 0;
    if direction == Direction::Up {
        flags = flags | KEYEVENTF_KEYUP;
    }
    if (scan >> 8) == 0xE0 {
        flags = flags | KEYEVENTF_EXTENDEDKEY;
    }
    assert(scan >> 8 == scan / 0x100) by (bit_vector);
    assert(0u32 | 0u32 == 0u32 && 0u32 | 1u32 == 1u32 && 0u32 | 2u32 == 2u32 && 2u32 | 0u32
        == 2u32) by (bit_vector);
    assert(virt & 0xFFFF == virt % 0x1_0000) by (bit_vector);
    assert(scan & 0xFFFF == scan % 0x1_0000) by (bit_vector);
    KeyboardInput {
        virtual_key: (virt & 0xFFFF) as u16,
        scan_code: (scan & 0xFFFF) as u16,
        flags,
        time: 0,
        extra_info: INJECTED_KEY_ID,
    }
}

} // verus!
