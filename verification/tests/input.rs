use dual_key_remap::hook::keyboard_event;
use dual_key_remap::hook::mouse_event;
use dual_key_remap::hook::KeyEvent;
use dual_key_remap::input::keyboard_input;
use dual_key_remap::input::Direction;
use dual_key_remap::input::KeyboardInput;
use dual_key_remap::input::Role;
use dual_key_remap::input::INJECTED_KEY_ID;
use dual_key_remap::input::KEYEVENTF_EXTENDEDKEY;
use dual_key_remap::input::KEYEVENTF_KEYUP;
use dual_key_remap::input::MOUSE_DUMMY_VK;
use dual_key_remap::keys::find_key_by_name;
use dual_key_remap::keys::KeyDef;

const ESCAPE: KeyDef = KeyDef { name: "ESCAPE", virt_code: 0x1B, scan_code: 0x01 };
const RIGHT_CTRL: KeyDef = KeyDef { name: "RIGHT_CTRL", virt_code: 0xA3, scan_code: 0xE01D };

#[test]
fn directions_and_roles_have_their_labels() {
    assert_eq!(Direction::Up.as_str(), "UP");
    assert_eq!(Direction::Down.as_str(), "DOWN");
    assert_eq!(Role::WhenAlone.as_str(), "when_alone");
    assert_eq!(Role::WithOther.as_str(), "with_other");
}

#[test]
fn the_constants_have_their_values() {
    assert_eq!(MOUSE_DUMMY_VK, 0xFF);
    assert_eq!(INJECTED_KEY_ID, 0xFFC3CED7);
    assert_eq!(KEYEVENTF_EXTENDEDKEY, 1);
    assert_eq!(KEYEVENTF_KEYUP, 2);
}

#[test]
fn keyboard_input_of_a_plain_key() {
    assert_eq!(
        keyboard_input(&ESCAPE, Direction::Down),
        KeyboardInput {
            virtual_key: 0x1B,
            scan_code: 0x01,
            flags: 0,
            time: 0,
            extra_info: 0xFFC3CED7,
        }
    );
    assert_eq!(
        keyboard_input(&ESCAPE, Direction::Up),
        KeyboardInput {
            virtual_key: 0x1B,
            scan_code: 0x01,
            flags: 2,
            time: 0,
            extra_info: 0xFFC3CED7,
        }
    );
}

#[test]
fn keyboard_input_of_an_extended_key() {
    assert_eq!(
        keyboard_input(&RIGHT_CTRL, Direction::Down),
        KeyboardInput {
            virtual_key: 0xA3,
            scan_code: 0xE01D,
            flags: 1,
            time: 0,
            extra_info: 0xFFC3CED7,
        }
    );
    assert_eq!(keyboard_input(&RIGHT_CTRL, Direction::Up).flags, 3);
    // Only a high byte of exactly 0xE0 marks an extended key.
    let odd = KeyDef { name: "ODD", virt_code: 1, scan_code: 0xE11D };
    assert_eq!(keyboard_input(&odd, Direction::Down).flags, 0);
    let wide = KeyDef { name: "WIDE", virt_code: 1, scan_code: 0x1E01D };
    assert_eq!(keyboard_input(&wide, Direction::Down).flags, 0);
}

#[test]
fn keyboard_input_keeps_the_low_sixteen_bits() {
    let key = KeyDef { name: "BIG", virt_code: 0x0001_0014, scan_code: 0xABCD_003A };
    let input = keyboard_input(&key, Direction::Down);
    assert_eq!(input.virtual_key, 0x14);
    assert_eq!(input.scan_code, 0x3A);
    assert_eq!(input.flags, 0);
    let key = KeyDef { name: "MAX", virt_code: u32::MAX, scan_code: u32::MAX };
    let input = keyboard_input(&key, Direction::Up);
    assert_eq!(input.virtual_key, 0xFFFF);
    assert_eq!(input.scan_code, 0xFFFF);
    assert_eq!(input.flags, 2);
}

#[test]
fn keyboard_messages_become_events() {
    let down = KeyEvent { scan_code: 0x3A, virt_code: 0x14, direction: Direction::Down, is_injected: false };
    let up = KeyEvent { scan_code: 0x3A, virt_code: 0x14, direction: Direction::Up, is_injected: false };
    assert_eq!(keyboard_event(0, 0x0100, 0x14, 0x3A, 0), Some(down));
    assert_eq!(keyboard_event(0, 0x0104, 0x14, 0x3A, 0), Some(down));
    assert_eq!(keyboard_event(0, 0x0101, 0x14, 0x3A, 0), Some(up));
    assert_eq!(keyboard_event(0, 0x0105, 0x14, 0x3A, 0), Some(up));
    assert_eq!(keyboard_event(0, 0x0102, 0x14, 0x3A, 0), None);
    assert_eq!(keyboard_event(1, 0x0100, 0x14, 0x3A, 0), None);
    assert_eq!(keyboard_event(-1, 0x0101, 0x14, 0x3A, 0), None);
}

#[test]
fn the_tag_marks_an_injected_event() {
    let event = keyboard_event(0, 0x0100, 0x1B, 0x01, 0xFFC3CED7).unwrap();
    assert!(event.is_injected);
    let event = keyboard_event(0, 0x0100, 0x1B, 0x01, 0xFFC3CED6).unwrap();
    assert!(!event.is_injected);
    // What keyboard_input tags is recognised when it comes back.
    let input = keyboard_input(&ESCAPE, Direction::Down);
    let event = keyboard_event(0, 0x0100, 0x1B, 0x01, input.extra_info).unwrap();
    assert!(event.is_injected);
}

#[test]
fn mouse_messages_become_presses_of_the_mouse_key() {
    let press = KeyEvent { scan_code: 0, virt_code: 0xFF, direction: Direction::Down, is_injected: false };
    for message in [0x020A_u32, 0x0201, 0x0204, 0x0207, 0x020B, 0x00AB] {
        assert_eq!(mouse_event(0, message), Some(press));
        assert_eq!(mouse_event(1, message), None);
    }
    // Movement and releases are not input.
    for message in [0x0200_u32, 0x0202, 0x0205, 0x0208, 0x020C, 0x00AC] {
        assert_eq!(mouse_event(0, message), None);
    }
}

#[test]
fn keys_are_found_by_their_exact_name() {
    let keys = vec![
        ESCAPE,
        RIGHT_CTRL,
        KeyDef { name: "ESCAPE", virt_code: 0x99, scan_code: 0x99 },
        KeyDef { name: "", virt_code: 7, scan_code: 7 },
    ];
    assert_eq!(find_key_by_name(&keys, "ESCAPE"), Some(ESCAPE));
    assert_eq!(find_key_by_name(&keys, "RIGHT_CTRL"), Some(RIGHT_CTRL));
    assert_eq!(find_key_by_name(&keys, "escape"), None);
    assert_eq!(find_key_by_name(&keys, "ESCAPE "), None);
    assert_eq!(find_key_by_name(&keys, "ESC"), None);
    assert_eq!(find_key_by_name(&keys, "").map(|k| k.virt_code), Some(7));
    assert_eq!(find_key_by_name(&Vec::new(), "ESCAPE"), None);
}
