use dual_key_remap::hook;
use dual_key_remap::input;
use dual_key_remap::input::keyboard_input;
use dual_key_remap::input::Direction;
use dual_key_remap::keys::KeyDef;
use windows::Win32::UI::Input::KeyboardAndMouse::KEYBDINPUT;
use windows::Win32::UI::Input::KeyboardAndMouse::KEYBD_EVENT_FLAGS;
use windows::Win32::UI::Input::KeyboardAndMouse::KEYEVENTF_EXTENDEDKEY;
use windows::Win32::UI::Input::KeyboardAndMouse::KEYEVENTF_KEYUP;
use windows::Win32::UI::Input::KeyboardAndMouse::VIRTUAL_KEY;
use windows::Win32::UI::Input::KeyboardAndMouse::VK_CAPITAL;
use windows::Win32::UI::Input::KeyboardAndMouse::VK_RCONTROL;
use windows::Win32::UI::WindowsAndMessaging;

#[test]
fn the_message_codes_are_those_of_the_platform() {
    assert_eq!(hook::HC_ACTION as u32, WindowsAndMessaging::HC_ACTION);
    assert_eq!(hook::WM_KEYDOWN, WindowsAndMessaging::WM_KEYDOWN);
    assert_eq!(hook::WM_KEYUP, WindowsAndMessaging::WM_KEYUP);
    assert_eq!(hook::WM_SYSKEYDOWN, WindowsAndMessaging::WM_SYSKEYDOWN);
    assert_eq!(hook::WM_SYSKEYUP, WindowsAndMessaging::WM_SYSKEYUP);
    assert_eq!(hook::WM_MOUSEWHEEL, WindowsAndMessaging::WM_MOUSEWHEEL);
    assert_eq!(hook::WM_LBUTTONDOWN, WindowsAndMessaging::WM_LBUTTONDOWN);
    assert_eq!(hook::WM_RBUTTONDOWN, WindowsAndMessaging::WM_RBUTTONDOWN);
    assert_eq!(hook::WM_MBUTTONDOWN, WindowsAndMessaging::WM_MBUTTONDOWN);
    assert_eq!(hook::WM_XBUTTONDOWN, WindowsAndMessaging::WM_XBUTTONDOWN);
    assert_eq!(hook::WM_NCXBUTTONDOWN, WindowsAndMessaging::WM_NCXBUTTONDOWN);
}

#[test]
fn the_input_flags_are_those_of_the_platform() {
    assert_eq!(input::KEYEVENTF_KEYUP, KEYEVENTF_KEYUP.0);
    assert_eq!(input::KEYEVENTF_EXTENDEDKEY, KEYEVENTF_EXTENDEDKEY.0);
    let right_ctrl = KeyDef { name: "RIGHT_CTRL", virt_code: 0xA3, scan_code: 0xE01D };
    let flags = KEYBD_EVENT_FLAGS(keyboard_input(&right_ctrl, Direction::Up).flags);
    assert_eq!(flags, KEYEVENTF_KEYUP | KEYEVENTF_EXTENDEDKEY);
    let flags = KEYBD_EVENT_FLAGS(keyboard_input(&right_ctrl, Direction::Down).flags);
    assert_eq!(flags, KEYEVENTF_EXTENDEDKEY);
}

#[test]
fn a_described_input_fills_the_structure_of_the_platform() {
    let capslock = KeyDef { name: "CAPSLOCK", virt_code: 0x14, scan_code: 0x3A };
    let described = keyboard_input(&capslock, Direction::Up);
    let ki = KEYBDINPUT {
        wVk: VIRTUAL_KEY(described.virtual_key),
        wScan: described.scan_code,
        dwFlags: KEYBD_EVENT_FLAGS(described.flags),
        time: described.time,
        dwExtraInfo: described.extra_info,
    };
    assert_eq!(ki.wVk, VK_CAPITAL);
    assert_eq!(ki.wScan, 0x3A);
    assert_eq!(ki.dwFlags, KEYEVENTF_KEYUP);
    assert_eq!(ki.time, 0);
    assert_eq!(ki.dwExtraInfo, 0xFFC3CED7);
    assert_eq!(VIRTUAL_KEY(0xA3), VK_RCONTROL);
}
