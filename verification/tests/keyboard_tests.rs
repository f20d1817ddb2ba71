use lol_plugin::keyboard::{
    char_key_steps, char_keys, chat_command_steps, check_foreground_pid, check_sent,
    foreground_ids, key_input, key_press_steps, scancode_for_vk, unicode_inputs, CharKeys,
    ChatStep, ForegroundError, KeyInput, KeyStep, ScanCode, SendInputError, KEYEVENTF_EXTENDEDKEY,
    KEYEVENTF_KEYUP, KEYEVENTF_SCANCODE, KEYEVENTF_UNICODE, VK_RETURN, VK_SHIFT,
};

#[test]
fn scancodes() {
    assert_eq!(scancode_for_vk(0), None);
    assert_eq!(scancode_for_vk(0x1C), Some(ScanCode { code: 0x1C, extended: false }));
    assert_eq!(scancode_for_vk(0xE01D), Some(ScanCode { code: 0x1D, extended: true }));
    assert_eq!(scancode_for_vk(0xE11D), Some(ScanCode { code: 0x1D, extended: true }));
    assert_eq!(scancode_for_vk(0xE200), None);
    assert_eq!(scancode_for_vk(0xE21D), Some(ScanCode { code: 0x1D, extended: false }));
}

#[test]
fn key_inputs_and_flags() {
    assert_eq!(KEYEVENTF_EXTENDEDKEY | KEYEVENTF_KEYUP | KEYEVENTF_UNICODE | KEYEVENTF_SCANCODE, 0xF);
    let down = key_input(0x41, false, Some(ScanCode { code: 0x1E, extended: false }));
    assert_eq!(down, KeyInput { vk: 0, scan: 0x1E, flags: KEYEVENTF_SCANCODE });
    let up = key_input(0x41, true, Some(ScanCode { code: 0x1D, extended: true }));
    assert_eq!(up, KeyInput { vk: 0, scan: 0x1D, flags: KEYEVENTF_SCANCODE | KEYEVENTF_KEYUP | KEYEVENTF_EXTENDEDKEY });
    assert_eq!(key_input(0x0D, false, None), KeyInput { vk: 0x0D, scan: 0, flags: 0 });
    assert_eq!(key_input(0x0D, true, None), KeyInput { vk: 0x0D, scan: 0, flags: KEYEVENTF_KEYUP });
}

#[test]
fn unicode_events() {
    let v = unicode_inputs('a').unwrap();
    assert_eq!(v, vec![
        KeyInput { vk: 0, scan: 97, flags: KEYEVENTF_UNICODE },
        KeyInput { vk: 0, scan: 97, flags: KEYEVENTF_UNICODE | KEYEVENTF_KEYUP },
    ]);
    assert_eq!(unicode_inputs('中').unwrap()[0].scan, 0x4E2D);
    assert!(unicode_inputs('😀').is_none());
}

#[test]
fn char_key_decisions() {
    assert_eq!(char_keys(-1), CharKeys::Unicode);
    assert_eq!(char_keys(0x0041), CharKeys::Press { vk: 0x41, shift: false });
    assert_eq!(char_keys(0x0141), CharKeys::Press { vk: 0x41, shift: true });
    assert_eq!(char_keys(0x0241), CharKeys::Unicode);
    assert_eq!(char_keys(0x0641), CharKeys::Unicode);
    assert_eq!(char_keys(0x04BF), CharKeys::Unicode);
    assert_eq!(char_keys(0x01BF), CharKeys::Press { vk: 0xBF, shift: true });
    // a negative code other than -1: the high byte 0xFF asks for Ctrl and Alt
    assert_eq!(char_keys(0xFF41u16 as i16), CharKeys::Unicode);
}

#[test]
fn key_step_sequences() {
    assert_eq!(key_press_steps(VK_RETURN), vec![KeyStep::Down(0x0D), KeyStep::Sleep(30), KeyStep::Up(0x0D)]);
    assert_eq!(char_key_steps(0x41, true), vec![
        KeyStep::Down(VK_SHIFT),
        KeyStep::Down(0x41),
        KeyStep::Sleep(30),
        KeyStep::Up(0x41),
        KeyStep::Up(VK_SHIFT),
    ]);
    assert_eq!(char_key_steps(0x41, false), key_press_steps(0x41));
}

#[test]
fn chat_steps_for_fullmute() {
    let s = chat_command_steps("/a");
    assert_eq!(s, vec![
        ChatStep::EnsureForeground,
        ChatStep::PressKey(VK_RETURN),
        ChatStep::Sleep(350),
        ChatStep::EnsureForeground,
        ChatStep::EnsureForeground,
        ChatStep::TypeChar('/'),
        ChatStep::Sleep(25),
        ChatStep::EnsureForeground,
        ChatStep::TypeChar('a'),
        ChatStep::Sleep(25),
        ChatStep::Sleep(250),
        ChatStep::EnsureForeground,
        ChatStep::PressKey(VK_RETURN),
    ]);
    assert_eq!(chat_command_steps("/fullmute all").len(), 7 + 3 * 13);
}

#[test]
fn send_and_foreground_checks() {
    assert!(check_sent(2, 2).is_ok());
    assert_eq!(check_sent(1, 2).err(), Some(SendInputError { sent: 1, expected: 2 }));
    assert!(check_foreground_pid(true, 42, 42).is_ok());
    assert_eq!(check_foreground_pid(false, 42, 42).err(), Some(ForegroundError::NoWindow));
    assert_eq!(check_foreground_pid(true, 0, 42).err(), Some(ForegroundError::PidUnavailable));
    assert_eq!(check_foreground_pid(true, 7, 42).err(), Some(ForegroundError::Changed(42, 7)));
    assert_eq!(foreground_ids(true, 5, 6), Some((6, 5)));
    assert_eq!(foreground_ids(false, 5, 6), None);
    assert_eq!(foreground_ids(true, 0, 6), None);
    assert_eq!(foreground_ids(true, 5, 0), None);
}
