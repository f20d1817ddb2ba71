use lol_plugin::win::{
    tray_message_action, tray_tip, tray_tip_units, TrayAction, ID_TRAY_EXIT, WM_COMMAND,
    WM_CONTEXTMENU, WM_LBUTTONDBLCLK, WM_RBUTTONUP, WM_TRAYICON,
};

#[test]
fn tray_messages() {
    assert_eq!(WM_TRAYICON, 0x8000 + 1);
    assert_eq!(tray_message_action(WM_TRAYICON, 0, WM_RBUTTONUP as isize), TrayAction::ShowMenu);
    assert_eq!(tray_message_action(WM_TRAYICON, 0, WM_CONTEXTMENU as isize), TrayAction::ShowMenu);
    assert_eq!(tray_message_action(WM_TRAYICON, 0, WM_LBUTTONDBLCLK as isize), TrayAction::ShowMenu);
    assert_eq!(tray_message_action(WM_TRAYICON, 0, 0x0200), TrayAction::Handled);
    assert_eq!(tray_message_action(WM_COMMAND, ID_TRAY_EXIT, 0), TrayAction::Exit);
    assert_eq!(tray_message_action(WM_COMMAND, ID_TRAY_EXIT | 0x10000, 0), TrayAction::Exit);
    assert_eq!(tray_message_action(WM_COMMAND, 1002, 0), TrayAction::Default);
    assert_eq!(tray_message_action(0x0010, ID_TRAY_EXIT, 0), TrayAction::Default);
}

#[test]
fn tray_tip_text() {
    let mut expected: Vec<u16> = "LOL Auto Accept".encode_utf16().collect();
    expected.push(0);
    assert_eq!(tray_tip_units(tray_tip(), 128), expected);
    assert_eq!(tray_tip_units("abc", 2), vec![97, 98]);
    assert_eq!(tray_tip_units("ab", 3), vec![97, 98, 0]);
    assert_eq!(tray_tip_units("😀", 8), vec![0xD83D, 0xDE00, 0]);
    assert_eq!(tray_tip_units("退出", 8), "退出\0".encode_utf16().collect::<Vec<u16>>());
}
