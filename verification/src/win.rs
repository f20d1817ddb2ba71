//! The tray icon: what its window does with each message, and the tooltip
//! text it shows.
use vstd::prelude::*;

use crate::text::{char_at, chars_of, encode_utf16, push_utf16};

verus! {

/// `WM_APP`.
pub const WM_APP: u32 = 0x8000u32;
/// The message the tray icon sends to its window (`WM_APP + 1`).
pub const WM_TRAYICON: u32 = 0x8001u32;
/// `WM_COMMAND`.
pub const WM_COMMAND: u32 = 0x0111u32;
/// `WM_CONTEXTMENU`.
pub const WM_CONTEXTMENU: u32 = 0x007Bu32;
/// `WM_LBUTTONDBLCLK`.
pub const WM_LBUTTONDBLCLK: u32 = 0x0203u32;
/// `WM_RBUTTONUP`.
pub const WM_RBUTTONUP: u32 = 0x0205u32;
/// The id of the tray icon.
pub const TRAY_UID: u32 = 1u32;
/// The menu command "exit".
pub const ID_TRAY_EXIT: usize = 1001usize;
/// The tooltip of the tray icon.
pub fn tray_tip() -> (r: &'static str)
    ensures
        r@ == "LOL Auto Accept"@,
{
    "LOL Auto Accept"
}

/// What the tray window does with a message.
#[derive(Debug, PartialEq, Eq)]
pub enum TrayAction {
    /// Show the context menu, then answer 0.
    ShowMenu,
    /// Answer 0.
    Handled,
    /// Request a stop, quit the message loop, answer 0.
    Exit,
    /// Leave the message to `DefWindowProcW`.
    Default,
}

/// The action for message `msg` with parameters `wparam` and `lparam`: a
/// tray-icon message whose event (the low 32 bits of `lparam`) is a right
/// click, a context-menu key or a double click shows the menu, other
/// tray-icon events are ignored; the menu command 1001 (the low 16 bits of
/// `wparam`) exits; everything else goes to the default procedure.
pub open spec fn tray_action_of(msg: u32, wparam: usize, lparam: isize) -> TrayAction {
    if msg == WM_TRAYICON {
        let event = lparam as u32;
        if event == WM_RBUTTONUP || event == WM_CONTEXTMENU || event == WM_LBUTTONDBLCLK {
            TrayAction::ShowMenu
        } else {
            TrayAction::Handled
        }
    } else if msg == WM_COMMAND {
        if wparam % 65536 == ID_TRAY_EXIT {
            TrayAction::Exit
        } else {
            TrayAction::Default
        }
    } else {
        TrayAction::Default
    }
}

/// What the tray window does with a message.
pub fn tray_message_action(msg: u32, wparam: usize, lparam: isize) -> (r: TrayAction)
    ensures
        r == tray_action_of(msg, wparam, lparam),
{
    if msg == WM_TRAYICON {
        let event = lparam as u32;
        if event == WM_RBUTTONUP || event == WM_CONTEXTMENU || event == WM_LBUTTONDBLCLK {
            TrayAction::ShowMenu
        } else {
            TrayAction::Handled
        }
    } else if msg == WM_COMMAND {
        let id = wparam & 0xffff;
        assert(wparam & 0xffff == wparam % 65536) by (bit_vector);
        if id == ID_TRAY_EXIT {
            TrayAction::Exit
        } else {
            TrayAction::Default
        }
    } else {
        TrayAction::Default
    }
}

/// The units copied into a tooltip buffer of `capacity` units: the UTF-16
/// text and a terminating zero, cut to the capacity.
pub open spec fn tip_units(tip: Seq<char>, capacity: nat) -> Seq<u16> {
    let units = encode_utf16(tip).push(0u16);
    if units.len() <= capacity {
        units
    } else {
        units.take(capacity as int)
    }
}

/// The UTF-16 units to copy into the tooltip buffer (of `capacity` units)
/// of the tray icon.
pub fn tray_tip_units(tip: &str, capacity: usize) -> (r: Vec<u16>)
    ensures
        r@ == tip_units(tip@, capacity as nat),
{
    let chars = chars_of(tip);
    let mut units: Vec<u16> = Vec::new();
    let mut i: usize = 0;
    while i < chars.len()
        invariant
            i <= chars@.len(),
            units@ == encode_utf16(chars@.take(i as int)),
        decreases chars@.len() - i,
    {
        let c = char_at(&chars, i);
        push_utf16(&mut units, c);
        assert(chars@.take(i + 1).drop_last() =~= chars@.take(i as int));
        i = i + 1;
    }
    assert(chars@.take(chars@.len() as int) =~= chars@);
    units.push(0u16);
    if units.len() <= capacity {
        return units;
    }
    let mut r: Vec<u16> = Vec::new();
    let mut k: usize = 0;
    while k < capacity
        invariant
            k <= capacity,
            capacity < units@.len(),
            r@ == units@.take(k as int),
        decreases capacity - k,
    {
        r.push(units[k]);
        k = k + 1;
        assert(r@ =~= units@.take(k as int));
    }
    r
}

} // verus!
