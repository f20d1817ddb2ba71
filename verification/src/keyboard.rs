//! Planning of the keyboard input that types a chat command into the game:
//! which keys go down and up, with which flags, in which order, and the
//! checks made between them.
use vstd::prelude::*;

use crate::text::{char_at, chars_of};

verus! {

/// Virtual key: Enter.
pub const VK_RETURN: u16 = 0x0Du16;
/// Virtual key: Shift.
pub const VK_SHIFT: u16 = 0x10u16;
/// Virtual key: Ctrl.
pub const VK_CONTROL: u16 = 0x11u16;
/// Virtual key: Alt.
pub const VK_MENU: u16 = 0x12u16;

/// `KEYEVENTF_EXTENDEDKEY`.
pub const KEYEVENTF_EXTENDEDKEY: u32 = 0x1u32;
/// `KEYEVENTF_KEYUP`.
pub const KEYEVENTF_KEYUP: u32 = 0x2u32;
/// `KEYEVENTF_UNICODE`.
pub const KEYEVENTF_UNICODE: u32 = 0x4u32;
/// `KEYEVENTF_SCANCODE`.
pub const KEYEVENTF_SCANCODE: u32 = 0x8u32;

/// A hardware scan code, possibly with the extended-key prefix.
#[derive(Debug, PartialEq, Eq)]
pub struct ScanCode {
    pub code: u16,
    pub extended: bool,
}

/// The scan code in a `MapVirtualKeyExW(vk, MAPVK_VK_TO_VSC_EX)` result:
/// the low byte is the code (zero means none), the next byte a prefix, and
/// the prefixes `0xE0` and `0xE1` mark an extended key.
pub open spec fn scancode_of(mapped: u32) -> Option<ScanCode> {
    let code = mapped % 256;
    let prefix = (mapped / 256) % 256;
    if mapped == 0 || code == 0 {
        None
    } else {
        Some(ScanCode { code: code as u16, extended: prefix == 0xE0 || prefix == 0xE1 })
    }
}

/// Reads the scan code out of a `MapVirtualKeyExW` result.
pub fn scancode_for_vk(mapped: u32) -> (r: Option<ScanCode>)
    ensures
        r == scancode_of(mapped),
{
    if mapped == 0 {
        return None;
    }
    let code = (mapped % 256) as u16;
    if code == 0 {
        return None;
    }
    let prefix = (mapped / 256) % 256;
    Some(ScanCode { code, extended: prefix == 0xE0 || prefix == 0xE1 })
}

/// One keyboard event (the fields of a `KEYBDINPUT`).
#[derive(Debug, PartialEq, Eq)]
pub struct KeyInput {
    pub vk: u16,
    pub scan: u16,
    pub flags: u32,
}

/// The event that presses (`up == false`) or releases a key: by scan code
/// when the key has one, else by virtual key.
pub open spec fn key_input_of(vk: u16, up: bool, scan: Option<ScanCode>) -> KeyInput {
    let up_flag: u32 = if up {
        KEYEVENTF_KEYUP
    } else {
        0
    };
    match scan {
        Some(s) => KeyInput {
            vk: 0,
            scan: s.code,
            flags: (KEYEVENTF_SCANCODE + up_flag + if s.extended {
                KEYEVENTF_EXTENDEDKEY
            } else {
                0
            }) as u32,
        },
        None => KeyInput { vk, scan: 0, flags: up_flag },
    }
}

/// The event that presses or releases the virtual key `vk`, given the scan
/// code that the keyboard layout maps it to.
pub fn key_input(vk: u16, up: bool, scan: Option<ScanCode>) -> (r: KeyInput)
    ensures
        r == key_input_of(vk, up, scan),
{
    let up_flag: u32 = if up {
        KEYEVENTF_KEYUP
    } else {
        0
    };
    match scan {
        Some(s) => {
            let ext: u32 = if s.extended {
                KEYEVENTF_EXTENDEDKEY
            } else {
                0
            };
            KeyInput { vk: 0, scan: s.code, flags: KEYEVENTF_SCANCODE + up_flag + ext }
        },
        None => KeyInput { vk, scan: 0, flags: up_flag },
    }
}

/// The events that type `ch` as a Unicode character: a press and a
/// release; `None` (nothing is typed) when `ch` lies outside the 16-bit
/// range.
pub fn unicode_inputs(ch: char) -> (r: Option<Vec<KeyInput>>)
    ensures
        (ch as u32) > 0xFFFF ==> r is None,
        (ch as u32) <= 0xFFFF ==> (r matches Some(v) && v@ == seq![
            KeyInput { vk: 0, scan: ch as u16, flags: KEYEVENTF_UNICODE },
            KeyInput { vk: 0, scan: ch as u16, flags: (KEYEVENTF_UNICODE + KEYEVENTF_KEYUP) as u32 },
        ]),
{
    let code = ch as u32;
    if code > 0xFFFF {
        return None;
    }
    let scan = code as u16;
    let mut v: Vec<KeyInput> = Vec::new();
    v.push(KeyInput { vk: 0, scan, flags: KEYEVENTF_UNICODE });
    v.push(KeyInput { vk: 0, scan, flags: KEYEVENTF_UNICODE + KEYEVENTF_KEYUP });
    assert(v@ =~= seq![
        KeyInput { vk: 0, scan: ch as u16, flags: KEYEVENTF_UNICODE },
        KeyInput { vk: 0, scan: ch as u16, flags: (KEYEVENTF_UNICODE + KEYEVENTF_KEYUP) as u32 },
    ]);
    Some(v)
}

/// How a character is typed.
#[derive(Debug, PartialEq, Eq)]
pub enum CharKeys {
    /// As a Unicode character.
    Unicode,
    /// By pressing the virtual key `vk`, with Shift held when `shift`.
    Press { vk: u16, shift: bool },
}

/// The 16 bits of a `VkKeyScanExW` result.
pub open spec fn scan_bits(code: i16) -> nat {
    (if code >= 0 {
        code as int
    } else {
        code + 65536
    }) as nat
}

/// Whether bit `k` of `v` is set.
pub open spec fn has_bit(v: nat, k: nat) -> bool {
    (v / pow2(k)) % 2 == 1
}

/// `2^k`.
pub open spec fn pow2(k: nat) -> nat
    decreases k,
{
    if k == 0 {
        1
    } else {
        2 * pow2((k - 1) as nat)
    }
}

proof fn lemma_small_pow2()
    ensures
        pow2(0) == 1,
        pow2(1) == 2,
        pow2(2) == 4,
{
    assert(pow2(0) == 1);
    assert(pow2(1) == 2);
    assert(pow2(2) == 4);
}

/// How to type a character given its `VkKeyScanExW` result: `-1` (no key)
/// and combinations that need Ctrl or Alt are typed as Unicode; otherwise
/// the low byte is the key and bit 0 of the high byte asks for Shift.
pub open spec fn char_keys_of(code: i16) -> CharKeys {
    let bits = scan_bits(code);
    let vk = bits % 256;
    let state = bits / 256;
    if code == -1 || has_bit(state, 1) || has_bit(state, 2) {
        CharKeys::Unicode
    } else {
        CharKeys::Press { vk: vk as u16, shift: has_bit(state, 0) }
    }
}

/// Decides how to type a character from its `VkKeyScanExW` result.
pub fn char_keys(code: i16) -> (r: CharKeys)
    ensures
        r == char_keys_of(code),
{
    proof {
        lemma_small_pow2();
    }
    if code == -1 {
        return CharKeys::Unicode;
    }
    let bits: u32 = if code >= 0 {
        code as u32
    } else {
        ((code as i32) + 65536) as u32
    };
    let vk = (bits % 256) as u16;
    let state = bits / 256;
    let needs_shift = state % 2 == 1;
    let needs_ctrl = (state / 2) % 2 == 1;
    let needs_alt = (state / 4) % 2 == 1;
    if needs_ctrl || needs_alt {
        return CharKeys::Unicode;
    }
    CharKeys::Press { vk, shift: needs_shift }
}

/// The decision in the bit terms of the `VkKeyScanExW` result: the
/// character is typed as Unicode exactly when the result is `-1` or its
/// high byte asks for Ctrl or Alt (`& 6`); otherwise the key is the low
/// byte, and Shift is held exactly when bit 0 of the high byte is set.
pub proof fn law_char_keys_bits(code: i16)
    ensures
        (char_keys_of(code) is Unicode) <==> (code == -1 || ((code >> 8u16) & 0xffi16) & 6i16
            != 0),
        char_keys_of(code) matches CharKeys::Press { vk, shift } ==> vk == (code & 0xffi16) as u16
            && shift == (((code >> 8u16) & 0xffi16) & 1i16 != 0),
{
    lemma_small_pow2();
    let v: u16 = code as u16;
    assert(code >= 0 ==> v as int == code as int) by (bit_vector)
        requires
            v == code as u16,
    ;
    assert(code < 0 ==> v as int == code as int + 65536) by (bit_vector)
        requires
            v == code as u16,
    ;
    assert(scan_bits(code) == v as nat);
    assert((((code >> 8u16) & 0xffi16) & 6i16 != 0) <==> ((v / 256) / 2 % 2 == 1 || (v / 256) / 4
        % 2 == 1)) by (bit_vector)
        requires
            v == code as u16,
    ;
    assert((((code >> 8u16) & 0xffi16) & 1i16 != 0) <==> (v / 256) % 2 == 1) by (bit_vector)
        requires
            v == code as u16,
    ;
    assert((code & 0xffi16) as u16 == v % 256) by (bit_vector)
        requires
            v == code as u16,
    ;
    let bits = scan_bits(code);
    assert(bits % 256 == v % 256);
    assert(((bits % 256) as u16) as int == (v % 256) as int);
}

/// One step of a key sequence.
#[derive(Debug, PartialEq, Eq)]
pub enum KeyStep {
    Down(u16),
    Up(u16),
    Sleep(u64),
}

/// A key press: down, 30 ms, up.
pub open spec fn press_steps(vk: u16) -> Seq<KeyStep> {
    seq![KeyStep::Down(vk), KeyStep::Sleep(30), KeyStep::Up(vk)]
}

/// The steps that type a character with key `vk`: the key press, inside
/// Shift down / Shift up when `shift`.
pub open spec fn char_steps(vk: u16, shift: bool) -> Seq<KeyStep> {
    if shift {
        seq![KeyStep::Down(VK_SHIFT)] + press_steps(vk) + seq![KeyStep::Up(VK_SHIFT)]
    } else {
        press_steps(vk)
    }
}

/// The steps of one key press.
pub fn key_press_steps(vk: u16) -> (r: Vec<KeyStep>)
    ensures
        r@ == press_steps(vk),
{
    let mut v: Vec<KeyStep> = Vec::new();
    v.push(KeyStep::Down(vk));
    v.push(KeyStep::Sleep(30));
    v.push(KeyStep::Up(vk));
    assert(v@ =~= press_steps(vk));
    v
}

/// The steps that type a character with key `vk`, Shift held when `shift`.
pub fn char_key_steps(vk: u16, shift: bool) -> (r: Vec<KeyStep>)
    ensures
        r@ == char_steps(vk, shift),
{
    let mut v: Vec<KeyStep> = Vec::new();
    if shift {
        v.push(KeyStep::Down(VK_SHIFT));
    }
    v.push(KeyStep::Down(vk));
    v.push(KeyStep::Sleep(30));
    v.push(KeyStep::Up(vk));
    if shift {
        v.push(KeyStep::Up(VK_SHIFT));
    }
    assert(v@ =~= char_steps(vk, shift));
    v
}

/// One step of typing a chat command.
#[derive(Clone, Copy, Debug, PartialEq, Eq)]
pub enum ChatStep {
    /// Check that the game still has the foreground; stop if not.
    EnsureForeground,
    /// Press a key.
    PressKey(u16),
    /// Type a character.
    TypeChar(char),
    /// Wait this many milliseconds.
    Sleep(u64),
}

/// The steps that type each character of `text`.
pub open spec fn text_steps(text: Seq<char>) -> Seq<ChatStep>
    decreases text.len(),
{
    if text.len() == 0 {
        seq![]
    } else {
        text_steps(text.drop_last()) + seq![
            ChatStep::EnsureForeground,
            ChatStep::TypeChar(text.last()),
            ChatStep::Sleep(25),
        ]
    }
}

/// Typing a chat command: Enter opens the chat, then the text is typed
/// character by character, then Enter sends it; the foreground is checked
/// before each key.
pub open spec fn chat_steps(text: Seq<char>) -> Seq<ChatStep> {
    seq![
        ChatStep::EnsureForeground,
        ChatStep::PressKey(VK_RETURN),
        ChatStep::Sleep(350),
        ChatStep::EnsureForeground,
    ] + text_steps(text) + seq![
        ChatStep::Sleep(250),
        ChatStep::EnsureForeground,
        ChatStep::PressKey(VK_RETURN),
    ]
}

/// The steps that type the chat command `text` into the game.
pub fn chat_command_steps(text: &str) -> (r: Vec<ChatStep>)
    ensures
        r@ == chat_steps(text@),
{
    let chars = chars_of(text);
    let mut v: Vec<ChatStep> = Vec::new();
    v.push(ChatStep::EnsureForeground);
    v.push(ChatStep::PressKey(VK_RETURN));
    v.push(ChatStep::Sleep(350));
    v.push(ChatStep::EnsureForeground);
    let ghost head = v@;
    let mut i: usize = 0;
    while i < chars.len()
        invariant
            i <= chars@.len(),
            v@ == head + text_steps(chars@.take(i as int)),
        decreases chars@.len() - i,
    {
        let ghost prev = v@;
        let c = char_at(&chars, i);
        v.push(ChatStep::EnsureForeground);
        v.push(ChatStep::TypeChar(c));
        v.push(ChatStep::Sleep(25));
        let ghost t1 = chars@.take(i + 1);
        assert(t1.drop_last() =~= chars@.take(i as int));
        assert(t1.last() == c);
        assert(text_steps(t1) == text_steps(t1.drop_last()) + seq![
            ChatStep::EnsureForeground,
            ChatStep::TypeChar(c),
            ChatStep::Sleep(25),
        ]);
        assert(v@ =~= prev + seq![ChatStep::EnsureForeground, ChatStep::TypeChar(c), ChatStep::Sleep(25)]);
        i = i + 1;
        assert(v@ =~= head + text_steps(chars@.take(i as int)));
    }
    assert(chars@.take(chars@.len() as int) =~= chars@);
    v.push(ChatStep::Sleep(250));
    v.push(ChatStep::EnsureForeground);
    v.push(ChatStep::PressKey(VK_RETURN));
    assert(v@ =~= chat_steps(text@));
    v
}

/// `SendInput` did not take every event: sent, expected.
#[derive(Debug, PartialEq, Eq)]
pub struct SendInputError {
    pub sent: u32,
    pub expected: u32,
}

/// Whether `SendInput` took all `count` events (it returns how many it took).
pub fn check_sent(sent: u32, count: u32) -> (r: Result<(), SendInputError>)
    ensures
        r is Ok <==> sent == count,
        r matches Err(e) ==> e.sent == sent && e.expected == count,
{
    if sent != count {
        Err(SendInputError { sent, expected: count })
    } else {
        Ok(())
    }
}

/// Why typing stopped: the game is no longer in the foreground.
#[derive(Debug, PartialEq, Eq)]
pub enum ForegroundError {
    /// There is no foreground window.
    NoWindow,
    /// The foreground window's process id is unknown.
    PidUnavailable,
    /// Another process has the foreground: expected, got.
    Changed(u32, u32),
}

/// Whether the process `expected` still owns the foreground window, given
/// whether there is a foreground window and the id of its process.
pub fn check_foreground_pid(window_valid: bool, pid: u32, expected: u32) -> (r: Result<
    (),
    ForegroundError,
>)
    ensures
        r is Ok <==> window_valid && pid != 0 && pid == expected,
        !window_valid ==> r matches Err(ForegroundError::NoWindow),
        window_valid && pid == 0 ==> r matches Err(ForegroundError::PidUnavailable),
        window_valid && pid != 0 && pid != expected ==> (r matches Err(
            ForegroundError::Changed(a, b),
        ) && a == expected && b == pid),
{
    if !window_valid {
        return Err(ForegroundError::NoWindow);
    }
    if pid == 0 {
        return Err(ForegroundError::PidUnavailable);
    }
    if pid != expected {
        return Err(ForegroundError::Changed(expected, pid));
    }
    Ok(())
}

/// The process and thread that own the foreground window, when there is a
/// window and both ids are known.
pub fn foreground_ids(window_valid: bool, tid: u32, pid: u32) -> (r: Option<(u32, u32)>)
    ensures
        r is Some <==> window_valid && tid != 0 && pid != 0,
        r matches Some((p, t)) ==> p == pid && t == tid,
{
    if !window_valid || tid == 0 || pid == 0 {
        None
    } else {
        Some((pid, tid))
    }
}

} // verus!

verus! {

/// A release is the press with the key-up flag added: same key, same scan
/// code, the press never carries `KEYEVENTF_KEYUP`, the release always
/// does; a key with a scan code is sent by scan code (virtual key 0, the
/// scan-code flag set) with the extended flag exactly when the code is
/// extended.
pub proof fn law_release_adds_key_up(vk: u16, scan: Option<ScanCode>)
    ensures
        key_input_of(vk, true, scan).vk == key_input_of(vk, false, scan).vk,
        key_input_of(vk, true, scan).scan == key_input_of(vk, false, scan).scan,
        key_input_of(vk, true, scan).flags == key_input_of(vk, false, scan).flags + KEYEVENTF_KEYUP,
        key_input_of(vk, false, scan).flags & KEYEVENTF_KEYUP == 0,
        key_input_of(vk, true, scan).flags & KEYEVENTF_KEYUP != 0,
        scan matches Some(s) ==> key_input_of(vk, false, scan).vk == 0
            && key_input_of(vk, false, scan).scan == s.code
            && key_input_of(vk, false, scan).flags & KEYEVENTF_SCANCODE != 0
            && (key_input_of(vk, false, scan).flags & KEYEVENTF_EXTENDEDKEY != 0) == s.extended,
        scan is None ==> key_input_of(vk, false, scan).vk == vk,
{
    let down = key_input_of(vk, false, scan).flags;
    let up = key_input_of(vk, true, scan).flags;
    assert(down == 0 || down == 8 || down == 9);
    assert(up == down + 2);
    assert((down == 0 || down == 8 || down == 9) ==> (down & 2u32 == 0 && (down + 2) as u32 & 2u32
        != 0)) by (bit_vector);
    assert(down == 8 ==> (down & 8u32 != 0 && down & 1u32 == 0)) by (bit_vector);
    assert(down == 9 ==> (down & 8u32 != 0 && down & 1u32 != 0)) by (bit_vector);
}

} // verus!
