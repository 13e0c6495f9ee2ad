//! Windows virtual-key codes: the key names the engine speaks in, mapped to
//! the codes `SendInput` injects, and the codes a keyboard hook reports
//! mapped back to key names.
use vstd::prelude::*;
use crate::digits::{decimal, has_prefix, hex_padded, parse_u16, parse_u16_exec, push_decimal, push_hex};
use crate::engine::DispatchActionPhase;
use crate::keys::{compact_key, compact_key_exec};
use crate::model::MouseButton;
use crate::text::str_eq;

verus! {

/// `KEYEVENTF_EXTENDEDKEY`: the key is on the extended part of the keyboard.
pub const KEYEVENTF_EXTENDEDKEY: u32 = 0x0001;

/// `KEYEVENTF_KEYUP`: the event releases the key.
pub const KEYEVENTF_KEYUP: u32 = 0x0002;

/// `KEYEVENTF_SCANCODE`: the event names the key by its scan code.
pub const KEYEVENTF_SCANCODE: u32 = 0x0008;

/// `LLKHF_EXTENDED`: a hooked key event came from an extended key.
pub const LLKHF_EXTENDED_FLAG: u32 = 0x01;

/// How one key is injected: a virtual-key code, or a scan code, with the
/// flags that say which.
#[derive(PartialEq, Eq, Structural, Clone, Copy, Debug)]
pub struct KeySpec {
    pub vk: u16,
    pub scan: u16,
    pub flags: u32,
}

pub open spec fn key_vk(vk: u16) -> KeySpec {
    KeySpec { vk, scan: 0, flags: 0 }
}

pub open spec fn key_extended(vk: u16) -> KeySpec {
    KeySpec { vk, scan: 0, flags: KEYEVENTF_EXTENDEDKEY }
}

pub open spec fn key_scan(scan: u16) -> KeySpec {
    KeySpec { vk: 0, scan, flags: KEYEVENTF_SCANCODE }
}

impl KeySpec {
    /// A key named by its virtual-key code.
    pub fn vk(vk: u16) -> (r: KeySpec)
        ensures
            r == key_vk(vk),
    {
        KeySpec { vk, scan: 0, flags: 0 }
    }

    /// An extended key named by its virtual-key code.
    pub fn extended(vk: u16) -> (r: KeySpec)
        ensures
            r == key_extended(vk),
    {
        KeySpec { vk, scan: 0, flags: KEYEVENTF_EXTENDEDKEY }
    }

    /// A key named by its scan code.
    pub fn scan(scan: u16) -> (r: KeySpec)
        ensures
            r == key_scan(scan),
    {
        KeySpec { vk: 0, scan, flags: KEYEVENTF_SCANCODE }
    }
}

/// `numpad` and one more ASCII character.
pub open spec fn is_numpad_digit_form(k: Seq<char>) -> bool {
    &&& k.len() == 7
    &&& k.subrange(0, 6) == "numpad"@
    &&& (k[6] as u32) < 128
}

/// `numpad0` to `numpad9`.
pub open spec fn numpad_digit_key(k: Seq<char>) -> Option<KeySpec> {
    match parse_u16(k.subrange(6, k.len() as int), 10) {
        Some(n) => if n <= 9 {
            Some(key_vk((0x60 + n) as u16))
        } else {
            None
        },
        None => None,
    }
}

/// `f1` to `f24`, with the number as `u16` parsing reads it.
pub open spec fn function_key(k: Seq<char>) -> Option<KeySpec> {
    match parse_u16(k.subrange(1, k.len() as int), 10) {
        Some(n) => if 1 <= n <= 24 {
            Some(key_vk((0x6F + n) as u16))
        } else {
            None
        },
        None => None,
    }
}

/// `vk_` and a hexadecimal code of at most `FF`.
pub open spec fn raw_vk_key(k: Seq<char>) -> Option<KeySpec> {
    match parse_u16(k.subrange(3, k.len() as int), 16) {
        Some(n) => if n <= 0xFF {
            Some(key_vk(n))
        } else {
            None
        },
        None => None,
    }
}

/// The key that a compact (trimmed, lower-case, separator-free) key name
/// names, other than a single letter or digit.
pub open spec fn named_key(k: Seq<char>) -> Option<KeySpec> {
    if k == "backspace"@ {
        Some(key_vk(0x08))
    } else if k == "tab"@ {
        Some(key_vk(0x09))
    } else if k == "enter"@ {
        Some(key_vk(0x0D))
    } else if k == "numpadenter"@ {
        Some(key_extended(0x0D))
    } else if k == "shift"@ {
        Some(key_vk(0x10))
    } else if k == "shiftleft"@ {
        Some(key_vk(0xA0))
    } else if k == "shiftright"@ {
        Some(key_vk(0xA1))
    } else if k == "control"@ || k == "ctrl"@ {
        Some(key_vk(0x11))
    } else if k == "controlleft"@ {
        Some(key_vk(0xA2))
    } else if k == "controlright"@ {
        Some(key_extended(0xA3))
    } else if k == "alt"@ {
        Some(key_vk(0x12))
    } else if k == "altleft"@ {
        Some(key_vk(0xA4))
    } else if k == "altright"@ {
        Some(key_extended(0xA5))
    } else if k == "metaleft"@ {
        Some(key_extended(0x5B))
    } else if k == "metaright"@ {
        Some(key_extended(0x5C))
    } else if k == "pause"@ {
        Some(key_vk(0x13))
    } else if k == "capslock"@ {
        Some(key_vk(0x14))
    } else if k == "lang1"@ || k == "kanamode"@ {
        Some(key_vk(0x15))
    } else if k == "lang3"@ {
        Some(key_vk(0x17))
    } else if k == "lang4"@ {
        Some(key_vk(0x18))
    } else if k == "lang2"@ {
        Some(key_vk(0x19))
    } else if k == "lang5"@ {
        Some(key_vk(0x1A))
    } else if k == "escape"@ || k == "esc"@ {
        Some(key_vk(0x1B))
    } else if k == "convert"@ {
        Some(key_vk(0x1C))
    } else if k == "nonconvert"@ {
        Some(key_vk(0x1D))
    } else if k == "space"@ {
        Some(key_vk(0x20))
    } else if k == "pageup"@ {
        Some(key_extended(0x21))
    } else if k == "pagedown"@ {
        Some(key_extended(0x22))
    } else if k == "end"@ {
        Some(key_extended(0x23))
    } else if k == "home"@ {
        Some(key_extended(0x24))
    } else if k == "arrowleft"@ {
        Some(key_extended(0x25))
    } else if k == "arrowup"@ {
        Some(key_extended(0x26))
    } else if k == "arrowright"@ {
        Some(key_extended(0x27))
    } else if k == "arrowdown"@ {
        Some(key_extended(0x28))
    } else if k == "printscreen"@ {
        Some(key_extended(0x2C))
    } else if k == "insert"@ {
        Some(key_extended(0x2D))
    } else if k == "delete"@ {
        Some(key_extended(0x2E))
    } else if k == "contextmenu"@ {
        Some(key_extended(0x5D))
    } else if is_numpad_digit_form(k) {
        numpad_digit_key(k)
    } else if k == "numpadmultiply"@ {
        Some(key_vk(0x6A))
    } else if k == "numpadadd"@ {
        Some(key_vk(0x6B))
    } else if k == "numpadcomma"@ {
        Some(key_vk(0x6C))
    } else if k == "numpadsubtract"@ {
        Some(key_vk(0x6D))
    } else if k == "numpaddecimal"@ {
        Some(key_vk(0x6E))
    } else if k == "numpaddivide"@ {
        Some(key_extended(0x6F))
    } else if k.len() >= 1 && k[0] == 'f' {
        function_key(k)
    } else if k == "numlock"@ {
        Some(key_extended(0x90))
    } else if k == "scrolllock"@ {
        Some(key_vk(0x91))
    } else if k == "numpadequal"@ {
        Some(key_vk(0x92))
    } else if k == "browserback"@ {
        Some(key_extended(0xA6))
    } else if k == "browserforward"@ {
        Some(key_extended(0xA7))
    } else if k == "browserrefresh"@ {
        Some(key_extended(0xA8))
    } else if k == "browserstop"@ {
        Some(key_extended(0xA9))
    } else if k == "browsersearch"@ {
        Some(key_extended(0xAA))
    } else if k == "browserfavorites"@ {
        Some(key_extended(0xAB))
    } else if k == "browserhome"@ {
        Some(key_extended(0xAC))
    } else if k == "audiovolumemute"@ {
        Some(key_extended(0xAD))
    } else if k == "audiovolumedown"@ {
        Some(key_extended(0xAE))
    } else if k == "audiovolumeup"@ {
        Some(key_extended(0xAF))
    } else if k == "mediatracknext"@ {
        Some(key_extended(0xB0))
    } else if k == "mediatrackprevious"@ {
        Some(key_extended(0xB1))
    } else if k == "mediastop"@ {
        Some(key_extended(0xB2))
    } else if k == "mediaplaypause"@ {
        Some(key_extended(0xB3))
    } else if k == "launchmail"@ {
        Some(key_extended(0xB4))
    } else if k == "launchmediaplayer"@ {
        Some(key_extended(0xB5))
    } else if k == "launchapp1"@ {
        Some(key_extended(0xB6))
    } else if k == "launchapp2"@ {
        Some(key_extended(0xB7))
    } else if k == "semicolon"@ {
        Some(key_vk(0xBA))
    } else if k == "equal"@ {
        Some(key_vk(0xBB))
    } else if k == "comma"@ {
        Some(key_vk(0xBC))
    } else if k == "minus"@ {
        Some(key_vk(0xBD))
    } else if k == "period"@ {
        Some(key_vk(0xBE))
    } else if k == "slash"@ {
        Some(key_vk(0xBF))
    } else if k == "backquote"@ {
        Some(key_vk(0xC0))
    } else if k == "bracketleft"@ {
        Some(key_vk(0xDB))
    } else if k == "backslash"@ {
        Some(key_vk(0xDC))
    } else if k == "bracketright"@ {
        Some(key_vk(0xDD))
    } else if k == "quote"@ {
        Some(key_vk(0xDE))
    } else if k == "intlbackslash"@ {
        Some(key_scan(0x56))
    } else if k == "intlro"@ {
        Some(key_scan(0x73))
    } else if k == "intlyen"@ {
        Some(key_scan(0x7D))
    } else if k.len() >= 3 && k.subrange(0, 3) == "vk_"@ {
        raw_vk_key(k)
    } else {
        None
    }
}

/// The key a key name names: a single letter or digit, or one of the
/// names of `named_key`.
pub open spec fn key_spec_of(name: Seq<char>) -> Option<KeySpec> {
    let k = compact_key(name);
    if k.len() == 1 && 'a' <= k[0] <= 'z' {
        Some(key_vk(((k[0] as u32) - 32) as u16))
    } else if k.len() == 1 && '0' <= k[0] <= '9' {
        Some(key_vk(k[0] as u16))
    } else {
        named_key(k)
    }
}

fn numpad_digit_form_exec(k: &str) -> (r: bool)
    ensures
        r == is_numpad_digit_form(k@),
{
    proof {
        reveal_strlit("numpad");
    }
    k.unicode_len() == 7 && has_prefix(k, "numpad") && (k.get_char(6) as u32) < 128
}

fn numpad_digit_key_exec(k: &str) -> (r: Option<KeySpec>)
    requires
        is_numpad_digit_form(k@),
    ensures
        r == numpad_digit_key(k@),
{
    let rest = crate::text::substring(k, 6, 7);
    match parse_u16_exec(rest.as_str(), 10) {
        Some(n) => if n <= 9 {
            Some(KeySpec::vk(0x60 + n))
        } else {
            None
        },
        None => None,
    }
}

fn starts_with_f(k: &str) -> (r: bool)
    ensures
        r == (k@.len() >= 1 && k@[0] == 'f'),
{
    k.unicode_len() >= 1 && k.get_char(0) == 'f'
}

fn function_key_exec(k: &str) -> (r: Option<KeySpec>)
    requires
        k@.len() >= 1,
    ensures
        r == function_key(k@),
{
    let rest = crate::text::substring(k, 1, k.unicode_len());
    match parse_u16_exec(rest.as_str(), 10) {
        Some(n) => if 1 <= n && n <= 24 {
            Some(KeySpec::vk(0x6F + n))
        } else {
            None
        },
        None => None,
    }
}

fn raw_vk_key_exec(k: &str) -> (r: Option<KeySpec>)
    requires
        k@.len() >= 3,
    ensures
        r == raw_vk_key(k@),
{
    let rest = crate::text::substring(k, 3, k.unicode_len());
    match parse_u16_exec(rest.as_str(), 16) {
        Some(n) => if n <= 0xFF {
            Some(KeySpec::vk(n))
        } else {
            None
        },
        None => None,
    }
}

#[verifier::rlimit(50)]
fn named_key_exec(k: &str) -> (r: Option<KeySpec>)
    ensures
        r == named_key(k@),
{
    proof {
        reveal_strlit("vk_");
    }
    if str_eq(k, "backspace") {
        Some(KeySpec::vk(0x08))
    } else if str_eq(k, "tab") {
        Some(KeySpec::vk(0x09))
    } else if str_eq(k, "enter") {
        Some(KeySpec::vk(0x0D))
    } else if str_eq(k, "numpadenter") {
        Some(KeySpec::extended(0x0D))
    } else if str_eq(k, "shift") {
        Some(KeySpec::vk(0x10))
    } else if str_eq(k, "shiftleft") {
        Some(KeySpec::vk(0xA0))
    } else if str_eq(k, "shiftright") {
        Some(KeySpec::vk(0xA1))
    } else if str_eq(k, "control") || str_eq(k, "ctrl") {
        Some(KeySpec::vk(0x11))
    } else if str_eq(k, "controlleft") {
        Some(KeySpec::vk(0xA2))
    } else if str_eq(k, "controlright") {
        Some(KeySpec::extended(0xA3))
    } else if str_eq(k, "alt") {
        Some(KeySpec::vk(0x12))
    } else if str_eq(k, "altleft") {
        Some(KeySpec::vk(0xA4))
    } else if str_eq(k, "altright") {
        Some(KeySpec::extended(0xA5))
    } else if str_eq(k, "metaleft") {
        Some(KeySpec::extended(0x5B))
    } else if str_eq(k, "metaright") {
        Some(KeySpec::extended(0x5C))
    } else if str_eq(k, "pause") {
        Some(KeySpec::vk(0x13))
    } else if str_eq(k, "capslock") {
        Some(KeySpec::vk(0x14))
    } else if str_eq(k, "lang1") || str_eq(k, "kanamode") {
        Some(KeySpec::vk(0x15))
    } else if str_eq(k, "lang3") {
        Some(KeySpec::vk(0x17))
    } else if str_eq(k, "lang4") {
        Some(KeySpec::vk(0x18))
    } else if str_eq(k, "lang2") {
        Some(KeySpec::vk(0x19))
    } else if str_eq(k, "lang5") {
        Some(KeySpec::vk(0x1A))
    } else if str_eq(k, "escape") || str_eq(k, "esc") {
        Some(KeySpec::vk(0x1B))
    } else if str_eq(k, "convert") {
        Some(KeySpec::vk(0x1C))
    } else if str_eq(k, "nonconvert") {
        Some(KeySpec::vk(0x1D))
    } else if str_eq(k, "space") {
        Some(KeySpec::vk(0x20))
    } else if str_eq(k, "pageup") {
        Some(KeySpec::extended(0x21))
    } else if str_eq(k, "pagedown") {
        Some(KeySpec::extended(0x22))
    } else if str_eq(k, "end") {
        Some(KeySpec::extended(0x23))
    } else if str_eq(k, "home") {
        Some(KeySpec::extended(0x24))
    } else if str_eq(k, "arrowleft") {
        Some(KeySpec::extended(0x25))
    } else if str_eq(k, "arrowup") {
        Some(KeySpec::extended(0x26))
    } else if str_eq(k, "arrowright") {
        Some(KeySpec::extended(0x27))
    } else if str_eq(k, "arrowdown") {
        Some(KeySpec::extended(0x28))
    } else if str_eq(k, "printscreen") {
        Some(KeySpec::extended(0x2C))
    } else if str_eq(k, "insert") {
        Some(KeySpec::extended(0x2D))
    } else if str_eq(k, "delete") {
        Some(KeySpec::extended(0x2E))
    } else if str_eq(k, "contextmenu") {
        Some(KeySpec::extended(0x5D))
    } else if numpad_digit_form_exec(k) {
        numpad_digit_key_exec(k)
    } else if str_eq(k, "numpadmultiply") {
        Some(KeySpec::vk(0x6A))
    } else if str_eq(k, "numpadadd") {
        Some(KeySpec::vk(0x6B))
    } else if str_eq(k, "numpadcomma") {
        Some(KeySpec::vk(0x6C))
    } else if str_eq(k, "numpadsubtract") {
        Some(KeySpec::vk(0x6D))
    } else if str_eq(k, "numpaddecimal") {
        Some(KeySpec::vk(0x6E))
    } else if str_eq(k, "numpaddivide") {
        Some(KeySpec::extended(0x6F))
    } else if starts_with_f(k) {
        function_key_exec(k)
    } else if str_eq(k, "numlock") {
        Some(KeySpec::extended(0x90))
    } else if str_eq(k, "scrolllock") {
        Some(KeySpec::vk(0x91))
    } else if str_eq(k, "numpadequal") {
        Some(KeySpec::vk(0x92))
    } else if str_eq(k, "browserback") {
        Some(KeySpec::extended(0xA6))
    } else if str_eq(k, "browserforward") {
        Some(KeySpec::extended(0xA7))
    } else if str_eq(k, "browserrefresh") {
        Some(KeySpec::extended(0xA8))
    } else if str_eq(k, "browserstop") {
        Some(KeySpec::extended(0xA9))
    } else if str_eq(k, "browsersearch") {
        Some(KeySpec::extended(0xAA))
    } else if str_eq(k, "browserfavorites") {
        Some(KeySpec::extended(0xAB))
    } else if str_eq(k, "browserhome") {
        Some(KeySpec::extended(0xAC))
    } else if str_eq(k, "audiovolumemute") {
        Some(KeySpec::extended(0xAD))
    } else if str_eq(k, "audiovolumedown") {
        Some(KeySpec::extended(0xAE))
    } else if str_eq(k, "audiovolumeup") {
        Some(KeySpec::extended(0xAF))
    } else if str_eq(k, "mediatracknext") {
        Some(KeySpec::extended(0xB0))
    } else if str_eq(k, "mediatrackprevious") {
        Some(KeySpec::extended(0xB1))
    } else if str_eq(k, "mediastop") {
        Some(KeySpec::extended(0xB2))
    } else if str_eq(k, "mediaplaypause") {
        Some(KeySpec::extended(0xB3))
    } else if str_eq(k, "launchmail") {
        Some(KeySpec::extended(0xB4))
    } else if str_eq(k, "launchmediaplayer") {
        Some(KeySpec::extended(0xB5))
    } else if str_eq(k, "launchapp1") {
        Some(KeySpec::extended(0xB6))
    } else if str_eq(k, "launchapp2") {
        Some(KeySpec::extended(0xB7))
    } else if str_eq(k, "semicolon") {
        Some(KeySpec::vk(0xBA))
    } else if str_eq(k, "equal") {
        Some(KeySpec::vk(0xBB))
    } else if str_eq(k, "comma") {
        Some(KeySpec::vk(0xBC))
    } else if str_eq(k, "minus") {
        Some(KeySpec::vk(0xBD))
    } else if str_eq(k, "period") {
        Some(KeySpec::vk(0xBE))
    } else if str_eq(k, "slash") {
        Some(KeySpec::vk(0xBF))
    } else if str_eq(k, "backquote") {
        Some(KeySpec::vk(0xC0))
    } else if str_eq(k, "bracketleft") {
        Some(KeySpec::vk(0xDB))
    } else if str_eq(k, "backslash") {
        Some(KeySpec::vk(0xDC))
    } else if str_eq(k, "bracketright") {
        Some(KeySpec::vk(0xDD))
    } else if str_eq(k, "quote") {
        Some(KeySpec::vk(0xDE))
    } else if str_eq(k, "intlbackslash") {
        Some(KeySpec::scan(0x56))
    } else if str_eq(k, "intlro") {
        Some(KeySpec::scan(0x73))
    } else if str_eq(k, "intlyen") {
        Some(KeySpec::scan(0x7D))
    } else if has_prefix(k, "vk_") {
        raw_vk_key_exec(k)
    } else {
        None
    }
}

/// The key to inject for a key name; `None` for a name that names no key.
pub fn name_to_key_spec(name: &str) -> (r: Option<KeySpec>)
    ensures
        r == key_spec_of(name@),
{
    let lower = compact_key_exec(name);
    let k = lower.as_str();
    if k.unicode_len() == 1 {
        let c = k.get_char(0);
        if 'a' <= c && c <= 'z' {
            let b: u8 = c as u8;
            return Some(KeySpec::vk((b - 32) as u16));
        }
        if '0' <= c && c <= '9' {
            let b: u8 = c as u8;
            return Some(KeySpec::vk(b as u16));
        }
    }
    named_key_exec(k)
}

/// The key name for a key event that a low-level keyboard hook reports:
/// its virtual-key code, scan code and flags.
pub open spec fn key_name_of(vk: u32, scan_code: u32, flags: u32) -> Seq<char> {
    let extended = flags & LLKHF_EXTENDED_FLAG != 0;
    if vk == 0x08 {
        "Backspace"@
    } else if vk == 0x09 {
        "Tab"@
    } else if vk == 0x0D && extended {
        "NumpadEnter"@
    } else if vk == 0x0D {
        "Enter"@
    } else if vk == 0x10 && scan_code == 0x36 {
        "ShiftRight"@
    } else if vk == 0x10 {
        "ShiftLeft"@
    } else if vk == 0x11 && extended {
        "ControlRight"@
    } else if vk == 0x11 {
        "ControlLeft"@
    } else if vk == 0x12 && extended {
        "AltRight"@
    } else if vk == 0x12 {
        "AltLeft"@
    } else if vk == 0x13 {
        "Pause"@
    } else if vk == 0x14 {
        "CapsLock"@
    } else if vk == 0x15 {
        "Lang1"@
    } else if vk == 0x17 {
        "Lang3"@
    } else if vk == 0x18 {
        "Lang4"@
    } else if vk == 0x19 {
        "Lang2"@
    } else if vk == 0x1A {
        "Lang5"@
    } else if vk == 0x1B {
        "Escape"@
    } else if vk == 0x1C {
        "Convert"@
    } else if vk == 0x1D {
        "NonConvert"@
    } else if vk == 0x20 {
        "Space"@
    } else if vk == 0x21 {
        "PageUp"@
    } else if vk == 0x22 {
        "PageDown"@
    } else if vk == 0x23 {
        "End"@
    } else if vk == 0x24 {
        "Home"@
    } else if vk == 0x25 {
        "ArrowLeft"@
    } else if vk == 0x26 {
        "ArrowUp"@
    } else if vk == 0x27 {
        "ArrowRight"@
    } else if vk == 0x28 {
        "ArrowDown"@
    } else if vk == 0x2C {
        "PrintScreen"@
    } else if vk == 0x2D {
        "Insert"@
    } else if vk == 0x2E {
        "Delete"@
    } else if (0x30 <= vk <= 0x39) || (0x41 <= vk <= 0x5A) {
        seq![vk as char]
    } else if vk == 0x5B {
        "MetaLeft"@
    } else if vk == 0x5C {
        "MetaRight"@
    } else if vk == 0x5D {
        "ContextMenu"@
    } else if 0x60 <= vk <= 0x69 {
        "Numpad"@ + decimal((vk - 0x60) as nat)
    } else if vk == 0x6A {
        "NumpadMultiply"@
    } else if vk == 0x6B {
        "NumpadAdd"@
    } else if vk == 0x6C {
        "NumpadComma"@
    } else if vk == 0x6D {
        "NumpadSubtract"@
    } else if vk == 0x6E {
        "NumpadDecimal"@
    } else if vk == 0x6F {
        "NumpadDivide"@
    } else if 0x70 <= vk <= 0x87 {
        "F"@ + decimal((vk - 0x6F) as nat)
    } else if vk == 0x90 {
        "NumLock"@
    } else if vk == 0x91 {
        "ScrollLock"@
    } else if vk == 0x92 {
        "NumpadEqual"@
    } else if vk == 0xA0 {
        "ShiftLeft"@
    } else if vk == 0xA1 {
        "ShiftRight"@
    } else if vk == 0xA2 {
        "ControlLeft"@
    } else if vk == 0xA3 {
        "ControlRight"@
    } else if vk == 0xA4 {
        "AltLeft"@
    } else if vk == 0xA5 {
        "AltRight"@
    } else if vk == 0xA6 {
        "BrowserBack"@
    } else if vk == 0xA7 {
        "BrowserForward"@
    } else if vk == 0xA8 {
        "BrowserRefresh"@
    } else if vk == 0xA9 {
        "BrowserStop"@
    } else if vk == 0xAA {
        "BrowserSearch"@
    } else if vk == 0xAB {
        "BrowserFavorites"@
    } else if vk == 0xAC {
        "BrowserHome"@
    } else if vk == 0xAD {
        "AudioVolumeMute"@
    } else if vk == 0xAE {
        "AudioVolumeDown"@
    } else if vk == 0xAF {
        "AudioVolumeUp"@
    } else if vk == 0xB0 {
        "MediaTrackNext"@
    } else if vk == 0xB1 {
        "MediaTrackPrevious"@
    } else if vk == 0xB2 {
        "MediaStop"@
    } else if vk == 0xB3 {
        "MediaPlayPause"@
    } else if vk == 0xB4 {
        "LaunchMail"@
    } else if vk == 0xB5 {
        "LaunchMediaPlayer"@
    } else if vk == 0xB6 {
        "LaunchApp1"@
    } else if vk == 0xB7 {
        "LaunchApp2"@
    } else if vk == 0xBA {
        "Semicolon"@
    } else if vk == 0xBB {
        "Equal"@
    } else if vk == 0xBC {
        "Comma"@
    } else if vk == 0xBD {
        "Minus"@
    } else if vk == 0xBE {
        "Period"@
    } else if vk == 0xBF {
        "Slash"@
    } else if vk == 0xC0 {
        "Backquote"@
    } else if vk == 0xDB {
        "BracketLeft"@
    } else if vk == 0xDC && scan_code == 0x7D {
        "IntlYen"@
    } else if vk == 0xDC {
        "Backslash"@
    } else if vk == 0xDD {
        "BracketRight"@
    } else if vk == 0xDE {
        "Quote"@
    } else if vk == 0xE2 && scan_code == 0x73 {
        "IntlRo"@
    } else if vk == 0xE2 && scan_code == 0x7D {
        "IntlYen"@
    } else if vk == 0xE2 {
        "IntlBackslash"@
    } else {
        "VK_"@ + hex_padded(vk as nat, 2, true)
    }
}

#[verifier::rlimit(50)]
pub fn vk_name(vk: u32, scan_code: u32, flags: u32) -> (r: String)
    ensures
        r@ == key_name_of(vk, scan_code, flags),
{
    let extended = flags & LLKHF_EXTENDED_FLAG != 0;
    if vk == 0x08 {
        "Backspace".to_owned()
    } else if vk == 0x09 {
        "Tab".to_owned()
    } else if vk == 0x0D && extended {
        "NumpadEnter".to_owned()
    } else if vk == 0x0D {
        "Enter".to_owned()
    } else if vk == 0x10 && scan_code == 0x36 {
        "ShiftRight".to_owned()
    } else if vk == 0x10 {
        "ShiftLeft".to_owned()
    } else if vk == 0x11 && extended {
        "ControlRight".to_owned()
    } else if vk == 0x11 {
        "ControlLeft".to_owned()
    } else if vk == 0x12 && extended {
        "AltRight".to_owned()
    } else if vk == 0x12 {
        "AltLeft".to_owned()
    } else if vk == 0x13 {
        "Pause".to_owned()
    } else if vk == 0x14 {
        "CapsLock".to_owned()
    } else if vk == 0x15 {
        "Lang1".to_owned()
    } else if vk == 0x17 {
        "Lang3".to_owned()
    } else if vk == 0x18 {
        "Lang4".to_owned()
    } else if vk == 0x19 {
        "Lang2".to_owned()
    } else if vk == 0x1A {
        "Lang5".to_owned()
    } else if vk == 0x1B {
        "Escape".to_owned()
    } else if vk == 0x1C {
        "Convert".to_owned()
    } else if vk == 0x1D {
        "NonConvert".to_owned()
    } else if vk == 0x20 {
        "Space".to_owned()
    } else if vk == 0x21 {
        "PageUp".to_owned()
    } else if vk == 0x22 {
        "PageDown".to_owned()
    } else if vk == 0x23 {
        "End".to_owned()
    } else if vk == 0x24 {
        "Home".to_owned()
    } else if vk == 0x25 {
        "ArrowLeft".to_owned()
    } else if vk == 0x26 {
        "ArrowUp".to_owned()
    } else if vk == 0x27 {
        "ArrowRight".to_owned()
    } else if vk == 0x28 {
        "ArrowDown".to_owned()
    } else if vk == 0x2C {
        "PrintScreen".to_owned()
    } else if vk == 0x2D {
        "Insert".to_owned()
    } else if vk == 0x2E {
        "Delete".to_owned()
    } else if (0x30 <= vk && vk <= 0x39) || (0x41 <= vk && vk <= 0x5A) {
        let mut s = String::new();
        s.push((vk as u8) as char);
        s
    } else if vk == 0x5B {
        "MetaLeft".to_owned()
    } else if vk == 0x5C {
        "MetaRight".to_owned()
    } else if vk == 0x5D {
        "ContextMenu".to_owned()
    } else if 0x60 <= vk && vk <= 0x69 {
        let mut s = "Numpad".to_owned();
        push_decimal(&mut s, (vk - 0x60) as u64);
        s
    } else if vk == 0x6A {
        "NumpadMultiply".to_owned()
    } else if vk == 0x6B {
        "NumpadAdd".to_owned()
    } else if vk == 0x6C {
        "NumpadComma".to_owned()
    } else if vk == 0x6D {
        "NumpadSubtract".to_owned()
    } else if vk == 0x6E {
        "NumpadDecimal".to_owned()
    } else if vk == 0x6F {
        "NumpadDivide".to_owned()
    } else if 0x70 <= vk && vk <= 0x87 {
        let mut s = "F".to_owned();
        push_decimal(&mut s, (vk - 0x6F) as u64);
        s
    } else if vk == 0x90 {
        "NumLock".to_owned()
    } else if vk == 0x91 {
        "ScrollLock".to_owned()
    } else if vk == 0x92 {
        "NumpadEqual".to_owned()
    } else if vk == 0xA0 {
        "ShiftLeft".to_owned()
    } else if vk == 0xA1 {
        "ShiftRight".to_owned()
    } else if vk == 0xA2 {
        "ControlLeft".to_owned()
    } else if vk == 0xA3 {
        "ControlRight".to_owned()
    } else if vk == 0xA4 {
        "AltLeft".to_owned()
    } else if vk == 0xA5 {
        "AltRight".to_owned()
    } else if vk == 0xA6 {
        "BrowserBack".to_owned()
    } else if vk == 0xA7 {
        "BrowserForward".to_owned()
    } else if vk == 0xA8 {
        "BrowserRefresh".to_owned()
    } else if vk == 0xA9 {
        "BrowserStop".to_owned()
    } else if vk == 0xAA {
        "BrowserSearch".to_owned()
    } else if vk == 0xAB {
        "BrowserFavorites".to_owned()
    } else if vk == 0xAC {
        "BrowserHome".to_owned()
    } else if vk == 0xAD {
        "AudioVolumeMute".to_owned()
    } else if vk == 0xAE {
        "AudioVolumeDown".to_owned()
    } else if vk == 0xAF {
        "AudioVolumeUp".to_owned()
    } else if vk == 0xB0 {
        "MediaTrackNext".to_owned()
    } else if vk == 0xB1 {
        "MediaTrackPrevious".to_owned()
    } else if vk == 0xB2 {
        "MediaStop".to_owned()
    } else if vk == 0xB3 {
        "MediaPlayPause".to_owned()
    } else if vk == 0xB4 {
        "LaunchMail".to_owned()
    } else if vk == 0xB5 {
        "LaunchMediaPlayer".to_owned()
    } else if vk == 0xB6 {
        "LaunchApp1".to_owned()
    } else if vk == 0xB7 {
        "LaunchApp2".to_owned()
    } else if vk == 0xBA {
        "Semicolon".to_owned()
    } else if vk == 0xBB {
        "Equal".to_owned()
    } else if vk == 0xBC {
        "Comma".to_owned()
    } else if vk == 0xBD {
        "Minus".to_owned()
    } else if vk == 0xBE {
        "Period".to_owned()
    } else if vk == 0xBF {
        "Slash".to_owned()
    } else if vk == 0xC0 {
        "Backquote".to_owned()
    } else if vk == 0xDB {
        "BracketLeft".to_owned()
    } else if vk == 0xDC && scan_code == 0x7D {
        "IntlYen".to_owned()
    } else if vk == 0xDC {
        "Backslash".to_owned()
    } else if vk == 0xDD {
        "BracketRight".to_owned()
    } else if vk == 0xDE {
        "Quote".to_owned()
    } else if vk == 0xE2 && scan_code == 0x73 {
        "IntlRo".to_owned()
    } else if vk == 0xE2 && scan_code == 0x7D {
        "IntlYen".to_owned()
    } else if vk == 0xE2 {
        "IntlBackslash".to_owned()
    } else {
        let mut s = "VK_".to_owned();
        push_hex(&mut s, vk as u128, 2, true);
        s
    }
}

/// The key events that inject `keys` in the given phase: presses in order
/// for `Down`, releases in reverse order for `Up`, and both for `Invoke`.
pub open spec fn key_event_plan(keys: Seq<KeySpec>, phase: DispatchActionPhase) -> Seq<(KeySpec, u32)> {
    let downs = keys.map_values(|k: KeySpec| (k, 0u32));
    let ups = keys.reverse().map_values(|k: KeySpec| (k, KEYEVENTF_KEYUP));
    match phase {
        DispatchActionPhase::Invoke => downs + ups,
        DispatchActionPhase::Down => downs,
        DispatchActionPhase::Up => ups,
    }
}

pub fn plan_key_events(keys: &[KeySpec], phase: DispatchActionPhase) -> (r: Vec<(KeySpec, u32)>)
    ensures
        r@ == key_event_plan(keys@, phase),
{
    let n = keys.len();
    let mut downs: Vec<(KeySpec, u32)> = Vec::new();
    let mut ups: Vec<(KeySpec, u32)> = Vec::new();
    let mut i: usize = 0;
    while i < n
        invariant
            n == keys@.len(),
            i <= n,
            downs@ =~= keys@.subrange(0, i as int).map_values(|k: KeySpec| (k, 0u32)),
            ups@ =~= keys@.reverse().subrange(0, i as int).map_values(|k: KeySpec| (k, KEYEVENTF_KEYUP)),
        decreases n - i,
    {
        downs.push((keys[i], 0));
        ups.push((keys[n - 1 - i], KEYEVENTF_KEYUP));
        i = i + 1;
    }
    assert(keys@.subrange(0, n as int) =~= keys@);
    assert(keys@.reverse().subrange(0, n as int) =~= keys@.reverse());
    match phase {
        DispatchActionPhase::Invoke => {
            downs.append(&mut ups);
            downs
        },
        DispatchActionPhase::Down => downs,
        DispatchActionPhase::Up => ups,
    }
}

/// The keys of a chord, each named, or `None` if any name names no key.
pub open spec fn chord_key_specs(chord: Seq<Seq<char>>) -> Option<Seq<KeySpec>> {
    if forall|i: int| 0 <= i < chord.len() ==> (#[trigger] key_spec_of(chord[i])) is Some {
        Some(chord.map_values(|name: Seq<char>| key_spec_of(name)->0))
    } else {
        None
    }
}

/// The keys to inject for a chord of key names; `None` when one of them
/// names no key, in which case nothing is injected.
pub fn chord_to_key_specs(chord: &Vec<String>) -> (r: Option<Vec<KeySpec>>)
    ensures
        match r {
            Some(v) => chord_key_specs(crate::keys::texts(chord@)) == Some(v@),
            None => chord_key_specs(crate::keys::texts(chord@)) is None,
        },
{
    let ghost names = crate::keys::texts(chord@);
    let n = chord.len();
    let mut out: Vec<KeySpec> = Vec::new();
    let mut i: usize = 0;
    while i < n
        invariant
            n == chord@.len(),
            names == crate::keys::texts(chord@),
            i <= n,
            out@.len() == i,
            forall|j: int| 0 <= j < i ==> key_spec_of(#[trigger] names[j]) == Some(out@[j]),
        decreases n - i,
    {
        match name_to_key_spec(chord[i].as_str()) {
            Some(k) => out.push(k),
            None => {
                assert(key_spec_of(names[i as int]) is None);
                return None;
            },
        }
        i = i + 1;
    }
    assert(out@ =~= names.map_values(|name: Seq<char>| key_spec_of(name)->0));
    Some(out)
}

/// `MOUSEEVENTF_*` press and release flags, and the `mouseData` word, that
/// inject a click of a mouse button.
pub open spec fn mouse_button_events(button: MouseButton) -> (u32, u32, u32) {
    match button {
        MouseButton::Left => (0x0002, 0x0004, 0),
        MouseButton::Right => (0x0008, 0x0010, 0),
        MouseButton::Middle => (0x0020, 0x0040, 0),
        MouseButton::X1 => (0x0080, 0x0100, 1),
        MouseButton::X2 => (0x0080, 0x0100, 2),
    }
}

pub fn mouse_button_input(button: MouseButton) -> (r: (u32, u32, u32))
    ensures
        r == mouse_button_events(button),
{
    match button {
        MouseButton::Left => (0x0002, 0x0004, 0),
        MouseButton::Right => (0x0008, 0x0010, 0),
        MouseButton::Middle => (0x0020, 0x0040, 0),
        MouseButton::X1 => (0x0080, 0x0100, 1),
        MouseButton::X2 => (0x0080, 0x0100, 2),
    }
}

} // verus!
