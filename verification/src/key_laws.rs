//! Every key name the low-level hook reports is one that output injection
//! accepts.
use vstd::prelude::*;
use crate::keys::{compact_key, strip_sep};
use crate::digits::{decimal, digit_value, digits_value, hex_char, hex_digits, hex_padded, parse_u16};
use crate::keymap::{
    key_extended, key_name_of, key_scan, key_spec_of, key_vk, named_key, LLKHF_EXTENDED_FLAG,
};
use crate::text::{ascii_lower, lower, trim};

verus! {

/// A letter, a digit or an underscore: a character that compacting a key
/// name leaves as it is, but for the case of letters.
spec fn name_char(c: char) -> bool {
    ('a' <= c <= 'z') || ('A' <= c <= 'Z') || ('0' <= c <= '9') || c == '_'
}

proof fn lemma_strip_plain(s: Seq<char>)
    requires
        forall|i: int| 0 <= i < s.len() ==> s[i] != ' ' && s[i] != '-',
    ensures
        strip_sep(s) == s,
    decreases s.len(),
{
    if s.len() > 0 {
        lemma_strip_plain(s.drop_last());
        assert(s.drop_last().push(s.last()) =~= s);
    }
}

/// A name of letters, digits and underscores compacts to its lower case.
proof fn lemma_plain_compact(s: Seq<char>)
    requires
        forall|i: int| 0 <= i < s.len() ==> name_char(#[trigger] s[i]),
    ensures
        compact_key(s) == lower(s),
{
    crate::text::lemma_trim_bounds(s);
    crate::text::lemma_skip_ws_bounds(s, 0);
    if s.len() > 0 {
        assert(!crate::text::is_ws(s[0]));
        assert(!crate::text::is_ws(s[s.len() - 1]));
    }
    assert(crate::text::trim_start_index(s) == 0);
    assert(crate::text::trim_end_index(s) == s.len());
    assert(trim(s) =~= s);
    lemma_strip_plain(lower(s));
}

/// The length and first, middle and last letters of each name that
/// `named_key` lists: enough to tell any two of them apart.
proof fn lemma_name_shapes()
    ensures
        "alt"@.len() == 3 && "alt"@[0] == 'a' && "alt"@[1] == 'l' && "alt"@[2] == 't',
        "altleft"@.len() == 7 && "altleft"@[0] == 'a' && "altleft"@[3] == 'l' && "altleft"@[6] == 't',
        "altright"@.len() == 8 && "altright"@[0] == 'a' && "altright"@[4] == 'i' && "altright"@[7] == 't',
        "arrowdown"@.len() == 9 && "arrowdown"@[0] == 'a' && "arrowdown"@[4] == 'w' && "arrowdown"@[8] == 'n',
        "arrowleft"@.len() == 9 && "arrowleft"@[0] == 'a' && "arrowleft"@[4] == 'w' && "arrowleft"@[8] == 't',
        "arrowright"@.len() == 10 && "arrowright"@[0] == 'a' && "arrowright"@[5] == 'r' && "arrowright"@[9] == 't',
        "arrowup"@.len() == 7 && "arrowup"@[0] == 'a' && "arrowup"@[3] == 'o' && "arrowup"@[6] == 'p',
        "audiovolumedown"@.len() == 15 && "audiovolumedown"@[0] == 'a' && "audiovolumedown"@[7] == 'l' && "audiovolumedown"@[14] == 'n',
        "audiovolumemute"@.len() == 15 && "audiovolumemute"@[0] == 'a' && "audiovolumemute"@[7] == 'l' && "audiovolumemute"@[14] == 'e',
        "audiovolumeup"@.len() == 13 && "audiovolumeup"@[0] == 'a' && "audiovolumeup"@[6] == 'o' && "audiovolumeup"@[12] == 'p',
        "backquote"@.len() == 9 && "backquote"@[0] == 'b' && "backquote"@[4] == 'q' && "backquote"@[8] == 'e',
        "backslash"@.len() == 9 && "backslash"@[0] == 'b' && "backslash"@[4] == 's' && "backslash"@[8] == 'h',
        "backspace"@.len() == 9 && "backspace"@[0] == 'b' && "backspace"@[4] == 's' && "backspace"@[8] == 'e',
        "bracketleft"@.len() == 11 && "bracketleft"@[0] == 'b' && "bracketleft"@[5] == 'e' && "bracketleft"@[10] == 't',
        "bracketright"@.len() == 12 && "bracketright"@[0] == 'b' && "bracketright"@[6] == 't' && "bracketright"@[11] == 't',
        "browserback"@.len() == 11 && "browserback"@[0] == 'b' && "browserback"@[5] == 'e' && "browserback"@[10] == 'k',
        "browserfavorites"@.len() == 16 && "browserfavorites"@[0] == 'b' && "browserfavorites"@[8] == 'a' && "browserfavorites"@[15] == 's',
        "browserforward"@.len() == 14 && "browserforward"@[0] == 'b' && "browserforward"@[7] == 'f' && "browserforward"@[13] == 'd',
        "browserhome"@.len() == 11 && "browserhome"@[0] == 'b' && "browserhome"@[5] == 'e' && "browserhome"@[10] == 'e',
        "browserrefresh"@.len() == 14 && "browserrefresh"@[0] == 'b' && "browserrefresh"@[7] == 'r' && "browserrefresh"@[13] == 'h',
        "browsersearch"@.len() == 13 && "browsersearch"@[0] == 'b' && "browsersearch"@[6] == 'r' && "browsersearch"@[12] == 'h',
        "browserstop"@.len() == 11 && "browserstop"@[0] == 'b' && "browserstop"@[5] == 'e' && "browserstop"@[10] == 'p',
        "capslock"@.len() == 8 && "capslock"@[0] == 'c' && "capslock"@[4] == 'l' && "capslock"@[7] == 'k',
        "comma"@.len() == 5 && "comma"@[0] == 'c' && "comma"@[2] == 'm' && "comma"@[4] == 'a',
        "contextmenu"@.len() == 11 && "contextmenu"@[0] == 'c' && "contextmenu"@[5] == 'x' && "contextmenu"@[10] == 'u',
        "control"@.len() == 7 && "control"@[0] == 'c' && "control"@[3] == 't' && "control"@[6] == 'l',
        "controlleft"@.len() == 11 && "controlleft"@[0] == 'c' && "controlleft"@[5] == 'o' && "controlleft"@[10] == 't',
        "controlright"@.len() == 12 && "controlright"@[0] == 'c' && "controlright"@[6] == 'l' && "controlright"@[11] == 't',
        "convert"@.len() == 7 && "convert"@[0] == 'c' && "convert"@[3] == 'v' && "convert"@[6] == 't',
        "ctrl"@.len() == 4 && "ctrl"@[0] == 'c' && "ctrl"@[2] == 'r' && "ctrl"@[3] == 'l',
        "delete"@.len() == 6 && "delete"@[0] == 'd' && "delete"@[3] == 'e' && "delete"@[5] == 'e',
        "end"@.len() == 3 && "end"@[0] == 'e' && "end"@[1] == 'n' && "end"@[2] == 'd',
        "enter"@.len() == 5 && "enter"@[0] == 'e' && "enter"@[2] == 't' && "enter"@[4] == 'r',
        "equal"@.len() == 5 && "equal"@[0] == 'e' && "equal"@[2] == 'u' && "equal"@[4] == 'l',
        "esc"@.len() == 3 && "esc"@[0] == 'e' && "esc"@[1] == 's' && "esc"@[2] == 'c',
        "escape"@.len() == 6 && "escape"@[0] == 'e' && "escape"@[3] == 'a' && "escape"@[5] == 'e',
        "home"@.len() == 4 && "home"@[0] == 'h' && "home"@[2] == 'm' && "home"@[3] == 'e',
        "insert"@.len() == 6 && "insert"@[0] == 'i' && "insert"@[3] == 'e' && "insert"@[5] == 't',
        "intlbackslash"@.len() == 13 && "intlbackslash"@[0] == 'i' && "intlbackslash"@[6] == 'c' && "intlbackslash"@[12] == 'h',
        "intlro"@.len() == 6 && "intlro"@[0] == 'i' && "intlro"@[3] == 'l' && "intlro"@[5] == 'o',
        "intlyen"@.len() == 7 && "intlyen"@[0] == 'i' && "intlyen"@[3] == 'l' && "intlyen"@[6] == 'n',
        "kanamode"@.len() == 8 && "kanamode"@[0] == 'k' && "kanamode"@[4] == 'm' && "kanamode"@[7] == 'e',
        "lang1"@.len() == 5 && "lang1"@[0] == 'l' && "lang1"@[2] == 'n' && "lang1"@[4] == '1',
        "lang2"@.len() == 5 && "lang2"@[0] == 'l' && "lang2"@[2] == 'n' && "lang2"@[4] == '2',
        "lang3"@.len() == 5 && "lang3"@[0] == 'l' && "lang3"@[2] == 'n' && "lang3"@[4] == '3',
        "lang4"@.len() == 5 && "lang4"@[0] == 'l' && "lang4"@[2] == 'n' && "lang4"@[4] == '4',
        "lang5"@.len() == 5 && "lang5"@[0] == 'l' && "lang5"@[2] == 'n' && "lang5"@[4] == '5',
        "launchapp1"@.len() == 10 && "launchapp1"@[0] == 'l' && "launchapp1"@[5] == 'h' && "launchapp1"@[9] == '1',
        "launchapp2"@.len() == 10 && "launchapp2"@[0] == 'l' && "launchapp2"@[5] == 'h' && "launchapp2"@[9] == '2',
        "launchmail"@.len() == 10 && "launchmail"@[0] == 'l' && "launchmail"@[5] == 'h' && "launchmail"@[9] == 'l',
        "launchmediaplayer"@.len() == 17 && "launchmediaplayer"@[0] == 'l' && "launchmediaplayer"@[8] == 'd' && "launchmediaplayer"@[16] == 'r',
        "mediaplaypause"@.len() == 14 && "mediaplaypause"@[0] == 'm' && "mediaplaypause"@[7] == 'a' && "mediaplaypause"@[13] == 'e',
        "mediastop"@.len() == 9 && "mediastop"@[0] == 'm' && "mediastop"@[4] == 'a' && "mediastop"@[8] == 'p',
        "mediatracknext"@.len() == 14 && "mediatracknext"@[0] == 'm' && "mediatracknext"@[7] == 'a' && "mediatracknext"@[13] == 't',
        "mediatrackprevious"@.len() == 18 && "mediatrackprevious"@[0] == 'm' && "mediatrackprevious"@[9] == 'k' && "mediatrackprevious"@[17] == 's',
        "metaleft"@.len() == 8 && "metaleft"@[0] == 'm' && "metaleft"@[4] == 'l' && "metaleft"@[7] == 't',
        "metaright"@.len() == 9 && "metaright"@[0] == 'm' && "metaright"@[4] == 'r' && "metaright"@[8] == 't',
        "minus"@.len() == 5 && "minus"@[0] == 'm' && "minus"@[2] == 'n' && "minus"@[4] == 's',
        "nonconvert"@.len() == 10 && "nonconvert"@[0] == 'n' && "nonconvert"@[5] == 'n' && "nonconvert"@[9] == 't',
        "numlock"@.len() == 7 && "numlock"@[0] == 'n' && "numlock"@[3] == 'l' && "numlock"@[6] == 'k',
        "numpadadd"@.len() == 9 && "numpadadd"@[0] == 'n' && "numpadadd"@[4] == 'a' && "numpadadd"@[8] == 'd',
        "numpadcomma"@.len() == 11 && "numpadcomma"@[0] == 'n' && "numpadcomma"@[5] == 'd' && "numpadcomma"@[10] == 'a',
        "numpaddecimal"@.len() == 13 && "numpaddecimal"@[0] == 'n' && "numpaddecimal"@[6] == 'd' && "numpaddecimal"@[12] == 'l',
        "numpaddivide"@.len() == 12 && "numpaddivide"@[0] == 'n' && "numpaddivide"@[6] == 'd' && "numpaddivide"@[11] == 'e',
        "numpadenter"@.len() == 11 && "numpadenter"@[0] == 'n' && "numpadenter"@[5] == 'd' && "numpadenter"@[10] == 'r',
        "numpadequal"@.len() == 11 && "numpadequal"@[0] == 'n' && "numpadequal"@[5] == 'd' && "numpadequal"@[10] == 'l',
        "numpadmultiply"@.len() == 14 && "numpadmultiply"@[0] == 'n' && "numpadmultiply"@[7] == 'u' && "numpadmultiply"@[13] == 'y',
        "numpadsubtract"@.len() == 14 && "numpadsubtract"@[0] == 'n' && "numpadsubtract"@[7] == 'u' && "numpadsubtract"@[13] == 't',
        "pagedown"@.len() == 8 && "pagedown"@[0] == 'p' && "pagedown"@[4] == 'd' && "pagedown"@[7] == 'n',
        "pageup"@.len() == 6 && "pageup"@[0] == 'p' && "pageup"@[3] == 'e' && "pageup"@[5] == 'p',
        "pause"@.len() == 5 && "pause"@[0] == 'p' && "pause"@[2] == 'u' && "pause"@[4] == 'e',
        "period"@.len() == 6 && "period"@[0] == 'p' && "period"@[3] == 'i' && "period"@[5] == 'd',
        "printscreen"@.len() == 11 && "printscreen"@[0] == 'p' && "printscreen"@[5] == 's' && "printscreen"@[10] == 'n',
        "quote"@.len() == 5 && "quote"@[0] == 'q' && "quote"@[2] == 'o' && "quote"@[4] == 'e',
        "scrolllock"@.len() == 10 && "scrolllock"@[0] == 's' && "scrolllock"@[5] == 'l' && "scrolllock"@[9] == 'k',
        "semicolon"@.len() == 9 && "semicolon"@[0] == 's' && "semicolon"@[4] == 'c' && "semicolon"@[8] == 'n',
        "shift"@.len() == 5 && "shift"@[0] == 's' && "shift"@[2] == 'i' && "shift"@[4] == 't',
        "shiftleft"@.len() == 9 && "shiftleft"@[0] == 's' && "shiftleft"@[4] == 't' && "shiftleft"@[8] == 't',
        "shiftright"@.len() == 10 && "shiftright"@[0] == 's' && "shiftright"@[5] == 'r' && "shiftright"@[9] == 't',
        "slash"@.len() == 5 && "slash"@[0] == 's' && "slash"@[2] == 'a' && "slash"@[4] == 'h',
        "space"@.len() == 5 && "space"@[0] == 's' && "space"@[2] == 'a' && "space"@[4] == 'e',
        "tab"@.len() == 3 && "tab"@[0] == 't' && "tab"@[1] == 'a' && "tab"@[2] == 'b',
{
    reveal_strlit("alt");
    reveal_strlit("altleft");
    reveal_strlit("altright");
    reveal_strlit("arrowdown");
    reveal_strlit("arrowleft");
    reveal_strlit("arrowright");
    reveal_strlit("arrowup");
    reveal_strlit("audiovolumedown");
    reveal_strlit("audiovolumemute");
    reveal_strlit("audiovolumeup");
    reveal_strlit("backquote");
    reveal_strlit("backslash");
    reveal_strlit("backspace");
    reveal_strlit("bracketleft");
    reveal_strlit("bracketright");
    reveal_strlit("browserback");
    reveal_strlit("browserfavorites");
    reveal_strlit("browserforward");
    reveal_strlit("browserhome");
    reveal_strlit("browserrefresh");
    reveal_strlit("browsersearch");
    reveal_strlit("browserstop");
    reveal_strlit("capslock");
    reveal_strlit("comma");
    reveal_strlit("contextmenu");
    reveal_strlit("control");
    reveal_strlit("controlleft");
    reveal_strlit("controlright");
    reveal_strlit("convert");
    reveal_strlit("ctrl");
    reveal_strlit("delete");
    reveal_strlit("end");
    reveal_strlit("enter");
    reveal_strlit("equal");
    reveal_strlit("esc");
    reveal_strlit("escape");
    reveal_strlit("home");
    reveal_strlit("insert");
    reveal_strlit("intlbackslash");
    reveal_strlit("intlro");
    reveal_strlit("intlyen");
    reveal_strlit("kanamode");
    reveal_strlit("lang1");
    reveal_strlit("lang2");
    reveal_strlit("lang3");
    reveal_strlit("lang4");
    reveal_strlit("lang5");
    reveal_strlit("launchapp1");
    reveal_strlit("launchapp2");
    reveal_strlit("launchmail");
    reveal_strlit("launchmediaplayer");
    reveal_strlit("mediaplaypause");
    reveal_strlit("mediastop");
    reveal_strlit("mediatracknext");
    reveal_strlit("mediatrackprevious");
    reveal_strlit("metaleft");
    reveal_strlit("metaright");
    reveal_strlit("minus");
    reveal_strlit("nonconvert");
    reveal_strlit("numlock");
    reveal_strlit("numpadadd");
    reveal_strlit("numpadcomma");
    reveal_strlit("numpaddecimal");
    reveal_strlit("numpaddivide");
    reveal_strlit("numpadenter");
    reveal_strlit("numpadequal");
    reveal_strlit("numpadmultiply");
    reveal_strlit("numpadsubtract");
    reveal_strlit("pagedown");
    reveal_strlit("pageup");
    reveal_strlit("pause");
    reveal_strlit("period");
    reveal_strlit("printscreen");
    reveal_strlit("quote");
    reveal_strlit("scrolllock");
    reveal_strlit("semicolon");
    reveal_strlit("shift");
    reveal_strlit("shiftleft");
    reveal_strlit("shiftright");
    reveal_strlit("slash");
    reveal_strlit("space");
    reveal_strlit("tab");
}

// The fixed names the hook reports, one lemma each: the name compacts to
// its lower case, which `named_key` lists; the names ahead of it in that
// list differ from it in shape.
proof fn lemma_name_backspace()
    ensures
        key_spec_of("Backspace"@) == Some(key_vk(0x08)),
{
    reveal_strlit("Backspace");
    reveal_strlit("backspace");
    lemma_name_shapes();
    lemma_plain_compact("Backspace"@);
    assert(lower("Backspace"@) =~= "backspace"@);
}

proof fn lemma_name_tab()
    ensures
        key_spec_of("Tab"@) == Some(key_vk(0x09)),
{
    reveal_strlit("Tab");
    reveal_strlit("tab");
    lemma_name_shapes();
    lemma_plain_compact("Tab"@);
    assert(lower("Tab"@) =~= "tab"@);
}

proof fn lemma_name_numpadenter()
    ensures
        key_spec_of("NumpadEnter"@) == Some(key_extended(0x0D)),
{
    reveal_strlit("NumpadEnter");
    reveal_strlit("numpadenter");
    lemma_name_shapes();
    lemma_plain_compact("NumpadEnter"@);
    assert(lower("NumpadEnter"@) =~= "numpadenter"@);
}

proof fn lemma_name_enter()
    ensures
        key_spec_of("Enter"@) == Some(key_vk(0x0D)),
{
    reveal_strlit("Enter");
    reveal_strlit("enter");
    lemma_name_shapes();
    lemma_plain_compact("Enter"@);
    assert(lower("Enter"@) =~= "enter"@);
}

proof fn lemma_name_shiftright()
    ensures
        key_spec_of("ShiftRight"@) == Some(key_vk(0xA1)),
{
    reveal_strlit("ShiftRight");
    reveal_strlit("shiftright");
    lemma_name_shapes();
    lemma_plain_compact("ShiftRight"@);
    assert(lower("ShiftRight"@) =~= "shiftright"@);
}

proof fn lemma_name_shiftleft()
    ensures
        key_spec_of("ShiftLeft"@) == Some(key_vk(0xA0)),
{
    reveal_strlit("ShiftLeft");
    reveal_strlit("shiftleft");
    lemma_name_shapes();
    lemma_plain_compact("ShiftLeft"@);
    assert(lower("ShiftLeft"@) =~= "shiftleft"@);
}

proof fn lemma_name_controlright()
    ensures
        key_spec_of("ControlRight"@) == Some(key_extended(0xA3)),
{
    reveal_strlit("ControlRight");
    reveal_strlit("controlright");
    lemma_name_shapes();
    lemma_plain_compact("ControlRight"@);
    assert(lower("ControlRight"@) =~= "controlright"@);
}

proof fn lemma_name_controlleft()
    ensures
        key_spec_of("ControlLeft"@) == Some(key_vk(0xA2)),
{
    reveal_strlit("ControlLeft");
    reveal_strlit("controlleft");
    lemma_name_shapes();
    lemma_plain_compact("ControlLeft"@);
    assert(lower("ControlLeft"@) =~= "controlleft"@);
}

proof fn lemma_name_altright()
    ensures
        key_spec_of("AltRight"@) == Some(key_extended(0xA5)),
{
    reveal_strlit("AltRight");
    reveal_strlit("altright");
    lemma_name_shapes();
    lemma_plain_compact("AltRight"@);
    assert(lower("AltRight"@) =~= "altright"@);
}

proof fn lemma_name_altleft()
    ensures
        key_spec_of("AltLeft"@) == Some(key_vk(0xA4)),
{
    reveal_strlit("AltLeft");
    reveal_strlit("altleft");
    lemma_name_shapes();
    lemma_plain_compact("AltLeft"@);
    assert(lower("AltLeft"@) =~= "altleft"@);
}

proof fn lemma_name_pause()
    ensures
        key_spec_of("Pause"@) == Some(key_vk(0x13)),
{
    reveal_strlit("Pause");
    reveal_strlit("pause");
    lemma_name_shapes();
    lemma_plain_compact("Pause"@);
    assert(lower("Pause"@) =~= "pause"@);
}

proof fn lemma_name_capslock()
    ensures
        key_spec_of("CapsLock"@) == Some(key_vk(0x14)),
{
    reveal_strlit("CapsLock");
    reveal_strlit("capslock");
    lemma_name_shapes();
    lemma_plain_compact("CapsLock"@);
    assert(lower("CapsLock"@) =~= "capslock"@);
}

proof fn lemma_name_lang1()
    ensures
        key_spec_of("Lang1"@) == Some(key_vk(0x15)),
{
    reveal_strlit("Lang1");
    reveal_strlit("lang1");
    lemma_name_shapes();
    lemma_plain_compact("Lang1"@);
    assert(lower("Lang1"@) =~= "lang1"@);
}

proof fn lemma_name_lang3()
    ensures
        key_spec_of("Lang3"@) == Some(key_vk(0x17)),
{
    reveal_strlit("Lang3");
    reveal_strlit("lang3");
    lemma_name_shapes();
    lemma_plain_compact("Lang3"@);
    assert(lower("Lang3"@) =~= "lang3"@);
}

proof fn lemma_name_lang4()
    ensures
        key_spec_of("Lang4"@) == Some(key_vk(0x18)),
{
    reveal_strlit("Lang4");
    reveal_strlit("lang4");
    lemma_name_shapes();
    lemma_plain_compact("Lang4"@);
    assert(lower("Lang4"@) =~= "lang4"@);
}

proof fn lemma_name_lang2()
    ensures
        key_spec_of("Lang2"@) == Some(key_vk(0x19)),
{
    reveal_strlit("Lang2");
    reveal_strlit("lang2");
    lemma_name_shapes();
    lemma_plain_compact("Lang2"@);
    assert(lower("Lang2"@) =~= "lang2"@);
}

proof fn lemma_name_lang5()
    ensures
        key_spec_of("Lang5"@) == Some(key_vk(0x1A)),
{
    reveal_strlit("Lang5");
    reveal_strlit("lang5");
    lemma_name_shapes();
    lemma_plain_compact("Lang5"@);
    assert(lower("Lang5"@) =~= "lang5"@);
}

proof fn lemma_name_escape()
    ensures
        key_spec_of("Escape"@) == Some(key_vk(0x1B)),
{
    reveal_strlit("Escape");
    reveal_strlit("escape");
    lemma_name_shapes();
    lemma_plain_compact("Escape"@);
    assert(lower("Escape"@) =~= "escape"@);
}

proof fn lemma_name_convert()
    ensures
        key_spec_of("Convert"@) == Some(key_vk(0x1C)),
{
    reveal_strlit("Convert");
    reveal_strlit("convert");
    lemma_name_shapes();
    lemma_plain_compact("Convert"@);
    assert(lower("Convert"@) =~= "convert"@);
}

proof fn lemma_name_nonconvert()
    ensures
        key_spec_of("NonConvert"@) == Some(key_vk(0x1D)),
{
    reveal_strlit("NonConvert");
    reveal_strlit("nonconvert");
    lemma_name_shapes();
    lemma_plain_compact("NonConvert"@);
    assert(lower("NonConvert"@) =~= "nonconvert"@);
}

proof fn lemma_name_space()
    ensures
        key_spec_of("Space"@) == Some(key_vk(0x20)),
{
    reveal_strlit("Space");
    reveal_strlit("space");
    lemma_name_shapes();
    lemma_plain_compact("Space"@);
    assert(lower("Space"@) =~= "space"@);
}

proof fn lemma_name_pageup()
    ensures
        key_spec_of("PageUp"@) == Some(key_extended(0x21)),
{
    reveal_strlit("PageUp");
    reveal_strlit("pageup");
    lemma_name_shapes();
    lemma_plain_compact("PageUp"@);
    assert(lower("PageUp"@) =~= "pageup"@);
}

proof fn lemma_name_pagedown()
    ensures
        key_spec_of("PageDown"@) == Some(key_extended(0x22)),
{
    reveal_strlit("PageDown");
    reveal_strlit("pagedown");
    lemma_name_shapes();
    lemma_plain_compact("PageDown"@);
    assert(lower("PageDown"@) =~= "pagedown"@);
}

proof fn lemma_name_end()
    ensures
        key_spec_of("End"@) == Some(key_extended(0x23)),
{
    reveal_strlit("End");
    reveal_strlit("end");
    lemma_name_shapes();
    lemma_plain_compact("End"@);
    assert(lower("End"@) =~= "end"@);
}

proof fn lemma_name_home()
    ensures
        key_spec_of("Home"@) == Some(key_extended(0x24)),
{
    reveal_strlit("Home");
    reveal_strlit("home");
    lemma_name_shapes();
    lemma_plain_compact("Home"@);
    assert(lower("Home"@) =~= "home"@);
}

proof fn lemma_name_arrowleft()
    ensures
        key_spec_of("ArrowLeft"@) == Some(key_extended(0x25)),
{
    reveal_strlit("ArrowLeft");
    reveal_strlit("arrowleft");
    lemma_name_shapes();
    lemma_plain_compact("ArrowLeft"@);
    assert(lower("ArrowLeft"@) =~= "arrowleft"@);
}

proof fn lemma_name_arrowup()
    ensures
        key_spec_of("ArrowUp"@) == Some(key_extended(0x26)),
{
    reveal_strlit("ArrowUp");
    reveal_strlit("arrowup");
    lemma_name_shapes();
    lemma_plain_compact("ArrowUp"@);
    assert(lower("ArrowUp"@) =~= "arrowup"@);
}

proof fn lemma_name_arrowright()
    ensures
        key_spec_of("ArrowRight"@) == Some(key_extended(0x27)),
{
    reveal_strlit("ArrowRight");
    reveal_strlit("arrowright");
    lemma_name_shapes();
    lemma_plain_compact("ArrowRight"@);
    assert(lower("ArrowRight"@) =~= "arrowright"@);
}

proof fn lemma_name_arrowdown()
    ensures
        key_spec_of("ArrowDown"@) == Some(key_extended(0x28)),
{
    reveal_strlit("ArrowDown");
    reveal_strlit("arrowdown");
    lemma_name_shapes();
    lemma_plain_compact("ArrowDown"@);
    assert(lower("ArrowDown"@) =~= "arrowdown"@);
}

proof fn lemma_name_printscreen()
    ensures
        key_spec_of("PrintScreen"@) == Some(key_extended(0x2C)),
{
    reveal_strlit("PrintScreen");
    reveal_strlit("printscreen");
    lemma_name_shapes();
    lemma_plain_compact("PrintScreen"@);
    assert(lower("PrintScreen"@) =~= "printscreen"@);
}

proof fn lemma_name_insert()
    ensures
        key_spec_of("Insert"@) == Some(key_extended(0x2D)),
{
    reveal_strlit("Insert");
    reveal_strlit("insert");
    lemma_name_shapes();
    lemma_plain_compact("Insert"@);
    assert(lower("Insert"@) =~= "insert"@);
}

proof fn lemma_name_delete()
    ensures
        key_spec_of("Delete"@) == Some(key_extended(0x2E)),
{
    reveal_strlit("Delete");
    reveal_strlit("delete");
    lemma_name_shapes();
    lemma_plain_compact("Delete"@);
    assert(lower("Delete"@) =~= "delete"@);
}

proof fn lemma_name_metaleft()
    ensures
        key_spec_of("MetaLeft"@) == Some(key_extended(0x5B)),
{
    reveal_strlit("MetaLeft");
    reveal_strlit("metaleft");
    lemma_name_shapes();
    lemma_plain_compact("MetaLeft"@);
    assert(lower("MetaLeft"@) =~= "metaleft"@);
}

proof fn lemma_name_metaright()
    ensures
        key_spec_of("MetaRight"@) == Some(key_extended(0x5C)),
{
    reveal_strlit("MetaRight");
    reveal_strlit("metaright");
    lemma_name_shapes();
    lemma_plain_compact("MetaRight"@);
    assert(lower("MetaRight"@) =~= "metaright"@);
}

proof fn lemma_name_contextmenu()
    ensures
        key_spec_of("ContextMenu"@) == Some(key_extended(0x5D)),
{
    reveal_strlit("ContextMenu");
    reveal_strlit("contextmenu");
    lemma_name_shapes();
    lemma_plain_compact("ContextMenu"@);
    assert(lower("ContextMenu"@) =~= "contextmenu"@);
}

proof fn lemma_name_numpadmultiply()
    ensures
        key_spec_of("NumpadMultiply"@) == Some(key_vk(0x6A)),
{
    reveal_strlit("NumpadMultiply");
    reveal_strlit("numpadmultiply");
    lemma_name_shapes();
    lemma_plain_compact("NumpadMultiply"@);
    assert(lower("NumpadMultiply"@) =~= "numpadmultiply"@);
}

proof fn lemma_name_numpadadd()
    ensures
        key_spec_of("NumpadAdd"@) == Some(key_vk(0x6B)),
{
    reveal_strlit("NumpadAdd");
    reveal_strlit("numpadadd");
    lemma_name_shapes();
    lemma_plain_compact("NumpadAdd"@);
    assert(lower("NumpadAdd"@) =~= "numpadadd"@);
}

proof fn lemma_name_numpadcomma()
    ensures
        key_spec_of("NumpadComma"@) == Some(key_vk(0x6C)),
{
    reveal_strlit("NumpadComma");
    reveal_strlit("numpadcomma");
    lemma_name_shapes();
    lemma_plain_compact("NumpadComma"@);
    assert(lower("NumpadComma"@) =~= "numpadcomma"@);
}

proof fn lemma_name_numpadsubtract()
    ensures
        key_spec_of("NumpadSubtract"@) == Some(key_vk(0x6D)),
{
    reveal_strlit("NumpadSubtract");
    reveal_strlit("numpadsubtract");
    lemma_name_shapes();
    lemma_plain_compact("NumpadSubtract"@);
    assert(lower("NumpadSubtract"@) =~= "numpadsubtract"@);
}

proof fn lemma_name_numpaddecimal()
    ensures
        key_spec_of("NumpadDecimal"@) == Some(key_vk(0x6E)),
{
    reveal_strlit("NumpadDecimal");
    reveal_strlit("numpaddecimal");
    lemma_name_shapes();
    lemma_plain_compact("NumpadDecimal"@);
    assert(lower("NumpadDecimal"@) =~= "numpaddecimal"@);
}

proof fn lemma_name_numpaddivide()
    ensures
        key_spec_of("NumpadDivide"@) == Some(key_extended(0x6F)),
{
    reveal_strlit("NumpadDivide");
    reveal_strlit("numpaddivide");
    lemma_name_shapes();
    lemma_plain_compact("NumpadDivide"@);
    assert(lower("NumpadDivide"@) =~= "numpaddivide"@);
}

proof fn lemma_name_numlock()
    ensures
        key_spec_of("NumLock"@) == Some(key_extended(0x90)),
{
    reveal_strlit("NumLock");
    reveal_strlit("numlock");
    lemma_name_shapes();
    lemma_plain_compact("NumLock"@);
    assert(lower("NumLock"@) =~= "numlock"@);
    reveal_strlit("numpad");
    assert("numlock"@.subrange(0, 6)[3] != "numpad"@[3]);
    assert(!crate::keymap::is_numpad_digit_form("numlock"@));
}

proof fn lemma_name_scrolllock()
    ensures
        key_spec_of("ScrollLock"@) == Some(key_vk(0x91)),
{
    reveal_strlit("ScrollLock");
    reveal_strlit("scrolllock");
    lemma_name_shapes();
    lemma_plain_compact("ScrollLock"@);
    assert(lower("ScrollLock"@) =~= "scrolllock"@);
}

proof fn lemma_name_numpadequal()
    ensures
        key_spec_of("NumpadEqual"@) == Some(key_vk(0x92)),
{
    reveal_strlit("NumpadEqual");
    reveal_strlit("numpadequal");
    lemma_name_shapes();
    lemma_plain_compact("NumpadEqual"@);
    assert(lower("NumpadEqual"@) =~= "numpadequal"@);
}

proof fn lemma_name_browserback()
    ensures
        key_spec_of("BrowserBack"@) == Some(key_extended(0xA6)),
{
    reveal_strlit("BrowserBack");
    reveal_strlit("browserback");
    lemma_name_shapes();
    lemma_plain_compact("BrowserBack"@);
    assert(lower("BrowserBack"@) =~= "browserback"@);
}

proof fn lemma_name_browserforward()
    ensures
        key_spec_of("BrowserForward"@) == Some(key_extended(0xA7)),
{
    reveal_strlit("BrowserForward");
    reveal_strlit("browserforward");
    lemma_name_shapes();
    lemma_plain_compact("BrowserForward"@);
    assert(lower("BrowserForward"@) =~= "browserforward"@);
}

proof fn lemma_name_browserrefresh()
    ensures
        key_spec_of("BrowserRefresh"@) == Some(key_extended(0xA8)),
{
    reveal_strlit("BrowserRefresh");
    reveal_strlit("browserrefresh");
    lemma_name_shapes();
    lemma_plain_compact("BrowserRefresh"@);
    assert(lower("BrowserRefresh"@) =~= "browserrefresh"@);
}

proof fn lemma_name_browserstop()
    ensures
        key_spec_of("BrowserStop"@) == Some(key_extended(0xA9)),
{
    reveal_strlit("BrowserStop");
    reveal_strlit("browserstop");
    lemma_name_shapes();
    lemma_plain_compact("BrowserStop"@);
    assert(lower("BrowserStop"@) =~= "browserstop"@);
}

proof fn lemma_name_browsersearch()
    ensures
        key_spec_of("BrowserSearch"@) == Some(key_extended(0xAA)),
{
    reveal_strlit("BrowserSearch");
    reveal_strlit("browsersearch");
    lemma_name_shapes();
    lemma_plain_compact("BrowserSearch"@);
    assert(lower("BrowserSearch"@) =~= "browsersearch"@);
}

proof fn lemma_name_browserfavorites()
    ensures
        key_spec_of("BrowserFavorites"@) == Some(key_extended(0xAB)),
{
    reveal_strlit("BrowserFavorites");
    reveal_strlit("browserfavorites");
    lemma_name_shapes();
    lemma_plain_compact("BrowserFavorites"@);
    assert(lower("BrowserFavorites"@) =~= "browserfavorites"@);
}

proof fn lemma_name_browserhome()
    ensures
        key_spec_of("BrowserHome"@) == Some(key_extended(0xAC)),
{
    reveal_strlit("BrowserHome");
    reveal_strlit("browserhome");
    lemma_name_shapes();
    lemma_plain_compact("BrowserHome"@);
    assert(lower("BrowserHome"@) =~= "browserhome"@);
}

proof fn lemma_name_audiovolumemute()
    ensures
        key_spec_of("AudioVolumeMute"@) == Some(key_extended(0xAD)),
{
    reveal_strlit("AudioVolumeMute");
    reveal_strlit("audiovolumemute");
    lemma_name_shapes();
    lemma_plain_compact("AudioVolumeMute"@);
    assert(lower("AudioVolumeMute"@) =~= "audiovolumemute"@);
}

proof fn lemma_name_audiovolumedown()
    ensures
        key_spec_of("AudioVolumeDown"@) == Some(key_extended(0xAE)),
{
    reveal_strlit("AudioVolumeDown");
    reveal_strlit("audiovolumedown");
    lemma_name_shapes();
    lemma_plain_compact("AudioVolumeDown"@);
    assert(lower("AudioVolumeDown"@) =~= "audiovolumedown"@);
}

proof fn lemma_name_audiovolumeup()
    ensures
        key_spec_of("AudioVolumeUp"@) == Some(key_extended(0xAF)),
{
    reveal_strlit("AudioVolumeUp");
    reveal_strlit("audiovolumeup");
    lemma_name_shapes();
    lemma_plain_compact("AudioVolumeUp"@);
    assert(lower("AudioVolumeUp"@) =~= "audiovolumeup"@);
}

proof fn lemma_name_mediatracknext()
    ensures
        key_spec_of("MediaTrackNext"@) == Some(key_extended(0xB0)),
{
    reveal_strlit("MediaTrackNext");
    reveal_strlit("mediatracknext");
    lemma_name_shapes();
    lemma_plain_compact("MediaTrackNext"@);
    assert(lower("MediaTrackNext"@) =~= "mediatracknext"@);
}

proof fn lemma_name_mediatrackprevious()
    ensures
        key_spec_of("MediaTrackPrevious"@) == Some(key_extended(0xB1)),
{
    reveal_strlit("MediaTrackPrevious");
    reveal_strlit("mediatrackprevious");
    lemma_name_shapes();
    lemma_plain_compact("MediaTrackPrevious"@);
    assert(lower("MediaTrackPrevious"@) =~= "mediatrackprevious"@);
}

proof fn lemma_name_mediastop()
    ensures
        key_spec_of("MediaStop"@) == Some(key_extended(0xB2)),
{
    reveal_strlit("MediaStop");
    reveal_strlit("mediastop");
    lemma_name_shapes();
    lemma_plain_compact("MediaStop"@);
    assert(lower("MediaStop"@) =~= "mediastop"@);
}

proof fn lemma_name_mediaplaypause()
    ensures
        key_spec_of("MediaPlayPause"@) == Some(key_extended(0xB3)),
{
    reveal_strlit("MediaPlayPause");
    reveal_strlit("mediaplaypause");
    lemma_name_shapes();
    lemma_plain_compact("MediaPlayPause"@);
    assert(lower("MediaPlayPause"@) =~= "mediaplaypause"@);
}

proof fn lemma_name_launchmail()
    ensures
        key_spec_of("LaunchMail"@) == Some(key_extended(0xB4)),
{
    reveal_strlit("LaunchMail");
    reveal_strlit("launchmail");
    lemma_name_shapes();
    lemma_plain_compact("LaunchMail"@);
    assert(lower("LaunchMail"@) =~= "launchmail"@);
}

proof fn lemma_name_launchmediaplayer()
    ensures
        key_spec_of("LaunchMediaPlayer"@) == Some(key_extended(0xB5)),
{
    reveal_strlit("LaunchMediaPlayer");
    reveal_strlit("launchmediaplayer");
    lemma_name_shapes();
    lemma_plain_compact("LaunchMediaPlayer"@);
    assert(lower("LaunchMediaPlayer"@) =~= "launchmediaplayer"@);
}

proof fn lemma_name_launchapp1()
    ensures
        key_spec_of("LaunchApp1"@) == Some(key_extended(0xB6)),
{
    reveal_strlit("LaunchApp1");
    reveal_strlit("launchapp1");
    lemma_name_shapes();
    lemma_plain_compact("LaunchApp1"@);
    assert(lower("LaunchApp1"@) =~= "launchapp1"@);
}

proof fn lemma_name_launchapp2()
    ensures
        key_spec_of("LaunchApp2"@) == Some(key_extended(0xB7)),
{
    reveal_strlit("LaunchApp2");
    reveal_strlit("launchapp2");
    lemma_name_shapes();
    lemma_plain_compact("LaunchApp2"@);
    assert(lower("LaunchApp2"@) =~= "launchapp2"@);
}

proof fn lemma_name_semicolon()
    ensures
        key_spec_of("Semicolon"@) == Some(key_vk(0xBA)),
{
    reveal_strlit("Semicolon");
    reveal_strlit("semicolon");
    lemma_name_shapes();
    lemma_plain_compact("Semicolon"@);
    assert(lower("Semicolon"@) =~= "semicolon"@);
}

proof fn lemma_name_equal()
    ensures
        key_spec_of("Equal"@) == Some(key_vk(0xBB)),
{
    reveal_strlit("Equal");
    reveal_strlit("equal");
    lemma_name_shapes();
    lemma_plain_compact("Equal"@);
    assert(lower("Equal"@) =~= "equal"@);
}

proof fn lemma_name_comma()
    ensures
        key_spec_of("Comma"@) == Some(key_vk(0xBC)),
{
    reveal_strlit("Comma");
    reveal_strlit("comma");
    lemma_name_shapes();
    lemma_plain_compact("Comma"@);
    assert(lower("Comma"@) =~= "comma"@);
}

proof fn lemma_name_minus()
    ensures
        key_spec_of("Minus"@) == Some(key_vk(0xBD)),
{
    reveal_strlit("Minus");
    reveal_strlit("minus");
    lemma_name_shapes();
    lemma_plain_compact("Minus"@);
    assert(lower("Minus"@) =~= "minus"@);
}

proof fn lemma_name_period()
    ensures
        key_spec_of("Period"@) == Some(key_vk(0xBE)),
{
    reveal_strlit("Period");
    reveal_strlit("period");
    lemma_name_shapes();
    lemma_plain_compact("Period"@);
    assert(lower("Period"@) =~= "period"@);
}

proof fn lemma_name_slash()
    ensures
        key_spec_of("Slash"@) == Some(key_vk(0xBF)),
{
    reveal_strlit("Slash");
    reveal_strlit("slash");
    lemma_name_shapes();
    lemma_plain_compact("Slash"@);
    assert(lower("Slash"@) =~= "slash"@);
}

proof fn lemma_name_backquote()
    ensures
        key_spec_of("Backquote"@) == Some(key_vk(0xC0)),
{
    reveal_strlit("Backquote");
    reveal_strlit("backquote");
    lemma_name_shapes();
    lemma_plain_compact("Backquote"@);
    assert(lower("Backquote"@) =~= "backquote"@);
}

proof fn lemma_name_bracketleft()
    ensures
        key_spec_of("BracketLeft"@) == Some(key_vk(0xDB)),
{
    reveal_strlit("BracketLeft");
    reveal_strlit("bracketleft");
    lemma_name_shapes();
    lemma_plain_compact("BracketLeft"@);
    assert(lower("BracketLeft"@) =~= "bracketleft"@);
}

proof fn lemma_name_intlyen()
    ensures
        key_spec_of("IntlYen"@) == Some(key_scan(0x7D)),
{
    reveal_strlit("IntlYen");
    reveal_strlit("intlyen");
    lemma_name_shapes();
    lemma_plain_compact("IntlYen"@);
    assert(lower("IntlYen"@) =~= "intlyen"@);
    reveal_strlit("numpad");
    assert("intlyen"@.subrange(0, 6)[3] != "numpad"@[3]);
    assert(!crate::keymap::is_numpad_digit_form("intlyen"@));
}

proof fn lemma_name_backslash()
    ensures
        key_spec_of("Backslash"@) == Some(key_vk(0xDC)),
{
    reveal_strlit("Backslash");
    reveal_strlit("backslash");
    lemma_name_shapes();
    lemma_plain_compact("Backslash"@);
    assert(lower("Backslash"@) =~= "backslash"@);
}

proof fn lemma_name_bracketright()
    ensures
        key_spec_of("BracketRight"@) == Some(key_vk(0xDD)),
{
    reveal_strlit("BracketRight");
    reveal_strlit("bracketright");
    lemma_name_shapes();
    lemma_plain_compact("BracketRight"@);
    assert(lower("BracketRight"@) =~= "bracketright"@);
}

proof fn lemma_name_quote()
    ensures
        key_spec_of("Quote"@) == Some(key_vk(0xDE)),
{
    reveal_strlit("Quote");
    reveal_strlit("quote");
    lemma_name_shapes();
    lemma_plain_compact("Quote"@);
    assert(lower("Quote"@) =~= "quote"@);
}

proof fn lemma_name_intlro()
    ensures
        key_spec_of("IntlRo"@) == Some(key_scan(0x73)),
{
    reveal_strlit("IntlRo");
    reveal_strlit("intlro");
    lemma_name_shapes();
    lemma_plain_compact("IntlRo"@);
    assert(lower("IntlRo"@) =~= "intlro"@);
}

proof fn lemma_name_intlbackslash()
    ensures
        key_spec_of("IntlBackslash"@) == Some(key_scan(0x56)),
{
    reveal_strlit("IntlBackslash");
    reveal_strlit("intlbackslash");
    lemma_name_shapes();
    lemma_plain_compact("IntlBackslash"@);
    assert(lower("IntlBackslash"@) =~= "intlbackslash"@);
}

/// A compact name of `numpad` and one digit reaches the numpad branch.
proof fn lemma_named_numpad(k: Seq<char>)
    requires
        crate::keymap::is_numpad_digit_form(k),
    ensures
        named_key(k) == crate::keymap::numpad_digit_key(k),
{
    reveal_strlit("numpad");
    assert(k[0] == 'n') by {
        assert(k.subrange(0, 6)[0] == "numpad"@[0]);
    }
    lemma_name_shapes();
}

/// A compact name that starts with `f` reaches the function-key branch.
#[verifier::rlimit(40)]
proof fn lemma_named_function(k: Seq<char>)
    requires
        2 <= k.len() <= 3,
        k[0] == 'f',
    ensures
        named_key(k) == crate::keymap::function_key(k),
{
    lemma_name_shapes();
}

/// A compact name of `vk_` and two more characters reaches the raw-code
/// branch.
#[verifier::rlimit(60)]
proof fn lemma_named_raw(k: Seq<char>)
    requires
        k.len() == 5,
        k[0] == 'v',
        k[1] == 'k',
        k[2] == '_',
    ensures
        named_key(k) == crate::keymap::raw_vk_key(k),
{
    reveal_strlit("vk_");
    assert(k.subrange(0, 3) =~= "vk_"@);
    lemma_name_shapes();
}

/// One upper-case hexadecimal digit: a name character whose lower case is
/// read back as the digit; a decimal digit reads back in base ten too.
proof fn lemma_hex_digit(d: nat)
    requires
        d < 16,
    ensures
        name_char(hex_char(d, true)),
        digit_value(ascii_lower(hex_char(d, true)), 16) == Some(d),
        d < 10 ==> '0' <= hex_char(d, true) <= '9',
        d < 10 ==> ascii_lower(hex_char(d, true)) == hex_char(d, true),
        d < 10 ==> digit_value(hex_char(d, true), 10) == Some(d),
{
}

/// The decimal digits of `n` are digits, and they read back as `n`.
proof fn lemma_decimal_value(n: nat)
    ensures
        1 <= decimal(n).len(),
        n < 10 ==> decimal(n).len() == 1,
        10 <= n < 100 ==> decimal(n).len() == 2,
        forall|i: int| 0 <= i < decimal(n).len() ==> '0' <= #[trigger] decimal(n)[i] <= '9',
        digits_value(decimal(n), 10) == Some(n),
    decreases n,
{
    lemma_hex_digit(n % 10);
    let d = decimal(n);
    assert(d.last() == hex_char(n % 10, true));
    if n < 10 {
        assert(d.drop_last() =~= Seq::<char>::empty());
        assert(digits_value(d.drop_last(), 10) == Some(0nat));
    } else {
        lemma_decimal_value(n / 10);
        assert(d.drop_last() =~= decimal(n / 10));
        assert((n / 10) * 10 + n % 10 == n);
    }
}

/// A code up to `FF` as two upper-case hexadecimal digits: name characters
/// that read back as the code once lower-cased.
proof fn lemma_hex2_value(vk: nat)
    requires
        vk <= 0xFF,
    ensures
        hex_padded(vk, 2, true).len() == 2,
        name_char(hex_padded(vk, 2, true)[0]),
        name_char(hex_padded(vk, 2, true)[1]),
        parse_u16(lower(hex_padded(vk, 2, true)), 16) == Some(vk as u16),
{
    let h = hex_padded(vk, 2, true);
    let (hi, lo) = (vk / 16, vk % 16);
    lemma_hex_digit(hi);
    lemma_hex_digit(lo);
    if vk < 16 {
        assert(hex_digits(vk, true) =~= seq![hex_char(vk, true)]);
        assert(h =~= seq![hex_char(0, true), hex_char(lo, true)]);
    } else {
        assert(hex_digits(hi, true) =~= seq![hex_char(hi, true)]);
        assert(h =~= seq![hex_char(hi, true), hex_char(lo, true)]);
    }
    let l = lower(h);
    assert(l.drop_last() =~= seq![l[0]]);
    assert(seq![l[0]].drop_last() =~= Seq::<char>::empty());
    assert(digits_value(Seq::<char>::empty(), 16) == Some(0nat));
    assert(digits_value(seq![l[0]], 16) == Some(hi));
    assert(digits_value(l, 16) == Some(hi * 16 + lo));
    assert(hi * 16 + lo == vk);
}

proof fn lemma_name_single(vk: u32)
    requires
        (0x30 <= vk <= 0x39) || (0x41 <= vk <= 0x5A),
    ensures
        key_spec_of(seq![vk as char]) == Some(key_vk(vk as u16)),
{
    let s = seq![vk as char];
    lemma_plain_compact(s);
    assert(lower(s) =~= seq![ascii_lower(vk as char)]);
}

proof fn lemma_name_numpad(n: nat)
    requires
        n <= 9,
    ensures
        key_spec_of("Numpad"@ + decimal(n)) == Some(key_vk((0x60 + n) as u16)),
{
    reveal_strlit("Numpad");
    reveal_strlit("numpad");
    lemma_hex_digit(n);
    let c = hex_char(n, true);
    let s = "Numpad"@ + decimal(n);
    assert(decimal(n) =~= seq![c]);
    assert(s =~= "Numpad"@.push(c));
    lemma_plain_compact(s);
    let k = lower(s);
    assert(k =~= "numpad"@.push(c));
    assert(k.subrange(0, 6) =~= "numpad"@);
    lemma_named_numpad(k);
    assert(k.subrange(6, 7) =~= seq![c]);
    assert(seq![c].drop_last() =~= Seq::<char>::empty());
    assert(digits_value(Seq::<char>::empty(), 10) == Some(0nat));
    assert(digits_value(seq![c], 10) == Some(n));
    assert(parse_u16(seq![c], 10) == Some(n as u16));
}

proof fn lemma_name_function(n: nat)
    requires
        1 <= n <= 24,
    ensures
        key_spec_of("F"@ + decimal(n)) == Some(key_vk((0x6F + n) as u16)),
{
    reveal_strlit("F");
    lemma_decimal_value(n);
    let d = decimal(n);
    let s = "F"@ + d;
    assert forall|i: int| 0 <= i < s.len() implies name_char(#[trigger] s[i]) by {
        if i > 0 {
            assert(s[i] == d[i - 1]);
        }
    }
    lemma_plain_compact(s);
    let k = lower(s);
    assert(k =~= seq!['f'] + d);
    lemma_named_function(k);
    assert(k.subrange(1, k.len() as int) =~= d);
}

proof fn lemma_name_raw(vk: nat)
    requires
        vk <= 0xFF,
    ensures
        key_spec_of("VK_"@ + hex_padded(vk, 2, true)) == Some(key_vk(vk as u16)),
{
    reveal_strlit("VK_");
    lemma_hex2_value(vk);
    let h = hex_padded(vk, 2, true);
    let s = "VK_"@ + h;
    assert forall|i: int| 0 <= i < s.len() implies name_char(#[trigger] s[i]) by {
        if i >= 3 {
            assert(s[i] == h[i - 3]);
        }
    }
    lemma_plain_compact(s);
    let k = lower(s);
    assert(k =~= seq!['v', 'k', '_'] + lower(h));
    lemma_named_raw(k);
    assert(k.subrange(3, 5) =~= lower(h));
}

/// Every name that `key_name_of` gives a code up to `FF` is one that
/// `key_spec_of` reads.
#[verifier::rlimit(40)]
pub(crate) proof fn lemma_reported_names_are_keys(vk: u32, scan_code: u32, flags: u32)
    requires
        vk <= 0xFF,
    ensures
        key_spec_of(key_name_of(vk, scan_code, flags)) is Some,
        !(vk == 0x10 || vk == 0x11 || vk == 0x12 || vk == 0xE2 || (vk == 0xDC && scan_code == 0x7D))
            ==> key_spec_of(key_name_of(vk, scan_code, flags))->0.vk == vk
            && key_spec_of(key_name_of(vk, scan_code, flags))->0.scan == 0,
        vk == 0x10 ==> key_spec_of(key_name_of(vk, scan_code, flags))->0.vk == if scan_code == 0x36 {
            0xA1u16
        } else {
            0xA0u16
        },
        vk == 0x11 ==> key_spec_of(key_name_of(vk, scan_code, flags))->0.vk == if flags & 1 != 0 {
            0xA3u16
        } else {
            0xA2u16
        },
        vk == 0x12 ==> key_spec_of(key_name_of(vk, scan_code, flags))->0.vk == if flags & 1 != 0 {
            0xA5u16
        } else {
            0xA4u16
        },
        (vk == 0xE2 || (vk == 0xDC && scan_code == 0x7D)) ==> key_spec_of(
            key_name_of(vk, scan_code, flags),
        )->0.vk == 0 && key_spec_of(key_name_of(vk, scan_code, flags))->0.scan == if scan_code
            == 0x73 || scan_code == 0x7D {
            scan_code as u16
        } else {
            0x56u16
        },
{
    let extended = flags & LLKHF_EXTENDED_FLAG != 0;
    if vk == 0x08 {
        lemma_name_backspace();
    } else if vk == 0x09 {
        lemma_name_tab();
    } else if vk == 0x0D && extended {
        lemma_name_numpadenter();
    } else if vk == 0x0D {
        lemma_name_enter();
    } else if vk == 0x10 && scan_code == 0x36 {
        lemma_name_shiftright();
    } else if vk == 0x10 {
        lemma_name_shiftleft();
    } else if vk == 0x11 && extended {
        lemma_name_controlright();
    } else if vk == 0x11 {
        lemma_name_controlleft();
    } else if vk == 0x12 && extended {
        lemma_name_altright();
    } else if vk == 0x12 {
        lemma_name_altleft();
    } else if vk == 0x13 {
        lemma_name_pause();
    } else if vk == 0x14 {
        lemma_name_capslock();
    } else if vk == 0x15 {
        lemma_name_lang1();
    } else if vk == 0x17 {
        lemma_name_lang3();
    } else if vk == 0x18 {
        lemma_name_lang4();
    } else if vk == 0x19 {
        lemma_name_lang2();
    } else if vk == 0x1A {
        lemma_name_lang5();
    } else if vk == 0x1B {
        lemma_name_escape();
    } else if vk == 0x1C {
        lemma_name_convert();
    } else if vk == 0x1D {
        lemma_name_nonconvert();
    } else if vk == 0x20 {
        lemma_name_space();
    } else if vk == 0x21 {
        lemma_name_pageup();
    } else if vk == 0x22 {
        lemma_name_pagedown();
    } else if vk == 0x23 {
        lemma_name_end();
    } else if vk == 0x24 {
        lemma_name_home();
    } else if vk == 0x25 {
        lemma_name_arrowleft();
    } else if vk == 0x26 {
        lemma_name_arrowup();
    } else if vk == 0x27 {
        lemma_name_arrowright();
    } else if vk == 0x28 {
        lemma_name_arrowdown();
    } else if vk == 0x2C {
        lemma_name_printscreen();
    } else if vk == 0x2D {
        lemma_name_insert();
    } else if vk == 0x2E {
        lemma_name_delete();
    } else if (0x30 <= vk <= 0x39) || (0x41 <= vk <= 0x5A) {
        lemma_name_single(vk);
    } else if vk == 0x5B {
        lemma_name_metaleft();
    } else if vk == 0x5C {
        lemma_name_metaright();
    } else if vk == 0x5D {
        lemma_name_contextmenu();
    } else if 0x60 <= vk <= 0x69 {
        lemma_name_numpad((vk - 0x60) as nat);
    } else if vk == 0x6A {
        lemma_name_numpadmultiply();
    } else if vk == 0x6B {
        lemma_name_numpadadd();
    } else if vk == 0x6C {
        lemma_name_numpadcomma();
    } else if vk == 0x6D {
        lemma_name_numpadsubtract();
    } else if vk == 0x6E {
        lemma_name_numpaddecimal();
    } else if vk == 0x6F {
        lemma_name_numpaddivide();
    } else if 0x70 <= vk <= 0x87 {
        lemma_name_function((vk - 0x6F) as nat);
    } else if vk == 0x90 {
        lemma_name_numlock();
    } else if vk == 0x91 {
        lemma_name_scrolllock();
    } else if vk == 0x92 {
        lemma_name_numpadequal();
    } else if vk == 0xA0 {
        lemma_name_shiftleft();
    } else if vk == 0xA1 {
        lemma_name_shiftright();
    } else if vk == 0xA2 {
        lemma_name_controlleft();
    } else if vk == 0xA3 {
        lemma_name_controlright();
    } else if vk == 0xA4 {
        lemma_name_altleft();
    } else if vk == 0xA5 {
        lemma_name_altright();
    } else if vk == 0xA6 {
        lemma_name_browserback();
    } else if vk == 0xA7 {
        lemma_name_browserforward();
    } else if vk == 0xA8 {
        lemma_name_browserrefresh();
    } else if vk == 0xA9 {
        lemma_name_browserstop();
    } else if vk == 0xAA {
        lemma_name_browsersearch();
    } else if vk == 0xAB {
        lemma_name_browserfavorites();
    } else if vk == 0xAC {
        lemma_name_browserhome();
    } else if vk == 0xAD {
        lemma_name_audiovolumemute();
    } else if vk == 0xAE {
        lemma_name_audiovolumedown();
    } else if vk == 0xAF {
        lemma_name_audiovolumeup();
    } else if vk == 0xB0 {
        lemma_name_mediatracknext();
    } else if vk == 0xB1 {
        lemma_name_mediatrackprevious();
    } else if vk == 0xB2 {
        lemma_name_mediastop();
    } else if vk == 0xB3 {
        lemma_name_mediaplaypause();
    } else if vk == 0xB4 {
        lemma_name_launchmail();
    } else if vk == 0xB5 {
        lemma_name_launchmediaplayer();
    } else if vk == 0xB6 {
        lemma_name_launchapp1();
    } else if vk == 0xB7 {
        lemma_name_launchapp2();
    } else if vk == 0xBA {
        lemma_name_semicolon();
    } else if vk == 0xBB {
        lemma_name_equal();
    } else if vk == 0xBC {
        lemma_name_comma();
    } else if vk == 0xBD {
        lemma_name_minus();
    } else if vk == 0xBE {
        lemma_name_period();
    } else if vk == 0xBF {
        lemma_name_slash();
    } else if vk == 0xC0 {
        lemma_name_backquote();
    } else if vk == 0xDB {
        lemma_name_bracketleft();
    } else if vk == 0xDC && scan_code == 0x7D {
        lemma_name_intlyen();
    } else if vk == 0xDC {
        lemma_name_backslash();
    } else if vk == 0xDD {
        lemma_name_bracketright();
    } else if vk == 0xDE {
        lemma_name_quote();
    } else if vk == 0xE2 && scan_code == 0x73 {
        lemma_name_intlro();
    } else if vk == 0xE2 && scan_code == 0x7D {
        lemma_name_intlyen();
    } else if vk == 0xE2 {
        lemma_name_intlbackslash();
    } else {
        lemma_name_raw(vk as nat);
    }
}

/// The names the mouse hook gives the buttons are already in normal form.
pub(crate) proof fn lemma_mouse_names_normal(k: Seq<char>)
    requires
        k == "mouseleft"@ || k == "mouseright"@ || k == "mousemiddle"@ || k == "mousex1"@ || k
            == "mousex2"@,
    ensures
        crate::keys::normalize_key(k) == k,
{
    reveal_strlit("esc");
    reveal_strlit("ctrl");
    reveal_strlit("mousex1");
    reveal_strlit("mousex2");
    reveal_strlit("mouseleft");
    reveal_strlit("mouseright");
    reveal_strlit("mousemiddle");
    lemma_plain_compact(k);
    assert(lower(k) =~= k);
}

} // verus!
