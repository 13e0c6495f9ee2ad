//! The window guard used while the shortcut dialog listens for a chord:
//! which window messages it records into the capture queue, which it
//! swallows, and when it ends the capture, as a function from the guard's
//! state and a message to the next state and what to do with the message.
use vstd::prelude::*;

verus! {

/// `WM_ACTIVATEAPP`.
pub const WM_ACTIVATEAPP: u32 = 0x001C;

/// `WM_CONTEXTMENU`.
pub const WM_CONTEXTMENU: u32 = 0x007B;

/// `WM_SYSKEYDOWN`.
pub const WM_SYSKEYDOWN: u32 = 0x0104;

/// `WM_SYSKEYUP`.
pub const WM_SYSKEYUP: u32 = 0x0105;

/// `WM_SYSCHAR`.
pub const WM_SYSCHAR: u32 = 0x0106;

/// `WM_SYSDEADCHAR`.
pub const WM_SYSDEADCHAR: u32 = 0x0107;

/// `WM_SYSCOMMAND`.
pub const WM_SYSCOMMAND: u32 = 0x0112;

/// `WM_MENUCHAR`.
pub const WM_MENUCHAR: u32 = 0x0120;

/// `SC_KEYMENU`: the system command that opens the window menu.
pub const SC_KEYMENU: u32 = 0xF100;

/// `VK_LMENU`, the left Alt key.
pub const VK_LMENU: u32 = 0xA4;

/// `VK_RMENU`, the right Alt key.
pub const VK_RMENU: u32 = 0xA5;

/// The scan code of both Alt keys.
pub const ALT_SCAN_CODE: u32 = 0x38;

/// The virtual-key code and scan code of the space bar.
pub const SPACE_VK: u32 = 0x20;

pub const SPACE_SCAN_CODE: u32 = 0x39;

#[derive(PartialEq, Eq, Structural, Clone, Copy, Debug)]
pub enum AltSide {
    Left,
    Right,
}

/// Bit 24 of a key message's `lParam`: the key is an extended key.
pub open spec fn message_extended(lparam: isize) -> bool {
    lparam as usize & 0x0100_0000usize != 0
}

/// Bits 16 to 23 of a key message's `lParam`: the scan code.
pub open spec fn message_scan_code(lparam: isize) -> u32 {
    ((lparam as usize >> 16usize) & 0xFFusize) as u32
}

/// The Alt key that a system key message is about, if any.
pub open spec fn alt_side_of(message: u32, wparam: usize, lparam: isize) -> Option<AltSide> {
    if message != WM_SYSKEYDOWN && message != WM_SYSKEYUP {
        None
    } else {
        let vk = wparam as u32;
        if vk == VK_LMENU {
            Some(AltSide::Left)
        } else if vk == VK_RMENU {
            Some(AltSide::Right)
        } else if vk == 0x12 {
            Some(
                if message_extended(lparam) {
                    AltSide::Right
                } else {
                    AltSide::Left
                },
            )
        } else {
            None
        }
    }
}

/// The remembered Alt key, stored as `0` (none), `1` (left) or `2` (right).
pub open spec fn alt_side_from_code(value: u8) -> Option<AltSide> {
    if value == 1 {
        Some(AltSide::Left)
    } else if value == 2 {
        Some(AltSide::Right)
    } else {
        None
    }
}

pub open spec fn alt_side_code(side: AltSide) -> u8 {
    match side {
        AltSide::Left => 1,
        AltSide::Right => 2,
    }
}

impl AltSide {
    pub fn from_message(message: u32, wparam: usize, lparam: isize) -> (r: Option<AltSide>)
        ensures
            r == alt_side_of(message, wparam, lparam),
    {
        if message != WM_SYSKEYDOWN && message != WM_SYSKEYUP {
            return None;
        }
        let vk = wparam as u32;
        if vk == VK_LMENU {
            Some(AltSide::Left)
        } else if vk == VK_RMENU {
            Some(AltSide::Right)
        } else if vk == 0x12 {
            Some(
                if lparam as usize & 0x0100_0000usize != 0 {
                    AltSide::Right
                } else {
                    AltSide::Left
                },
            )
        } else {
            None
        }
    }

    pub fn from_cached(value: u8) -> (r: Option<AltSide>)
        ensures
            r == alt_side_from_code(value),
    {
        if value == 1 {
            Some(AltSide::Left)
        } else if value == 2 {
            Some(AltSide::Right)
        } else {
            None
        }
    }

    pub fn code(&self) -> (r: u8)
        ensures
            r == alt_side_code(*self),
    {
        match self {
            AltSide::Left => 1,
            AltSide::Right => 2,
        }
    }
}

/// With no remembered Alt key, the one held down now: right only when the
/// right key is down and the left one is not.
pub open spec fn held_alt_side(right_down: bool, left_down: bool) -> AltSide {
    if right_down && !left_down {
        AltSide::Right
    } else {
        AltSide::Left
    }
}

pub fn alt_side_from_key_state(right_down: bool, left_down: bool) -> (r: AltSide)
    ensures
        r == held_alt_side(right_down, left_down),
{
    if right_down && !left_down {
        AltSide::Right
    } else {
        AltSide::Left
    }
}

/// A system key transition, recorded while a capture is active.
pub open spec fn captures_system_key(capture_active: bool, message: u32) -> bool {
    capture_active && (message == WM_SYSKEYDOWN || message == WM_SYSKEYUP)
}

pub fn should_capture_system_key(capture_active: bool, message: u32) -> (r: bool)
    ensures
        r == captures_system_key(capture_active, message),
{
    capture_active && (message == WM_SYSKEYDOWN || message == WM_SYSKEYUP)
}

/// The application itself lost activation (`WM_ACTIVATEAPP` with `FALSE`).
pub open spec fn ends_capture(message: u32, wparam: usize) -> bool {
    message == WM_ACTIVATEAPP && wparam == 0
}

pub fn should_end_capture_for_app_deactivation(message: u32, wparam: usize) -> (r: bool)
    ensures
        r == ends_capture(message, wparam),
{
    message == WM_ACTIVATEAPP && wparam == 0
}

/// Late menu messages, swallowed while a capture is active.
pub open spec fn swallows(capture_active: bool, message: u32) -> bool {
    capture_active && (message == WM_SYSCOMMAND || message == WM_SYSCHAR || message
        == WM_SYSDEADCHAR || message == WM_MENUCHAR || message == WM_CONTEXTMENU)
}

pub fn should_swallow_message(capture_active: bool, message: u32) -> (r: bool)
    ensures
        r == swallows(capture_active, message),
{
    capture_active && (message == WM_SYSCOMMAND || message == WM_SYSCHAR || message
        == WM_SYSDEADCHAR || message == WM_MENUCHAR || message == WM_CONTEXTMENU)
}

/// `Alt+Space` already translated by Windows into the window-menu command.
pub open spec fn alt_space_command(
    capture_active: bool,
    message: u32,
    wparam: usize,
    lparam: isize,
) -> bool {
    capture_active && message == WM_SYSCOMMAND && (wparam as u32 & 0xFFF0u32) == SC_KEYMENU && (
    lparam as u32 & 0xFFFFu32) == 0x20
}

pub fn is_alt_space_system_command(
    capture_active: bool,
    message: u32,
    wparam: usize,
    lparam: isize,
) -> (r: bool)
    ensures
        r == alt_space_command(capture_active, message, wparam, lparam),
{
    capture_active && message == WM_SYSCOMMAND && (wparam as u32 & 0xFFF0u32) == SC_KEYMENU && (
    lparam as u32 & 0xFFFFu32) == 0x20
}

/// The guard's state: whether a capture is active, and the Alt key last
/// seen in a system key message (`0`: none).
#[derive(PartialEq, Eq, Structural, Clone, Copy, Debug)]
pub struct GuardState {
    pub capture_active: bool,
    pub last_alt_side: u8,
}

impl GuardState {
    pub fn new() -> (r: GuardState)
        ensures
            !r.capture_active,
            r.last_alt_side == 0,
    {
        GuardState { capture_active: false, last_alt_side: 0 }
    }
}

/// The guard turned on or off; turning it off forgets the Alt key.
pub open spec fn activated(state: GuardState, active: bool) -> GuardState {
    GuardState {
        capture_active: active,
        last_alt_side: if active {
            state.last_alt_side
        } else {
            0
        },
    }
}

/// Turns the guard on or off; turning it off forgets the Alt key.
pub fn set_active(state: &mut GuardState, active: bool)
    ensures
        *final(state) == activated(*old(state), active),
{
    state.capture_active = active;
    if !active {
        state.last_alt_side = 0;
    }
}

/// What the window procedure does with a message.
#[derive(PartialEq, Eq, Structural, Clone, Copy, Debug)]
pub enum GuardAction {
    /// End the capture in the hook service, then let Windows handle the
    /// message.
    EndCapture,
    /// Record the Alt key (the given one, or the one held now if none is
    /// given) and the space bar, down and up, then swallow the message.
    RecordAltSpace { side: Option<AltSide> },
    /// Record the system key transition, then swallow the message.
    RecordSystemKey { virtual_key: u32, scan_code: u32, extended: bool, key_down: bool },
    /// Swallow the message.
    Swallow,
    /// Let Windows handle the message.
    Default,
}

/// The next guard state and the action for one window message.
pub open spec fn guard_step(state: GuardState, message: u32, wparam: usize, lparam: isize) -> (
    GuardState,
    GuardAction,
) {
    if ends_capture(message, wparam) {
        (GuardState { capture_active: false, last_alt_side: 0 }, GuardAction::EndCapture)
    } else {
        let remembered = match alt_side_of(message, wparam, lparam) {
            Some(side) => alt_side_code(side),
            None => state.last_alt_side,
        };
        let active = state.capture_active;
        if alt_space_command(active, message, wparam, lparam) {
            (
                GuardState { capture_active: active, last_alt_side: 0 },
                GuardAction::RecordAltSpace { side: alt_side_from_code(remembered) },
            )
        } else if captures_system_key(active, message) {
            (
                GuardState { capture_active: active, last_alt_side: remembered },
                GuardAction::RecordSystemKey {
                    virtual_key: wparam as u32,
                    scan_code: message_scan_code(lparam),
                    extended: message_extended(lparam),
                    key_down: message == WM_SYSKEYDOWN,
                },
            )
        } else if swallows(active, message) {
            (GuardState { capture_active: active, last_alt_side: remembered }, GuardAction::Swallow)
        } else {
            (GuardState { capture_active: active, last_alt_side: remembered }, GuardAction::Default)
        }
    }
}

pub fn guard_message(state: &mut GuardState, message: u32, wparam: usize, lparam: isize) -> (r:
    GuardAction)
    ensures
        (*final(state), r) == guard_step(*old(state), message, wparam, lparam),
{
    if should_end_capture_for_app_deactivation(message, wparam) {
        state.capture_active = false;
        state.last_alt_side = 0;
        return GuardAction::EndCapture;
    }
    match AltSide::from_message(message, wparam, lparam) {
        Some(side) => {
            state.last_alt_side = side.code();
        },
        None => {},
    }
    let active = state.capture_active;
    if is_alt_space_system_command(active, message, wparam, lparam) {
        let side = AltSide::from_cached(state.last_alt_side);
        state.last_alt_side = 0;
        return GuardAction::RecordAltSpace { side };
    }
    if should_capture_system_key(active, message) {
        let bits = lparam as usize;
        return GuardAction::RecordSystemKey {
            virtual_key: wparam as u32,
            scan_code: ((bits >> 16usize) & 0xFFusize) as u32,
            extended: bits & 0x0100_0000usize != 0,
            key_down: message == WM_SYSKEYDOWN,
        };
    }
    if should_swallow_message(active, message) {
        return GuardAction::Swallow;
    }
    GuardAction::Default
}

/// The four system key records that stand for `Alt+Space`: Alt down, space
/// down, space up, Alt up, as (virtual key, scan code, extended, key down).
pub open spec fn alt_space_records(side: AltSide) -> Seq<(u32, u32, bool, bool)> {
    let (vk, extended) = match side {
        AltSide::Right => (VK_RMENU, true),
        AltSide::Left => (VK_LMENU, false),
    };
    seq![
        (vk, ALT_SCAN_CODE, extended, true),
        (SPACE_VK, SPACE_SCAN_CODE, false, true),
        (SPACE_VK, SPACE_SCAN_CODE, false, false),
        (vk, ALT_SCAN_CODE, extended, false),
    ]
}

pub fn alt_space_fallback(side: AltSide) -> (r: Vec<(u32, u32, bool, bool)>)
    ensures
        r@ == alt_space_records(side),
{
    let (vk, extended) = match side {
        AltSide::Right => (VK_RMENU, true),
        AltSide::Left => (VK_LMENU, false),
    };
    let r = vec![
        (vk, ALT_SCAN_CODE, extended, true),
        (SPACE_VK, SPACE_SCAN_CODE, false, true),
        (SPACE_VK, SPACE_SCAN_CODE, false, false),
        (vk, ALT_SCAN_CODE, extended, false),
    ];
    assert(r@ =~= alt_space_records(side));
    r
}

} // verus!
