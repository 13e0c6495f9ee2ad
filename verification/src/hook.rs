//! The low-level input hook's decisions: where an event came from, which
//! key and phase a hook message stands for, and, once the engine has
//! decided and its output has been injected, whether the original event is
//! swallowed.
use vstd::prelude::*;
use crate::engine::{Dispatch, DispatchActionPhase, DispatchView, EventOrigin, KeyPhase};

verus! {

/// `LLKHF_INJECTED`: a keyboard event was injected.
pub const LLKHF_INJECTED_FLAG: u32 = 0x10;

/// `LLMHF_INJECTED`: a mouse event was injected.
pub const LLMHF_INJECTED_FLAG: u32 = 0x01;

/// The extra-information word this application puts on the input it
/// injects, so that the hook can recognize it.
pub const INPUT_MARKER: usize = 0x4B46_0001;

pub const WM_KEYDOWN: u32 = 0x0100;

pub const WM_KEYUP: u32 = 0x0101;

pub const WM_SYSKEYDOWN: u32 = 0x0104;

pub const WM_SYSKEYUP: u32 = 0x0105;

pub const WM_LBUTTONDOWN: u32 = 0x0201;

pub const WM_LBUTTONUP: u32 = 0x0202;

pub const WM_RBUTTONDOWN: u32 = 0x0204;

pub const WM_RBUTTONUP: u32 = 0x0205;

pub const WM_MBUTTONDOWN: u32 = 0x0207;

pub const WM_MBUTTONUP: u32 = 0x0208;

pub const WM_XBUTTONDOWN: u32 = 0x020B;

pub const WM_XBUTTONUP: u32 = 0x020C;

/// Injected events are ours when they carry our marker.
pub open spec fn origin_of(flags: u32, injected_flag: u32, extra_info: usize) -> EventOrigin {
    if flags & injected_flag != 0 {
        if extra_info == INPUT_MARKER {
            EventOrigin::InjectedSelf
        } else {
            EventOrigin::InjectedOther
        }
    } else {
        EventOrigin::Physical
    }
}

pub fn event_origin(flags: u32, injected_flag: u32, extra_info: usize) -> (r: EventOrigin)
    ensures
        r == origin_of(flags, injected_flag, extra_info),
{
    if flags & injected_flag != 0 {
        if extra_info == INPUT_MARKER {
            EventOrigin::InjectedSelf
        } else {
            EventOrigin::InjectedOther
        }
    } else {
        EventOrigin::Physical
    }
}

/// The phase of a keyboard hook message; other messages pass.
pub open spec fn keyboard_phase_of(message: u32) -> Option<KeyPhase> {
    if message == WM_KEYDOWN || message == WM_SYSKEYDOWN {
        Some(KeyPhase::Down)
    } else if message == WM_KEYUP || message == WM_SYSKEYUP {
        Some(KeyPhase::Up)
    } else {
        None
    }
}

pub fn keyboard_message_phase(message: u32) -> (r: Option<KeyPhase>)
    ensures
        r == keyboard_phase_of(message),
{
    if message == WM_KEYDOWN || message == WM_SYSKEYDOWN {
        Some(KeyPhase::Down)
    } else if message == WM_KEYUP || message == WM_SYSKEYUP {
        Some(KeyPhase::Up)
    } else {
        None
    }
}

/// The side button of an X-button message: the high word of `mouseData`,
/// `1` for the first one.
pub open spec fn x_button_key(mouse_data: u32) -> Seq<char> {
    if (mouse_data >> 16u32) as u16 == 1 {
        "mousex1"@
    } else {
        "mousex2"@
    }
}

/// The key and phase of a mouse hook message; other messages pass.
pub open spec fn mouse_key_of(message: u32, mouse_data: u32) -> Option<(Seq<char>, KeyPhase)> {
    if message == WM_LBUTTONDOWN {
        Some(("mouseleft"@, KeyPhase::Down))
    } else if message == WM_LBUTTONUP {
        Some(("mouseleft"@, KeyPhase::Up))
    } else if message == WM_RBUTTONDOWN {
        Some(("mouseright"@, KeyPhase::Down))
    } else if message == WM_RBUTTONUP {
        Some(("mouseright"@, KeyPhase::Up))
    } else if message == WM_MBUTTONDOWN {
        Some(("mousemiddle"@, KeyPhase::Down))
    } else if message == WM_MBUTTONUP {
        Some(("mousemiddle"@, KeyPhase::Up))
    } else if message == WM_XBUTTONDOWN {
        Some((x_button_key(mouse_data), KeyPhase::Down))
    } else if message == WM_XBUTTONUP {
        Some((x_button_key(mouse_data), KeyPhase::Up))
    } else {
        None
    }
}

fn x_button_key_exec(mouse_data: u32) -> (r: &'static str)
    ensures
        r@ == x_button_key(mouse_data),
{
    if (mouse_data >> 16u32) as u16 == 1 {
        "mousex1"
    } else {
        "mousex2"
    }
}

pub fn mouse_message_key(message: u32, mouse_data: u32) -> (r: Option<(&'static str, KeyPhase)>)
    ensures
        match r {
            Some((k, p)) => mouse_key_of(message, mouse_data) == Some((k@, p)),
            None => mouse_key_of(message, mouse_data) is None,
        },
{
    if message == WM_LBUTTONDOWN {
        Some(("mouseleft", KeyPhase::Down))
    } else if message == WM_LBUTTONUP {
        Some(("mouseleft", KeyPhase::Up))
    } else if message == WM_RBUTTONDOWN {
        Some(("mouseright", KeyPhase::Down))
    } else if message == WM_RBUTTONUP {
        Some(("mouseright", KeyPhase::Up))
    } else if message == WM_MBUTTONDOWN {
        Some(("mousemiddle", KeyPhase::Down))
    } else if message == WM_MBUTTONUP {
        Some(("mousemiddle", KeyPhase::Up))
    } else if message == WM_XBUTTONDOWN {
        Some((x_button_key_exec(mouse_data), KeyPhase::Down))
    } else if message == WM_XBUTTONUP {
        Some((x_button_key_exec(mouse_data), KeyPhase::Up))
    } else {
        None
    }
}

/// What the hook does after the engine's decision has been carried out.
#[derive(PartialEq, Eq, Structural, Clone, Copy, Debug)]
pub struct HookVerdict {
    /// Keep the original event from the rest of the system.
    pub swallow: bool,
    /// Tell the engine that the key it consumed was let through after all,
    /// so that its release is not swallowed.
    pub cancel_consumed: bool,
    /// Pause the engine (the emergency stop was pressed).
    pub pause: bool,
}

/// The emergency stop pauses the engine and swallows the event. Otherwise
/// the event is swallowed when the engine says so and either nothing had to
/// be injected, the injection worked, or a held output was being released.
/// A key-down whose replacement failed to inject goes through, and the
/// engine forgets that it consumed the key.
pub open spec fn verdict_of(d: DispatchView, injected: bool, phase: KeyPhase) -> HookVerdict {
    if d.emergency_stop {
        HookVerdict { swallow: true, cancel_consumed: false, pause: true }
    } else {
        let releases = exists|i: int|
            0 <= i < d.actions.len() && (#[trigger] d.actions[i]).phase == DispatchActionPhase::Up;
        HookVerdict {
            swallow: d.suppress_original && (d.actions.len() == 0 || injected || releases),
            cancel_consumed: d.suppress_original && d.actions.len() > 0 && !injected && phase
                == KeyPhase::Down,
            pause: false,
        }
    }
}

pub fn hook_verdict(dispatch: &Dispatch, injected: bool, phase: KeyPhase) -> (r: HookVerdict)
    ensures
        r == verdict_of(dispatch@, injected, phase),
{
    if dispatch.emergency_stop {
        return HookVerdict { swallow: true, cancel_consumed: false, pause: true };
    }
    let n = dispatch.actions.len();
    let mut releases = false;
    let mut i: usize = 0;
    while i < n
        invariant
            n == dispatch.actions@.len(),
            i <= n,
            releases == exists|k: int|
                0 <= k < i && (#[trigger] dispatch@.actions[k]).phase == DispatchActionPhase::Up,
        decreases n - i,
    {
        if dispatch.actions[i].phase == DispatchActionPhase::Up {
            releases = true;
        }
        assert(dispatch@.actions[i as int] == dispatch.actions@[i as int]@);
        i = i + 1;
    }
    HookVerdict {
        swallow: dispatch.suppress_original && (n == 0 || injected || releases),
        cancel_consumed: dispatch.suppress_original && n > 0 && !injected && phase == KeyPhase::Down,
        pause: false,
    }
}

} // verus!
