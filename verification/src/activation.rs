//! Which profiles the runtime runs, and in what order. A profile with
//! connected-keyboard selectors takes part only while one of them matches a
//! connected keyboard; such profiles come before the always-active ones,
//! the one whose best matching selector sets more fields first, and profiles
//! keep their settings order within each group.
use vstd::prelude::*;
use crate::devices::{keyboard_matches_selector, selector_matches, KeyboardDeviceInfo};
use crate::model::{selector_specificity, DeviceSelector, Profile, Settings};

verus! {

/// A selector matches one of the connected keyboards.
pub open spec fn selector_connected(s: DeviceSelector, kbs: Seq<KeyboardDeviceInfo>) -> bool {
    exists|k: int| 0 <= k < kbs.len() && selector_matches(#[trigger] kbs[k], s)
}

/// The highest specificity among the first `n` selectors that match a
/// connected keyboard; `None` when none of them does.
pub open spec fn best_match(sels: Seq<DeviceSelector>, kbs: Seq<KeyboardDeviceInfo>, n: int) -> Option<
    nat,
>
    decreases n,
{
    if n <= 0 {
        None
    } else {
        let prev = best_match(sels, kbs, n - 1);
        let s = sels[n - 1];
        if selector_connected(s, kbs) {
            match prev {
                Some(b) => if b >= selector_specificity(s) {
                    Some(b)
                } else {
                    Some(selector_specificity(s))
                },
                None => Some(selector_specificity(s)),
            }
        } else {
            prev
        }
    }
}

/// The group a profile runs in, lower groups first, or `None` when it does
/// not run: a disabled or archived profile never runs; an always-active
/// profile runs in the last group (7); a profile switched on by a connected
/// keyboard runs in group `6 - s`, `s` being the specificity (at most 6) of
/// its best matching selector, and does not run when none matches.
pub open spec fn activation_rank(p: Profile, kbs: Seq<KeyboardDeviceInfo>) -> Option<nat> {
    let sels = p.activation.connected_keyboards@;
    if !(p.enabled && !p.archived) {
        None
    } else if sels.len() == 0 {
        Some(7)
    } else {
        match best_match(sels, kbs, sels.len() as int) {
            Some(s) => Some((6 - s) as nat),
            None => None,
        }
    }
}

/// The indices, below `n`, of the profiles in group `r`, in settings order.
pub open spec fn ranked(ps: Seq<Profile>, kbs: Seq<KeyboardDeviceInfo>, r: nat, n: int) -> Seq<int>
    decreases n,
{
    if n <= 0 {
        Seq::empty()
    } else {
        let prev = ranked(ps, kbs, r, n - 1);
        if activation_rank(ps[n - 1], kbs) == Some(r) {
            prev.push(n - 1)
        } else {
            prev
        }
    }
}

/// The profiles of the groups below `r`, group by group.
pub open spec fn order_upto(ps: Seq<Profile>, kbs: Seq<KeyboardDeviceInfo>, r: nat) -> Seq<int>
    decreases r,
{
    if r == 0 {
        Seq::empty()
    } else {
        order_upto(ps, kbs, (r - 1) as nat) + ranked(ps, kbs, (r - 1) as nat, ps.len() as int)
    }
}

/// The indices of the profiles the runtime runs, in the order their rules
/// claim triggers.
pub open spec fn runtime_order(ps: Seq<Profile>, kbs: Seq<KeyboardDeviceInfo>) -> Seq<int> {
    order_upto(ps, kbs, 8)
}

pub open spec fn index_view(v: Seq<usize>) -> Seq<int> {
    v.map_values(|x: usize| x as int)
}

pub proof fn lemma_best_match_bound(sels: Seq<DeviceSelector>, kbs: Seq<KeyboardDeviceInfo>, n: int)
    ensures
        best_match(sels, kbs, n) matches Some(b) ==> b <= 6,
    decreases n,
{
    if n > 0 {
        lemma_best_match_bound(sels, kbs, n - 1);
    }
}

/// Every profile in group `r` below `n` is there once, in settings order.
pub proof fn lemma_ranked(ps: Seq<Profile>, kbs: Seq<KeyboardDeviceInfo>, r: nat, n: int)
    requires
        n <= ps.len(),
    ensures
        forall|k: int|
            0 <= k < ranked(ps, kbs, r, n).len() ==> 0 <= #[trigger] ranked(ps, kbs, r, n)[k] < n
                && activation_rank(ps[ranked(ps, kbs, r, n)[k]], kbs) == Some(r),
        forall|k: int, l: int|
            0 <= k < l < ranked(ps, kbs, r, n).len() ==> #[trigger] ranked(ps, kbs, r, n)[k]
                < #[trigger] ranked(ps, kbs, r, n)[l],
        forall|i: int|
            0 <= i < n && activation_rank(ps[i], kbs) == Some(r) ==> #[trigger] ranked(
                ps,
                kbs,
                r,
                n,
            ).contains(i),
    decreases n,
{
    if n > 0 {
        lemma_ranked(ps, kbs, r, n - 1);
        let prev = ranked(ps, kbs, r, n - 1);
        let now = ranked(ps, kbs, r, n);
        assert forall|i: int| 0 <= i < n && activation_rank(ps[i], kbs) == Some(r) implies #[trigger] now.contains(
            i,
        ) by {
            if i < n - 1 {
                assert(prev.contains(i));
                let k = choose|k: int| 0 <= k < prev.len() && prev[k] == i;
                assert(now[k] == prev[k]);
            } else {
                assert(now[now.len() - 1] == i);
            }
        }
    }
}

/// Every profile in the runtime order is one that runs, and it is in the
/// document.
pub proof fn lemma_order_upto(ps: Seq<Profile>, kbs: Seq<KeyboardDeviceInfo>, r: nat)
    ensures
        forall|k: int|
            0 <= k < order_upto(ps, kbs, r).len() ==> 0 <= #[trigger] order_upto(ps, kbs, r)[k]
                < ps.len() && activation_rank(ps[order_upto(ps, kbs, r)[k]], kbs) is Some,
    decreases r,
{
    if r > 0 {
        lemma_order_upto(ps, kbs, (r - 1) as nat);
        lemma_ranked(ps, kbs, (r - 1) as nat, ps.len() as int);
        let a = order_upto(ps, kbs, (r - 1) as nat);
        let b = ranked(ps, kbs, (r - 1) as nat, ps.len() as int);
        assert forall|k: int| 0 <= k < (a + b).len() implies 0 <= #[trigger] (a + b)[k] < ps.len()
            && activation_rank(ps[(a + b)[k]], kbs) is Some by {
            if k < a.len() {
                assert((a + b)[k] == a[k]);
            } else {
                assert((a + b)[k] == b[k - a.len()]);
            }
        }
    }
}

fn selector_connected_exec(s: &DeviceSelector, keyboards: &[KeyboardDeviceInfo]) -> (r: bool)
    ensures
        r == selector_connected(*s, keyboards@),
{
    let n = keyboards.len();
    let mut k: usize = 0;
    while k < n
        invariant
            n == keyboards@.len(),
            k <= n,
            forall|j: int| 0 <= j < k ==> !selector_matches(#[trigger] keyboards@[j], *s),
        decreases n - k,
    {
        if keyboard_matches_selector(&keyboards[k], s) {
            return true;
        }
        k = k + 1;
    }
    false
}

/// The group a profile runs in; see `activation_rank`.
pub fn profile_rank(p: &Profile, keyboards: &[KeyboardDeviceInfo]) -> (r: Option<usize>)
    ensures
        match r {
            Some(x) => activation_rank(*p, keyboards@) == Some(x as nat),
            None => activation_rank(*p, keyboards@) is None,
        },
{
    if !(p.enabled && !p.archived) {
        return None;
    }
    let sels = &p.activation.connected_keyboards;
    let n = sels.len();
    if n == 0 {
        return Some(7);
    }
    let mut best: Option<usize> = None;
    let mut i: usize = 0;
    while i < n
        invariant
            n == sels@.len(),
            *sels == p.activation.connected_keyboards,
            i <= n,
            match best {
                Some(b) => best_match(sels@, keyboards@, i as int) == Some(b as nat) && b <= 6,
                None => best_match(sels@, keyboards@, i as int) is None,
            },
        decreases n - i,
    {
        let s = &sels[i];
        if selector_connected_exec(s, keyboards) {
            let sp = s.specificity();
            best = match best {
                Some(b) => if b >= sp {
                    Some(b)
                } else {
                    Some(sp)
                },
                None => Some(sp),
            };
        }
        i = i + 1;
    }
    match best {
        Some(b) => Some(6 - b),
        None => None,
    }
}

/// The indices of the profiles the runtime runs, in order; see
/// `runtime_order`.
pub fn runtime_order_exec(settings: &Settings, keyboards: &[KeyboardDeviceInfo]) -> (order: Vec<usize>)
    ensures
        index_view(order@) == runtime_order(settings.profiles@, keyboards@),
{
    let ghost ps = settings.profiles@;
    let ghost kbs = keyboards@;
    let np = settings.profiles.len();
    let mut ranks: Vec<Option<usize>> = Vec::new();
    let mut i: usize = 0;
    while i < np
        invariant
            ps == settings.profiles@,
            kbs == keyboards@,
            np == ps.len(),
            i <= np,
            ranks@.len() == i,
            forall|k: int|
                0 <= k < i ==> match #[trigger] ranks@[k] {
                    Some(x) => activation_rank(ps[k], kbs) == Some(x as nat),
                    None => activation_rank(ps[k], kbs) is None,
                },
        decreases np - i,
    {
        ranks.push(profile_rank(&settings.profiles[i], keyboards));
        i = i + 1;
    }
    let mut order: Vec<usize> = Vec::new();
    let mut r: usize = 0;
    assert(index_view(order@) =~= order_upto(ps, kbs, 0));
    while r < 8
        invariant
            ps == settings.profiles@,
            kbs == keyboards@,
            np == ps.len(),
            ranks@.len() == np,
            forall|k: int|
                0 <= k < np ==> match #[trigger] ranks@[k] {
                    Some(x) => activation_rank(ps[k], kbs) == Some(x as nat),
                    None => activation_rank(ps[k], kbs) is None,
                },
            r <= 8,
            index_view(order@) == order_upto(ps, kbs, r as nat),
        decreases 8 - r,
    {
        let ghost base = order_upto(ps, kbs, r as nat);
        let mut i: usize = 0;
        assert(base + ranked(ps, kbs, r as nat, 0) =~= base);
        while i < np
            invariant
                ps == settings.profiles@,
                kbs == keyboards@,
                np == ps.len(),
                ranks@.len() == np,
                forall|k: int|
                    0 <= k < np ==> match #[trigger] ranks@[k] {
                        Some(x) => activation_rank(ps[k], kbs) == Some(x as nat),
                        None => activation_rank(ps[k], kbs) is None,
                    },
                r < 8,
                i <= np,
                base == order_upto(ps, kbs, r as nat),
                index_view(order@) == base + ranked(ps, kbs, r as nat, i as int),
            decreases np - i,
        {
            let hit = match ranks[i] {
                Some(x) => x == r,
                None => false,
            };
            assert(hit == (activation_rank(ps[i as int], kbs) == Some(r as nat))) by {
                assert(match ranks@[i as int] {
                    Some(x) => activation_rank(ps[i as int], kbs) == Some(x as nat),
                    None => activation_rank(ps[i as int], kbs) is None,
                });
            }
            let ghost before = order@;
            if hit {
                order.push(i);
                assert(index_view(order@) =~= index_view(before).push(i as int));
            }
            assert(index_view(order@) =~= base + ranked(ps, kbs, r as nat, i as int + 1));
            i = i + 1;
        }
        assert(order_upto(ps, kbs, (r + 1) as nat) == base + ranked(ps, kbs, r as nat, np as int));
        r = r + 1;
    }
    order
}

} // verus!
