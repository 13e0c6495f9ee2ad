//! Properties of the library as a whole: what the engine does with injected
//! input, the emergency stop, held remaps and pausing; what compilation and
//! validation guarantee of an accepted settings document; which profiles the
//! runtime runs and in what order; that migration settles; that restoring a
//! startup snapshot undoes a change; and what the keyboard inventory holds.
use vstd::prelude::*;
use crate::engine::{
    CompileErrorView, CompiledRulesView, DispatchActionPhase, DispatchActionView, EngineView,
    EventOrigin, KeyEvent, KeyPhase, MatchContext, candidates, compile_result, engine_inv,
    first_stop, lemma_step_inv, pass_view, pause_step, released, signature, step, stops_at,
    trigger_parts, with_phase, cancel_step, rules_wf,
};
use crate::engine::{compiled_view, first_per_signature, normalized_all, runtime_candidates, runtime_result};
use crate::activation::{
    activation_rank, best_match, lemma_best_match_bound, lemma_ranked, order_upto, ranked, runtime_order, selector_connected,
};
use crate::keys::{lemma_sorted_of, normalize_key, pressed_contains, sorted_of, texts};
use crate::model::{Profile, ProfileScope, Rule, Settings, TriggerGesture, CURRENT_SCHEMA_VERSION};
use crate::validation::{
    chord_is_unusable, limits_are_unsafe, profile_problem, profiles_problem, rule_problem,
    rules_problem, validation_result,
};
use crate::text::{is_blank, lemma_seq_lt_order, lemma_trim_bounds, lower, occurs_at, trim, upper};
use crate::devices::{
    dedup_paths, id_matches, insert_pos, inventory, inventory_lt, normalized_hex_of,
    normalized_text_of, selector_matches, sort_inventory, text_contains, DeviceSelector,
    KeyboardDeviceInfo,
};
use crate::pnp::opt_text;
use crate::keymap::{key_name_of, key_spec_of};
use crate::capture::{
    drained, force_ended, session_events, system_key_event, system_key_recorded, CaptureView,
    KeyCaptureDrainView, KeyCaptureEventView, CAPTURE_QUEUE_CAPACITY,
};
use crate::service::{save_step, SaveAction, SaveEvent, SaveStage, ServiceError};
use crate::repository::RepositoryError;
use crate::startup::LaunchAtLoginError;
use crate::guard::{
    activated, ends_capture, guard_step, GuardAction, GuardState, WM_CONTEXTMENU, WM_MENUCHAR, WM_SYSCHAR, WM_SYSCOMMAND,
    WM_SYSDEADCHAR, WM_SYSKEYDOWN, WM_SYSKEYUP,
};
use crate::pnp::{
    decode_z, first_named, guid_property_value, multi_sz_from, string_list_property_value,
    string_property_value, PnpKeyboardMetadata,
};
use crate::devices::{display_name_of, endpoint_info, enrich, inventory_id_of, path_component_of, with_metadata, RawKeyboardInfo};
use crate::startup::{
    apply_change, apply_changes, approval_of, backslashes, prefixed, quote_progress, quoted_argument,
    read_argument, read_quoted, restore_changes, run_command_of, values_readable,
    RegistryChangeView, RegistryValue, StartupKey, StartupValues, LaunchAtLoginRegistration, opt_bytes,
};
use crate::json::{
    assign, assignable, current_version, global_scope, keeps_rule, kept_rules, key_index, member,
    migratable, migrated, migrated_profile, schema_version_of, JsonView,
};

verus! {

/// Injected input is never processed: an event that did not come from a
/// physical device passes through and leaves the engine as it was.
pub proof fn injected_input_is_ignored(e: EngineView, event: KeyEvent, ctx: MatchContext)
    requires
        event.origin != EventOrigin::Physical,
    ensures
        step(e, event, ctx) == (e, pass_view()),
{
}

/// Every released action is a key-up.
pub proof fn released_actions_are_key_ups(held: Map<Seq<char>, DispatchActionView>)
    ensures
        released(held).len() == sorted_of(held.dom()).len(),
        forall|i: int|
            0 <= i < released(held).len() ==> (#[trigger] released(held)[i]).phase
                == DispatchActionPhase::Up,
{
}

/// The emergency stop wins over every rule: once the key-down that completes
/// the emergency chord arrives, the engine pauses, suppresses that key,
/// forgets the pressed keys and releases every held output, and invokes no
/// rule.
pub proof fn emergency_stop_pauses_and_releases(e: EngineView, event: KeyEvent, ctx: MatchContext)
    requires
        engine_inv(e),
        event.origin == EventOrigin::Physical,
        event.phase == KeyPhase::Down,
        !e.paused,
        !e.consumed.contains(normalize_key(event.key@)),
        forall|i: int|
            0 <= i < e.rules.emergency.len() ==> pressed_contains(
                e.pressed.insert(normalize_key(event.key@)),
                #[trigger] e.rules.emergency[i],
            ),
    ensures
        ({
            let (after, d) = step(e, event, ctx);
            &&& d.emergency_stop
            &&& d.suppress_original
            &&& d.actions == released(e.held)
            &&& forall|i: int| 0 <= i < d.actions.len() ==> (#[trigger] d.actions[i]).phase
                == DispatchActionPhase::Up
            &&& after.paused
            &&& after.pressed == Set::<Seq<char>>::empty()
            &&& after.held == Map::<Seq<char>, DispatchActionView>::empty()
            &&& after.consumed == e.consumed
            &&& after.rules == e.rules
        }),
{
    let key = normalize_key(event.key@);
    assert(!e.held.contains_key(key));
}

/// A held remap is released by the key-up of its source key: the output
/// goes up, the key-up is suppressed, and the key is neither held nor
/// consumed afterwards.
pub proof fn held_remap_released_on_source_key_up(e: EngineView, event: KeyEvent, ctx: MatchContext)
    requires
        engine_inv(e),
        event.origin == EventOrigin::Physical,
        event.phase == KeyPhase::Up,
        e.held.contains_key(normalize_key(event.key@)),
    ensures
        ({
            let k = normalize_key(event.key@);
            let (after, d) = step(e, event, ctx);
            &&& d.suppress_original
            &&& !d.emergency_stop
            &&& d.actions == seq![with_phase(e.held[k], DispatchActionPhase::Up)]
            &&& !after.held.contains_key(k)
            &&& !after.consumed.contains(k)
            &&& !after.pressed.contains(k)
        }),
{
}

/// A key whose key-down was consumed has its key-up suppressed too, and is
/// no longer consumed after it.
pub proof fn consumed_key_up_is_suppressed(e: EngineView, event: KeyEvent, ctx: MatchContext)
    requires
        event.origin == EventOrigin::Physical,
        event.phase == KeyPhase::Up,
        e.consumed.contains(normalize_key(event.key@)),
    ensures
        step(e, event, ctx).1.suppress_original,
        !step(e, event, ctx).0.consumed.contains(normalize_key(event.key@)),
{
}

/// A paused engine invokes no rule and releases nothing on input: every
/// dispatch it makes is empty.
pub proof fn paused_engine_invokes_nothing(e: EngineView, event: KeyEvent, ctx: MatchContext)
    requires
        engine_inv(e),
        e.paused,
    ensures
        step(e, event, ctx).1.actions.len() == 0,
        !step(e, event, ctx).1.emergency_stop,
        step(e, event, ctx).0.paused,
{
    let key = normalize_key(event.key@);
    if e.held.contains_key(key) {
        assert(e.held.dom().contains(key));
    }
}

/// Pausing a running engine releases every held output, in key order, and
/// leaves nothing held; asking for the state the engine is already in does
/// nothing.
pub proof fn pausing_releases_every_held_output(e: EngineView)
    requires
        engine_inv(e),
    ensures
        !e.paused ==> pause_step(e, true).1 == released(e.held),
        !e.paused ==> pause_step(e, true).0.held == Map::<Seq<char>, DispatchActionView>::empty(),
        !e.paused ==> pause_step(e, true).0.paused,
        pause_step(e, e.paused) == (e, Seq::<DispatchActionView>::empty()),
        !pause_step(e, false).0.paused,
        pause_step(e, false).0.rules == e.rules,
{
}

/// Pausing, resuming and cancelling keep the engine invariant, as every key
/// event does (`lemma_step_inv`).
pub proof fn engine_operations_keep_invariant(e: EngineView, paused: bool, key: Seq<char>)
    requires
        engine_inv(e),
    ensures
        engine_inv(pause_step(e, paused).0),
        engine_inv(cancel_step(e, key)),
{
    let p = pause_step(e, paused).0;
    if paused && !e.paused {
        assert(p.held.dom() =~= Set::<Seq<char>>::empty());
    }
    let c = cancel_step(e, key);
    assert forall|k: Seq<char>| #[trigger] c.held.contains_key(k) implies c.consumed.contains(k)
        && c.held[k].phase == DispatchActionPhase::Down by {
        assert(e.held.contains_key(k));
    }
    if c.paused {
        assert(c.held.dom() =~= Set::<Seq<char>>::empty());
    }
}

/// A stop at `i` makes compilation stop at or before `i`.
proof fn lemma_first_stop_exists(cs: Seq<(Profile, Rule)>, from: int, i: int)
    requires
        0 <= from <= i < cs.len(),
        stops_at(cs, i),
    ensures
        first_stop(cs, from) matches Some(j) && from <= j <= i,
    decreases i - from,
{
    if !stops_at(cs, from) {
        lemma_first_stop_exists(cs, from + 1, i);
    }
}

proof fn lemma_no_stop(cs: Seq<(Profile, Rule)>, from: int, i: int)
    requires
        0 <= from <= i < cs.len(),
        first_stop(cs, from) is None,
    ensures
        !stops_at(cs, i),
    decreases i - from,
{
    if from < i {
        lemma_no_stop(cs, from + 1, i);
    }
}

/// Compiled rules never conflict: when compilation succeeds, no two of the
/// rules it took share scope kind, phase and key set.
pub proof fn compiled_triggers_are_distinct(s: Settings)
    requires
        compile_result(s) is Ok,
    ensures
        forall|i: int, j: int|
            0 <= i < j < candidates(s).len() ==> signature(#[trigger] candidates(s)[i])
                != signature(#[trigger] candidates(s)[j]),
{
    let cs = candidates(s);
    assert forall|i: int, j: int| 0 <= i < j < cs.len() implies signature(#[trigger] cs[i])
        != signature(#[trigger] cs[j]) by {
        lemma_no_stop(cs, 0, j);
    }
}

/// Hold and double-tap gestures are rejected: a settings document in which
/// such a rule would take part does not compile.
pub proof fn unsupported_gestures_are_rejected(s: Settings, i: int)
    requires
        0 <= i < candidates(s).len(),
        trigger_parts(candidates(s)[i].1.trigger).2 != TriggerGesture::Single,
    ensures
        compile_result(s) is Err,
{
    lemma_first_stop_exists(candidates(s), 0, i);
}

/// A compiled rule set meets the runtime's requirement on held remaps.
pub proof fn compiled_rules_are_well_formed(s: Settings)
    requires
        compile_result(s) is Ok,
    ensures
        rules_wf(compile_result(s)->Ok_0),
{
}


proof fn lemma_no_profile_problem(s: Settings, i: int, k: int)
    requires
        0 <= i <= k < s.profiles@.len(),
        profiles_problem(s, i) is None,
    ensures
        profile_problem(s, k) is None,
    decreases k - i,
{
    if i < k {
        lemma_no_profile_problem(s, i + 1, k);
    }
}

proof fn lemma_no_rule_problem(s: Settings, p: Profile, j: int, k: int)
    requires
        0 <= j <= k < p.rules@.len(),
        rules_problem(s, p, j) is None,
    ensures
        rule_problem(s, p, k) is None,
    decreases k - j,
{
    if j < k {
        lemma_no_rule_problem(s, p, j + 1, k);
    }
}

/// What validation guarantees of an accepted settings document: the current
/// schema, a usable emergency chord, profiles with distinct identifiers,
/// non-blank names, global scope and keyboard selectors that each name
/// something, and in each profile rules with distinct identifiers, usable
/// chords and execution limits within the engine's bounds.
pub proof fn accepted_settings_are_well_formed(s: Settings)
    requires
        validation_result(s) is Ok,
    ensures
        s.schema_version == CURRENT_SCHEMA_VERSION,
        !chord_is_unusable(texts(s.engine.emergency_stop@)),
        forall|i: int|
            0 <= i < s.profiles@.len() ==> (#[trigger] s.profiles@[i]).scope is Global && !is_blank(
                s.profiles@[i].name@,
            ),
        forall|i: int, j: int|
            0 <= i < j < s.profiles@.len() ==> (#[trigger] s.profiles@[i]).id != (
            #[trigger] s.profiles@[j]).id,
        forall|i: int, k: int|
            0 <= i < s.profiles@.len() && 0 <= k < s.profiles@[i].activation.connected_keyboards@.len()
                ==> !crate::validation::selector_is_unstable(
                #[trigger] s.profiles@[i].activation.connected_keyboards@[k],
            ),
        forall|i: int, k: int|
            0 <= i < s.profiles@.len() && 0 <= k < s.profiles@[i].rules@.len() ==> !limits_are_unsafe(
                s,
                #[trigger] s.profiles@[i].rules@[k],
            ),
        forall|i: int, k: int, m: int|
            0 <= i < s.profiles@.len() && 0 <= m < k < s.profiles@[i].rules@.len() ==> (
            #[trigger] s.profiles@[i].rules@[m]).id != (#[trigger] s.profiles@[i].rules@[k]).id,
{
    let ps = s.profiles@;
    assert forall|i: int| 0 <= i < ps.len() implies (#[trigger] ps[i]).scope is Global && !is_blank(
        ps[i].name@,
    ) by {
        lemma_no_profile_problem(s, 0, i);
    }
    assert forall|i: int, j: int| 0 <= i < j < ps.len() implies (#[trigger] ps[i]).id != (
    #[trigger] ps[j]).id by {
        lemma_no_profile_problem(s, 0, j);
    }
    assert forall|i: int, k: int|
        0 <= i < ps.len() && 0 <= k < ps[i].activation.connected_keyboards@.len() implies !crate::validation::selector_is_unstable(
        #[trigger] ps[i].activation.connected_keyboards@[k],
    ) by {
        lemma_no_profile_problem(s, 0, i);
    }
    assert forall|i: int, k: int|
        0 <= i < ps.len() && 0 <= k < ps[i].rules@.len() implies !limits_are_unsafe(
        s,
        #[trigger] ps[i].rules@[k],
    ) by {
        lemma_no_profile_problem(s, 0, i);
        lemma_no_rule_problem(s, ps[i], 0, k);
    }
    assert forall|i: int, k: int, m: int|
        0 <= i < ps.len() && 0 <= m < k < ps[i].rules@.len() implies (
        #[trigger] ps[i].rules@[m]).id != (#[trigger] ps[i].rules@[k]).id by {
        lemma_no_profile_problem(s, 0, i);
        lemma_no_rule_problem(s, ps[i], 0, k);
    }
}

/// An accepted document has no rule that waits for an empty chord or for a
/// blank key, and none that sends an empty chord or a blank key.
pub proof fn accepted_rules_have_usable_chords(s: Settings, i: int, k: int)
    requires
        validation_result(s) is Ok,
        0 <= i < s.profiles@.len(),
        0 <= k < s.profiles@[i].rules@.len(),
    ensures
        s.profiles@[i].rules@[k].trigger matches crate::model::Trigger::Keyboard { chord, .. }
            ==> chord@.len() > 0 && forall|c: int| 0 <= c < chord@.len() ==> !is_blank(#[trigger] chord@[c]@),
        s.profiles@[i].rules@[k].action matches crate::model::Action::SendKeys { chord }
            ==> chord@.len() > 0 && forall|c: int| 0 <= c < chord@.len() ==> !is_blank(#[trigger] chord@[c]@),
{
    let ps = s.profiles@;
    lemma_no_profile_problem(s, 0, i);
    lemma_no_rule_problem(s, ps[i], 0, k);
    let rule = ps[i].rules@[k];
    if let crate::model::Trigger::Keyboard { chord, .. } = rule.trigger {
        assert forall|c: int| 0 <= c < chord@.len() implies !is_blank(#[trigger] chord@[c]@) by {
            assert(texts(chord@)[c] == chord@[c]@);
        }
    }
    if let crate::model::Action::SendKeys { chord } = rule.action {
        assert forall|c: int| 0 <= c < chord@.len() implies !is_blank(#[trigger] chord@[c]@) by {
            assert(texts(chord@)[c] == chord@[c]@);
        }
    }
}

proof fn lemma_first_per_signature(cs: Seq<(Profile, Rule)>)
    ensures
        forall|i: int, j: int|
            0 <= i < j < first_per_signature(cs).len() ==> signature(
                #[trigger] first_per_signature(cs)[i],
            ) != signature(#[trigger] first_per_signature(cs)[j]),
        forall|i: int|
            0 <= i < cs.len() ==> exists|k: int|
                0 <= k < first_per_signature(cs).len() && signature(
                    #[trigger] first_per_signature(cs)[k],
                ) == signature(#[trigger] cs[i]),
        forall|k: int|
            0 <= k < first_per_signature(cs).len() ==> exists|i: int|
                0 <= i < cs.len() && #[trigger] first_per_signature(cs)[k] == #[trigger] cs[i],
    decreases cs.len(),
{
    if cs.len() > 0 {
        let prev = cs.drop_last();
        lemma_first_per_signature(prev);
        let kept = first_per_signature(prev);
        let now = first_per_signature(cs);
        assert forall|i: int| 0 <= i < cs.len() implies exists|k: int|
            0 <= k < now.len() && signature(#[trigger] now[k]) == signature(#[trigger] cs[i]) by {
            if i < prev.len() {
                assert(cs[i] == prev[i]);
                let k = choose|k: int| 0 <= k < kept.len() && signature(#[trigger] kept[k]) == signature(prev[i]);
                assert(now[k] == kept[k]);
            } else {
                if exists|k: int| 0 <= k < kept.len() && signature(#[trigger] kept[k]) == signature(cs.last()) {
                    let k = choose|k: int| 0 <= k < kept.len() && signature(#[trigger] kept[k]) == signature(cs.last());
                    assert(now[k] == kept[k]);
                } else {
                    assert(now[kept.len() as int] == cs.last());
                }
            }
        }
        assert forall|k: int| 0 <= k < now.len() implies exists|i: int|
            0 <= i < cs.len() && #[trigger] now[k] == #[trigger] cs[i] by {
            if k < kept.len() {
                let i = choose|i: int| 0 <= i < prev.len() && #[trigger] kept[k] == #[trigger] prev[i];
                assert(cs[i] == prev[i]);
            } else {
                assert(now[k] == cs[cs.len() - 1]);
            }
        }
    }
}

/// The runtime rule set never holds two rules for the same trigger; a rule
/// is only left out when a rule before it, kept in its place, claims the
/// same trigger; and every rule in it is an enabled rule of a profile that
/// is on.
pub proof fn runtime_rules_have_distinct_triggers(s: Settings, kbs: Seq<KeyboardDeviceInfo>)
    requires
        runtime_result(s, kbs) is Ok,
    ensures
        runtime_result(s, kbs)->Ok_0.0.rules == first_per_signature(runtime_candidates(s, kbs)).map_values(
            |c: (Profile, Rule)| crate::engine::compiled_view(c),
        ),
        forall|i: int, j: int|
            0 <= i < j < first_per_signature(runtime_candidates(s, kbs)).len() ==> signature(
                #[trigger] first_per_signature(runtime_candidates(s, kbs))[i],
            ) != signature(#[trigger] first_per_signature(runtime_candidates(s, kbs))[j]),
        forall|i: int|
            0 <= i < runtime_candidates(s, kbs).len() ==> exists|k: int|
                0 <= k < first_per_signature(runtime_candidates(s, kbs)).len() && signature(
                    #[trigger] first_per_signature(runtime_candidates(s, kbs))[k],
                ) == signature(#[trigger] runtime_candidates(s, kbs)[i]),
        forall|k: int|
            0 <= k < first_per_signature(runtime_candidates(s, kbs)).len() ==> exists|i: int|
                0 <= i < runtime_candidates(s, kbs).len() && #[trigger] first_per_signature(
                    runtime_candidates(s, kbs),
                )[k] == #[trigger] runtime_candidates(s, kbs)[i],
{
    lemma_first_per_signature(runtime_candidates(s, kbs));
}

proof fn lemma_order_upto_sorted(ps: Seq<Profile>, kbs: Seq<KeyboardDeviceInfo>, r: nat)
    ensures
        forall|k: int|
            0 <= k < order_upto(ps, kbs, r).len() ==> 0 <= #[trigger] order_upto(ps, kbs, r)[k]
                < ps.len() && (activation_rank(ps[order_upto(ps, kbs, r)[k]], kbs) matches Some(x)
                && x < r),
        forall|k: int, l: int|
            0 <= k < l < order_upto(ps, kbs, r).len() ==> ordered_before(
                ps,
                kbs,
                #[trigger] order_upto(ps, kbs, r)[k],
                #[trigger] order_upto(ps, kbs, r)[l],
            ),
        forall|i: int|
            0 <= i < ps.len() && (activation_rank(ps[i], kbs) matches Some(x) && x < r)
                ==> #[trigger] order_upto(ps, kbs, r).contains(i),
    decreases r,
{
    if r > 0 {
        let r1 = (r - 1) as nat;
        lemma_order_upto_sorted(ps, kbs, r1);
        lemma_ranked(ps, kbs, r1, ps.len() as int);
        let a = order_upto(ps, kbs, r1);
        let b = ranked(ps, kbs, r1, ps.len() as int);
        let c = a + b;
        assert forall|k: int| 0 <= k < c.len() implies 0 <= #[trigger] c[k] < ps.len() && (
        activation_rank(ps[c[k]], kbs) matches Some(x) && x < r) by {
            if k < a.len() {
                assert(c[k] == a[k]);
            } else {
                assert(c[k] == b[k - a.len()]);
            }
        }
        assert forall|k: int, l: int| 0 <= k < l < c.len() implies ordered_before(
            ps,
            kbs,
            #[trigger] c[k],
            #[trigger] c[l],
        ) by {
            if l < a.len() {
                assert(c[k] == a[k] && c[l] == a[l]);
            } else if k < a.len() {
                assert(c[k] == a[k] && c[l] == b[l - a.len()]);
            } else {
                assert(c[k] == b[k - a.len()] && c[l] == b[l - a.len()]);
            }
        }
        assert forall|i: int|
            0 <= i < ps.len() && (activation_rank(ps[i], kbs) matches Some(x) && x < r) implies #[trigger] c.contains(
            i,
        ) by {
            if activation_rank(ps[i], kbs) == Some(r1) {
                assert(b.contains(i));
                let k = choose|k: int| 0 <= k < b.len() && b[k] == i;
                assert(c[a.len() + k] == i);
            } else {
                assert(a.contains(i));
                let k = choose|k: int| 0 <= k < a.len() && a[k] == i;
                assert(c[k] == i);
            }
        }
    }
}

/// Profile `i` comes before profile `j` in the runtime order: it is in an
/// earlier group, or in the same group and earlier in the settings.
pub open spec fn ordered_before(ps: Seq<Profile>, kbs: Seq<KeyboardDeviceInfo>, i: int, j: int) -> bool {
    match (activation_rank(ps[i], kbs), activation_rank(ps[j], kbs)) {
        (Some(x), Some(y)) => x < y || (x == y && i < j),
        _ => false,
    }
}

/// The runtime order holds exactly the profiles that are on: enabled,
/// unarchived, and either without keyboard selectors or with one that
/// matches a connected keyboard. Profiles switched on by a keyboard come
/// before the always-active ones, those whose best matching selector sets
/// more fields first, and settings order decides within a group; so a
/// profile switched on by a keyboard claims a trigger before an
/// always-active profile does.
pub proof fn runtime_order_is_sorted(ps: Seq<Profile>, kbs: Seq<KeyboardDeviceInfo>)
    ensures
        forall|i: int|
            0 <= i < ps.len() ==> (#[trigger] runtime_order(ps, kbs).contains(i) <==> activation_rank(
                ps[i],
                kbs,
            ) is Some),
        forall|i: int|
            0 <= i < ps.len() ==> (activation_rank(ps[i], kbs) is Some <==> (ps[i].enabled
                && !ps[i].archived && (ps[i].activation.connected_keyboards@.len() == 0 || exists|k: int|
                0 <= k < ps[i].activation.connected_keyboards@.len() && selector_connected(
                #[trigger] ps[i].activation.connected_keyboards@[k],
                kbs,
            )))),
        forall|k: int, l: int|
            0 <= k < l < runtime_order(ps, kbs).len() ==> ordered_before(
                ps,
                kbs,
                #[trigger] runtime_order(ps, kbs)[k],
                #[trigger] runtime_order(ps, kbs)[l],
            ),
        forall|i: int, j: int|
            0 <= i < ps.len() && 0 <= j < ps.len() && ps[i].activation.connected_keyboards@.len() > 0
                && ps[j].activation.connected_keyboards@.len() == 0 && activation_rank(ps[i], kbs)
                is Some && activation_rank(ps[j], kbs) is Some ==> ordered_before(ps, kbs, i, j),
{
    lemma_order_upto_sorted(ps, kbs, 8);
    let ord = runtime_order(ps, kbs);
    assert forall|i: int| 0 <= i < ps.len() implies (#[trigger] ord.contains(i) <==> activation_rank(
        ps[i],
        kbs,
    ) is Some) by {
        if ord.contains(i) {
            let k = choose|k: int| 0 <= k < ord.len() && ord[k] == i;
        }
        lemma_rank_bound(ps[i], kbs);
    }
    assert forall|i: int| 0 <= i < ps.len() implies (activation_rank(ps[i], kbs) is Some <==> (
    ps[i].enabled && !ps[i].archived && (ps[i].activation.connected_keyboards@.len() == 0
        || exists|k: int|
        0 <= k < ps[i].activation.connected_keyboards@.len() && selector_connected(
            #[trigger] ps[i].activation.connected_keyboards@[k],
            kbs,
        )))) by {
        let sels = ps[i].activation.connected_keyboards@;
        lemma_best_match_some(sels, kbs, sels.len() as int);
    }
    assert forall|i: int, j: int|
        0 <= i < ps.len() && 0 <= j < ps.len() && ps[i].activation.connected_keyboards@.len() > 0
            && ps[j].activation.connected_keyboards@.len() == 0 && activation_rank(ps[i], kbs) is Some
            && activation_rank(ps[j], kbs) is Some implies ordered_before(ps, kbs, i, j) by {
        lemma_rank_bound(ps[i], kbs);
    }
}

proof fn lemma_rank_bound(p: Profile, kbs: Seq<KeyboardDeviceInfo>)
    ensures
        activation_rank(p, kbs) matches Some(x) ==> x < 8,
        p.activation.connected_keyboards@.len() > 0 ==> (activation_rank(p, kbs) matches Some(x)
            ==> x < 7),
{
    let sels = p.activation.connected_keyboards@;
    lemma_best_match_bound(sels, kbs, sels.len() as int);
}

proof fn lemma_best_match_some(sels: Seq<DeviceSelector>, kbs: Seq<KeyboardDeviceInfo>, n: int)
    requires
        n <= sels.len(),
    ensures
        best_match(sels, kbs, n) is Some <==> exists|k: int|
            0 <= k < n && selector_connected(#[trigger] sels[k], kbs),
    decreases n,
{
    if n > 0 {
        lemma_best_match_some(sels, kbs, n - 1);
    }
}

/// A save moves the document past the revision it was checked against, so
/// a second writer that saw the same revision is refused.
pub proof fn save_advances_the_revision(draft: Settings, current: u64, now: crate::model::Timestamp)
    requires
        current < u64::MAX,
    ensures
        crate::repository::saved_document(draft, current, now).revision == current + 1,
        crate::repository::saved_document(draft, current, now).revision != current,
        crate::repository::saved_document(draft, current, now).profiles == draft.profiles,
        crate::repository::saved_document(draft, current, now).preferences == draft.preferences,
        validation_result(crate::repository::saved_document(draft, current, now))
            == validation_result(draft),
{
    crate::validation::lemma_validation_reads_content(
        draft,
        crate::repository::saved_document(draft, current, now),
    );
}

/// While no capture is active, the window guard neither records nor
/// swallows a message, and stays inactive.
pub proof fn inactive_guard_lets_messages_through(
    state: crate::guard::GuardState,
    message: u32,
    wparam: usize,
    lparam: isize,
)
    requires
        !state.capture_active,
    ensures
        !crate::guard::guard_step(state, message, wparam, lparam).0.capture_active,
        crate::guard::guard_step(state, message, wparam, lparam).1 == crate::guard::GuardAction::Default
            || crate::guard::guard_step(state, message, wparam, lparam).1
            == crate::guard::GuardAction::EndCapture,
{
}

/// Losing activation always ends the capture and forgets the Alt key.
pub proof fn deactivation_ends_capture(state: crate::guard::GuardState, lparam: isize)
    ensures
        crate::guard::guard_step(state, crate::guard::WM_ACTIVATEAPP, 0, lparam) == (
        crate::guard::GuardState { capture_active: false, last_alt_side: 0 },
        crate::guard::GuardAction::EndCapture),
{
}


/// Sorted in the inventory order: no entry sorts before one ahead of it.
pub open spec fn inventory_sorted(s: Seq<KeyboardDeviceInfo>) -> bool {
    forall|i: int, j: int| 0 <= i < j < s.len() ==> !inventory_lt(#[trigger] s[j], #[trigger] s[i])
}

proof fn lemma_inventory_order()
    ensures
        forall|a: KeyboardDeviceInfo| !#[trigger] inventory_lt(a, a),
        forall|a: KeyboardDeviceInfo, b: KeyboardDeviceInfo, c: KeyboardDeviceInfo|
            #[trigger] inventory_lt(a, b) && #[trigger] inventory_lt(b, c) ==> inventory_lt(a, c),
{
    lemma_seq_lt_order();
}

proof fn lemma_insert_pos(t: Seq<KeyboardDeviceInfo>, x: KeyboardDeviceInfo, i: int)
    requires
        0 <= i <= t.len(),
    ensures
        i <= insert_pos(t, x, i) <= t.len(),
        forall|k: int| i <= k < insert_pos(t, x, i) ==> !inventory_lt(x, #[trigger] t[k]),
        insert_pos(t, x, i) < t.len() ==> inventory_lt(x, t[insert_pos(t, x, i)]),
    decreases t.len() - i,
{
    if i < t.len() && !inventory_lt(x, t[i]) {
        lemma_insert_pos(t, x, i + 1);
    }
}

proof fn lemma_sort_inventory(s: Seq<KeyboardDeviceInfo>)
    ensures
        inventory_sorted(sort_inventory(s)),
        sort_inventory(s).len() == s.len(),
        forall|k: int|
            0 <= k < s.len() ==> exists|i: int|
                0 <= i < s.len() && #[trigger] sort_inventory(s)[k] == #[trigger] s[i],
    decreases s.len(),
{
    if s.len() > 0 {
        let prev = s.drop_last();
        lemma_sort_inventory(prev);
        lemma_inventory_order();
        let t = sort_inventory(prev);
        let x = s.last();
        let p = insert_pos(t, x, 0);
        lemma_insert_pos(t, x, 0);
        let r = t.insert(p, x);
        assert(r == sort_inventory(s));
        assert forall|i: int, j: int| 0 <= i < j < r.len() implies !inventory_lt(
            #[trigger] r[j],
            #[trigger] r[i],
        ) by {
            if j < p {
                assert(r[i] == t[i] && r[j] == t[j]);
            } else if j == p {
                assert(r[j] == x && r[i] == t[i]);
            } else if i < p {
                assert(r[i] == t[i] && r[j] == t[j - 1]);
                if inventory_lt(t[j - 1], t[i]) {
                } else {
                }
            } else if i == p {
                assert(r[i] == x && r[j] == t[j - 1]);
                if inventory_lt(t[j - 1], x) {
                    if j - 1 > p {
                        assert(!inventory_lt(t[j - 1], t[p]));
                    }
                    assert(inventory_lt(x, t[p]));
                    assert(inventory_lt(t[j - 1], t[p]));
                }
            } else {
                assert(r[i] == t[i - 1] && r[j] == t[j - 1]);
            }
        }
        assert forall|k: int| 0 <= k < s.len() implies exists|i: int|
            0 <= i < s.len() && #[trigger] sort_inventory(s)[k] == #[trigger] s[i] by {
            if k < p {
                assert(r[k] == t[k]);
                let i = choose|i: int| 0 <= i < prev.len() && #[trigger] t[k] == #[trigger] prev[i];
                assert(s[i] == prev[i]);
            } else if k == p {
                assert(r[k] == s[s.len() - 1]);
            } else {
                assert(r[k] == t[k - 1]);
                let i = choose|i: int| 0 <= i < prev.len() && #[trigger] t[k - 1] == #[trigger] prev[i];
                assert(s[i] == prev[i]);
            }
        }
    }
}

proof fn lemma_dedup_paths(s: Seq<KeyboardDeviceInfo>)
    requires
        inventory_sorted(s),
    ensures
        inventory_sorted(dedup_paths(s)),
        forall|k: int|
            0 <= k < dedup_paths(s).len() ==> exists|i: int|
                0 <= i < s.len() && #[trigger] dedup_paths(s)[k] == #[trigger] s[i],
        forall|k: int|
            0 <= k < dedup_paths(s).len() - 1 ==> lower((#[trigger] dedup_paths(s)[k]).device_path@)
                != lower(dedup_paths(s)[k + 1].device_path@),
    decreases s.len(),
{
    if s.len() > 0 {
        let prev = s.drop_last();
        assert(inventory_sorted(prev)) by {
            assert forall|i: int, j: int| 0 <= i < j < prev.len() implies !inventory_lt(
                #[trigger] prev[j],
                #[trigger] prev[i],
            ) by {
                assert(prev[i] == s[i] && prev[j] == s[j]);
            }
        }
        lemma_dedup_paths(prev);
        let d = dedup_paths(prev);
        let x = s.last();
        if !(d.len() > 0 && lower(d.last().device_path@) == lower(x.device_path@)) {
            let r = d.push(x);
            assert forall|i: int, j: int| 0 <= i < j < r.len() implies !inventory_lt(
                #[trigger] r[j],
                #[trigger] r[i],
            ) by {
                if j < d.len() {
                    assert(r[i] == d[i] && r[j] == d[j]);
                } else {
                    assert(r[i] == d[i]);
                    let m = choose|m: int| 0 <= m < prev.len() && #[trigger] d[i] == #[trigger] prev[m];
                    assert(prev[m] == s[m]);
                    assert(!inventory_lt(s[s.len() - 1], s[m]));
                }
            }
            assert forall|k: int| 0 <= k < r.len() implies exists|i: int|
                0 <= i < s.len() && #[trigger] r[k] == #[trigger] s[i] by {
                if k < d.len() {
                    let m = choose|m: int| 0 <= m < prev.len() && #[trigger] d[k] == #[trigger] prev[m];
                    assert(prev[m] == s[m]);
                } else {
                    assert(r[k] == s[s.len() - 1]);
                }
            }
            assert forall|k: int| 0 <= k < r.len() - 1 implies lower((#[trigger] r[k]).device_path@)
                != lower(r[k + 1].device_path@) by {
                if k + 1 < d.len() {
                    assert(r[k] == d[k] && r[k + 1] == d[k + 1]);
                } else {
                    assert(r[k] == d.last());
                }
            }
        } else {
            assert forall|k: int| 0 <= k < d.len() implies exists|i: int|
                0 <= i < s.len() && #[trigger] d[k] == #[trigger] s[i] by {
                let m = choose|m: int| 0 <= m < prev.len() && #[trigger] d[k] == #[trigger] prev[m];
                assert(prev[m] == s[m]);
            }
        }
    }
}

/// The keyboard inventory is sorted by name and then interface path, lists
/// no interface twice in a row (paths compared without regard to ASCII
/// case), and holds only endpoints that Raw Input reported, each with the
/// metadata of its interface.
pub proof fn inventory_is_sorted_without_repeated_interfaces(
    ks: Seq<KeyboardDeviceInfo>,
    meta: Seq<(String, crate::pnp::PnpKeyboardMetadata)>,
)
    ensures
        inventory_sorted(inventory(ks, meta)),
        forall|k: int|
            0 <= k < inventory(ks, meta).len() - 1 ==> lower(
                (#[trigger] inventory(ks, meta)[k]).device_path@,
            ) != lower(inventory(ks, meta)[k + 1].device_path@),
        forall|k: int|
            0 <= k < inventory(ks, meta).len() ==> exists|i: int|
                0 <= i < crate::devices::enrich(ks, meta).len() && #[trigger] inventory(ks, meta)[k]
                    == #[trigger] crate::devices::enrich(ks, meta)[i],
{
    let e = crate::devices::enrich(ks, meta);
    lemma_sort_inventory(e);
    lemma_dedup_paths(sort_inventory(e));
    let sorted = sort_inventory(e);
    let inv = inventory(ks, meta);
    assert forall|k: int| 0 <= k < inv.len() implies exists|i: int|
        0 <= i < e.len() && #[trigger] inv[k] == #[trigger] e[i] by {
        let m = choose|m: int| 0 <= m < sorted.len() && #[trigger] inv[k] == #[trigger] sorted[m];
        let i = choose|i: int| 0 <= i < e.len() && #[trigger] sorted[m] == #[trigger] e[i];
    }
}

proof fn lemma_lower_upper(v: Seq<char>)
    ensures
        lower(upper(v)) == lower(v),
{
    assert(lower(upper(v)) =~= lower(v));
}

/// A keyboard matches the selector made from it, provided its identifiers
/// carry no surrounding whitespace (the selector holds them trimmed).
pub proof fn keyboard_matches_its_canonical_selector(k: KeyboardDeviceInfo, sel: DeviceSelector)
    requires
        opt_text(sel.vendor_id) == normalized_hex_of(opt_text(k.vendor_id)),
        opt_text(sel.product_id) == normalized_hex_of(opt_text(k.product_id)),
        opt_text(sel.interface_id) == normalized_hex_of(opt_text(k.interface_id)),
        opt_text(sel.manufacturer_contains) == normalized_text_of(opt_text(k.manufacturer)),
        opt_text(sel.name_contains) == normalized_text_of(Some(k.name@)),
        sel.is_virtual == Some(k.is_virtual),
        k.vendor_id matches Some(v) ==> trim(v@) == v@,
        k.product_id matches Some(v) ==> trim(v@) == v@,
        k.interface_id matches Some(v) ==> trim(v@) == v@,
    ensures
        selector_matches(k, sel),
{
    match k.vendor_id {
        Some(v) => lemma_lower_upper(v@),
        None => {},
    }
    match k.product_id {
        Some(v) => lemma_lower_upper(v@),
        None => {},
    }
    match k.interface_id {
        Some(v) => lemma_lower_upper(v@),
        None => {},
    }
    lemma_contains_trimmed(k.name@);
    match k.manufacturer {
        Some(m) => lemma_contains_trimmed(m@),
        None => {},
    }
}

/// A text contains its trimmed self, without regard to ASCII case.
proof fn lemma_contains_trimmed(t: Seq<char>)
    ensures
        text_contains(Some(t), normalized_text_of(Some(t))),
{
    lemma_trim_bounds(t);
    let a = crate::text::trim_start_index(t);
    let b = crate::text::trim_end_index(t);
    if trim(t).len() != 0 {
        assert(lower(t).subrange(a, b) =~= lower(trim(t)));
        assert(occurs_at(lower(t), lower(trim(t)), a));
    }
}

type Members = Seq<(Seq<char>, JsonView)>;

/// Replacing a member by one of the same name moves no other name.
proof fn lemma_key_index_update(e: Members, key: Seq<char>, j: int, x: (Seq<char>, JsonView), s: int)
    requires
        0 <= j < e.len(),
        x.0 == e[j].0,
        0 <= s,
    ensures
        key_index(e.update(j, x), key, s) == key_index(e, key, s),
    decreases e.len() - s,
{
    if s < e.len() {
        assert(e.update(j, x)[s].0 == e[s].0);
        lemma_key_index_update(e, key, j, x, s + 1);
    }
}

/// Appending a member of another name moves no name.
proof fn lemma_key_index_push(e: Members, key: Seq<char>, x: (Seq<char>, JsonView), s: int)
    requires
        x.0 != key,
        0 <= s,
    ensures
        key_index(e.push(x), key, s) == key_index(e, key, s),
    decreases e.len() + 1 - s,
{
    if s < e.len() {
        assert(e.push(x)[s] == e[s]);
        lemma_key_index_push(e, key, x, s + 1);
    } else if s == e.len() {
        assert(e.push(x)[s] == x);
        assert(key_index(e.push(x), key, s + 1) is None);
    }
}

/// An appended member is found when no earlier one has its name.
proof fn lemma_key_index_push_found(e: Members, key: Seq<char>, x: (Seq<char>, JsonView), s: int)
    requires
        x.0 == key,
        0 <= s <= e.len(),
        key_index(e, key, s) is None,
    ensures
        key_index(e.push(x), key, s) == Some(e.len() as int),
    decreases e.len() - s,
{
    if s < e.len() {
        assert(e.push(x)[s] == e[s]);
        lemma_key_index_push_found(e, key, x, s + 1);
    } else {
        assert(e.push(x)[s] == x);
    }
}

/// After `value[key] = x`, the member `key` is `x`.
proof fn lemma_member_assigned(v: JsonView, key: Seq<char>, x: JsonView)
    requires
        assignable(v),
    ensures
        member(assign(v, key, x), key) == Some(x),
{
    match v {
        JsonView::Object(e) => {
            crate::json::lemma_key_index_bounds(e, key, 0);
            match key_index(e, key, 0) {
                Some(i) => lemma_key_index_update(e, key, i, (key, x), 0),
                None => lemma_key_index_push_found(e, key, (key, x), 0),
            }
        },
        _ => {},
    }
}

/// `value[key] = x` leaves every other member as it was.
proof fn lemma_member_other(v: JsonView, key: Seq<char>, x: JsonView, other: Seq<char>)
    requires
        other != key,
    ensures
        member(assign(v, key, x), other) == member(v, other),
{
    match v {
        JsonView::Object(e) => {
            crate::json::lemma_key_index_bounds(e, key, 0);
            crate::json::lemma_key_index_bounds(e, other, 0);
            match key_index(e, key, 0) {
                Some(i) => lemma_key_index_update(e, other, i, (key, x), 0),
                None => {
                    lemma_key_index_push(e, other, (key, x), 0);
                    if let Some(k) = key_index(e, other, 0) {
                        assert(e.push((key, x))[k] == e[k]);
                    }
                },
            }
        },
        JsonView::Null => {
            let s = seq![(key, x)];
            assert(key_index(s, other, 1) is None);
        },
        _ => {},
    }
}

/// Replacing the member at `i` by one of the same name leaves the members
/// of other names as they were.
proof fn lemma_member_update_other(e: Members, i: int, x: (Seq<char>, JsonView), other: Seq<char>)
    requires
        0 <= i < e.len(),
        x.0 == e[i].0,
        e[i].0 != other,
    ensures
        member(JsonView::Object(e.update(i, x)), other) == member(JsonView::Object(e), other),
{
    lemma_key_index_update(e, other, i, x, 0);
    crate::json::lemma_key_index_bounds(e, other, 0);
}

/// Every rule that survives the filter is one the filter keeps.
proof fn lemma_kept_are_kept(rules: Seq<JsonView>)
    ensures
        forall|k: int| 0 <= k < kept_rules(rules).len() ==> keeps_rule(#[trigger] kept_rules(rules)[k]),
    decreases rules.len(),
{
    if rules.len() > 0 {
        let front = kept_rules(rules.drop_last());
        lemma_kept_are_kept(rules.drop_last());
        if keeps_rule(rules.last()) {
            assert forall|k: int| 0 <= k < front.len() + 1 implies keeps_rule(
                #[trigger] front.push(rules.last())[k],
            ) by {
                if k < front.len() {
                    assert(front.push(rules.last())[k] == front[k]);
                }
            }
        }
    }
}

/// The filter keeps a list of rules that it would keep whole.
proof fn lemma_kept_fixed(rules: Seq<JsonView>)
    requires
        forall|k: int| 0 <= k < rules.len() ==> keeps_rule(#[trigger] rules[k]),
    ensures
        kept_rules(rules) == rules,
    decreases rules.len(),
{
    if rules.len() > 0 {
        let front = rules.drop_last();
        assert forall|k: int| 0 <= k < front.len() implies keeps_rule(#[trigger] front[k]) by {
            assert(front[k] == rules[k]);
        }
        lemma_kept_fixed(front);
        assert(keeps_rule(rules[rules.len() - 1]));
        assert(front.push(rules.last()) =~= rules);
    }
}

/// A profile whose rules the filter would leave alone.
spec fn rules_settled(q: JsonView) -> bool {
    match member(q, "rules"@) {
        Some(JsonView::Array(rs)) => kept_rules(rs) == rs,
        _ => true,
    }
}

/// A settings document whose profiles a second migration would leave alone.
spec fn profiles_settled(d: JsonView) -> bool {
    match member(d, "profiles"@) {
        Some(JsonView::Array(ps)) => forall|k: int|
            0 <= k < ps.len() ==> migrated_profile(#[trigger] ps[k], false) == ps[k],
        _ => true,
    }
}

proof fn lemma_settled_unfiltered(q: JsonView)
    requires
        rules_settled(q),
    ensures
        migrated_profile(q, false) == q,
{
    if let JsonView::Object(e) = q {
        crate::json::lemma_key_index_bounds(e, "rules"@, 0);
        if let Some(i) = key_index(e, "rules"@, 0) {
            if let JsonView::Array(rs) = e[i].1 {
                assert(e.update(i, (e[i].0, JsonView::Array(kept_rules(rs)))) =~= e);
            }
        }
    }
}

proof fn lemma_filter_settles(p: JsonView)
    ensures
        rules_settled(migrated_profile(p, false)),
{
    if let JsonView::Object(e) = p {
        crate::json::lemma_key_index_bounds(e, "rules"@, 0);
        if let Some(i) = key_index(e, "rules"@, 0) {
            if let JsonView::Array(rs) = e[i].1 {
                let x = (e[i].0, JsonView::Array(kept_rules(rs)));
                lemma_key_index_update(e, "rules"@, i, x, 0);
                lemma_kept_are_kept(rs);
                lemma_kept_fixed(kept_rules(rs));
            }
        }
    }
}

/// A migrated profile migrates to itself.
proof fn lemma_profile_stable(p: JsonView, legacy: bool)
    ensures
        migrated_profile(migrated_profile(p, legacy), false) == migrated_profile(p, legacy),
{
    let q = migrated_profile(p, false);
    lemma_filter_settles(p);
    if legacy {
        reveal_strlit("scope");
        reveal_strlit("rules");
        assert("scope"@ != "rules"@) by {
            assert("scope"@[0] != "rules"@[0]);
        }
        lemma_member_other(q, "scope"@, global_scope(), "rules"@);
        lemma_settled_unfiltered(assign(q, "scope"@, global_scope()));
    } else {
        lemma_settled_unfiltered(q);
    }
}

/// A document whose profiles are settled and whose schema is current
/// migrates to itself.
proof fn lemma_settled_document(d: JsonView)
    requires
        profiles_settled(d),
        schema_version_of(d) >= CURRENT_SCHEMA_VERSION,
    ensures
        migrated(d) == d,
{
    if let JsonView::Object(e) = d {
        crate::json::lemma_key_index_bounds(e, "profiles"@, 0);
        if let Some(i) = key_index(e, "profiles"@, 0) {
            if let JsonView::Array(ps) = e[i].1 {
                let mapped = ps.map_values(|p: JsonView| migrated_profile(p, false));
                assert(mapped =~= ps);
                assert(e.update(i, (e[i].0, JsonView::Array(mapped))) =~= e);
            }
        }
    }
}

/// A migrated document migrates to itself: the migration applied to a
/// document it has already brought up to the current schema changes
/// nothing, so loading a file that was migrated and saved again gives the
/// same document.
pub proof fn migration_is_idempotent(v: JsonView)
    requires
        migratable(v),
    ensures
        migrated(migrated(v)) == migrated(v),
{
    let legacy = schema_version_of(v) < CURRENT_SCHEMA_VERSION;
    reveal_strlit("schemaVersion");
    reveal_strlit("profiles");
    assert("schemaVersion"@ != "profiles"@) by {
        assert("schemaVersion"@[0] != "profiles"@[0]);
    }
    let with_profiles = match v {
        JsonView::Object(e) => match key_index(e, "profiles"@, 0) {
            Some(i) => match e[i].1 {
                JsonView::Array(ps) => JsonView::Object(
                    e.update(
                        i,
                        (
                            e[i].0,
                            JsonView::Array(ps.map_values(|p: JsonView| migrated_profile(p, legacy))),
                        ),
                    ),
                ),
                _ => v,
            },
            None => v,
        },
        _ => v,
    };
    // The profiles are settled, and the schema version is untouched.
    if let JsonView::Object(e) = v {
        crate::json::lemma_key_index_bounds(e, "profiles"@, 0);
        if let Some(i) = key_index(e, "profiles"@, 0) {
            if let JsonView::Array(ps) = e[i].1 {
                let mapped = ps.map_values(|p: JsonView| migrated_profile(p, legacy));
                let x = (e[i].0, JsonView::Array(mapped));
                lemma_key_index_update(e, "profiles"@, i, x, 0);
                assert forall|k: int| 0 <= k < mapped.len() implies migrated_profile(
                    #[trigger] mapped[k],
                    false,
                ) == mapped[k] by {
                    lemma_profile_stable(ps[k], legacy);
                }
                lemma_member_update_other(e, i, x, "schemaVersion"@);
            }
        }
    }
    assert(profiles_settled(with_profiles));
    assert(schema_version_of(with_profiles) == schema_version_of(v));
    if legacy {
        let m = assign(with_profiles, "schemaVersion"@, current_version());
        lemma_member_assigned(with_profiles, "schemaVersion"@, current_version());
        lemma_member_other(with_profiles, "schemaVersion"@, current_version(), "profiles"@);
        assert(profiles_settled(m));
        lemma_settled_document(m);
    } else {
        lemma_settled_document(with_profiles);
    }
}

/// Putting back a snapshot undoes every change made since it was taken:
/// whatever changes to the two startup values came in between (turning
/// launch at sign-in on or off, any number of times), the values after the
/// restore are the values the snapshot was taken of, and a new snapshot
/// reads the same. So a save that fails after changing the registration
/// leaves it as it was.
pub proof fn restoring_the_snapshot_undoes_the_changes(
    values: StartupValues,
    changes: Seq<RegistryChangeView>,
)
    requires
        values_readable(values),
    ensures
        apply_changes(
            apply_changes(values, changes),
            restore_changes(run_command_of(values), approval_of(values)),
        ) == values,
        run_command_of(
            apply_changes(
                apply_changes(values, changes),
                restore_changes(run_command_of(values), approval_of(values)),
            ),
        ) == run_command_of(values),
        approval_of(
            apply_changes(
                apply_changes(values, changes),
                restore_changes(run_command_of(values), approval_of(values)),
            ),
        ) == approval_of(values),
{
    let changed = apply_changes(values, changes);
    let restore = restore_changes(run_command_of(values), approval_of(values));
    let r0 = restore[0];
    let r1 = restore[1];
    let one = restore.drop_last();
    assert(one.drop_last() =~= Seq::<RegistryChangeView>::empty());
    assert(one.last() == r0);
    assert(apply_changes(changed, one.drop_last()) == changed);
    assert(apply_changes(changed, one) == apply_change(changed, r0));
    let back = apply_changes(changed, restore);
    assert(back == apply_change(apply_change(changed, r0), r1));
    assert forall|k: StartupKey| #[trigger] back.contains_key(k) == values.contains_key(k) && (
    back.contains_key(k) ==> back[k] == values[k]) by {
        match k {
            StartupKey::Run => {
                if values.contains_key(k) {
                    assert(values[k] is Text);
                }
            },
            StartupKey::StartupApproved => {
                if values.contains_key(k) {
                    assert(values[k] is Binary);
                }
            },
        }
    }
    assert(back =~= values);
}

/// A registration read from the startup values is put back by the changes
/// `restore_launch_at_login` plans for it: whatever changes came in between,
/// the values afterwards are the ones it was read from, so reading a new
/// registration gives the same command and approval bytes again.
pub proof fn restoring_a_registration_puts_back_its_values(
    values: StartupValues,
    changes: Seq<RegistryChangeView>,
    registration: LaunchAtLoginRegistration,
)
    requires
        values_readable(values),
        opt_text(registration.command) == run_command_of(values),
        opt_bytes(registration.startup_approved) == approval_of(values),
    ensures
        apply_changes(
            apply_changes(values, changes),
            restore_changes(opt_text(registration.command), opt_bytes(registration.startup_approved)),
        ) == values,
        run_command_of(
            apply_changes(
                apply_changes(values, changes),
                restore_changes(opt_text(registration.command), opt_bytes(registration.startup_approved)),
            ),
        ) == opt_text(registration.command),
        approval_of(
            apply_changes(
                apply_changes(values, changes),
                restore_changes(opt_text(registration.command), opt_bytes(registration.startup_approved)),
            ),
        ) == opt_bytes(registration.startup_approved),
{
    restoring_the_snapshot_undoes_the_changes(values, changes);
}

/// A text that is there holds more than whitespace.
pub open spec fn named(o: Option<String>) -> bool {
    match o {
        Some(v) => !is_blank(v@),
        None => true,
    }
}

pub open spec fn all_named(v: Seq<String>) -> bool {
    forall|i: int| 0 <= i < v.len() ==> !is_blank(#[trigger] v[i]@)
}

/// Plug and Play metadata in which every text that is there is more than
/// whitespace.
pub open spec fn metadata_clean(m: PnpKeyboardMetadata) -> bool {
    &&& named(m.display_name)
    &&& named(m.manufacturer)
    &&& named(m.instance_id)
    &&& named(m.container_id)
    &&& all_named(m.hardware_ids@)
    &&& all_named(m.location_paths@)
}

/// An inventory entry with an identifier, a name and its Raw Input source,
/// whose metadata texts are all more than whitespace.
pub open spec fn entry_well_formed(k: KeyboardDeviceInfo) -> bool {
    &&& k.id@.len() > 0
    &&& k.name@.len() > 0
    &&& k.source@ == "raw_input"@
    &&& named(k.manufacturer)
    &&& named(k.instance_id)
    &&& named(k.container_id)
    &&& all_named(k.hardware_ids@)
    &&& all_named(k.location_paths@)
}

/// The trimmed text of a decoded string is more than whitespace.
proof fn lemma_decode_z_named(u: Seq<u16>)
    ensures
        decode_z(u) matches Some(v) ==> !is_blank(v),
{
    let x = crate::pnp::utf16_decode_lossy(u.subrange(0, crate::pnp::zero_from(u, 0)));
    lemma_trim_bounds(x);
    crate::text::lemma_skip_ws_bounds(x, 0);
    if trim(x).len() > 0 {
        assert(trim(x)[0] == x[crate::text::trim_start_index(x)]);
        assert(!crate::text::is_ws(trim(x)[0]));
    }
}

proof fn lemma_multi_sz_named(u: Seq<u16>, start: int)
    ensures
        forall|i: int| 0 <= i < multi_sz_from(u, start).len() ==> !is_blank(#[trigger] multi_sz_from(u, start)[i]),
    decreases u.len() - start,
{
    if 0 <= start < u.len() {
        crate::pnp::lemma_zero_from_bounds(u, start);
        let end = crate::pnp::zero_from(u, start);
        if end > start {
            lemma_decode_z_named(u.subrange(start, end));
            let here = match decode_z(u.subrange(start, end)) {
                Some(v) => seq![v],
                None => Seq::<Seq<char>>::empty(),
            };
            if end < u.len() {
                lemma_multi_sz_named(u, end + 1);
                let rest = multi_sz_from(u, end + 1);
                let all = here + rest;
                assert(all == multi_sz_from(u, start));
                assert forall|i: int| 0 <= i < all.len() implies !is_blank(#[trigger] all[i]) by {
                    if i >= here.len() {
                        assert(all[i] == rest[i - here.len()]);
                    }
                }
            } else {
                assert(here == multi_sz_from(u, start));
            }
        }
    }
}

proof fn lemma_first_named(c: Seq<Option<Seq<char>>>, i: int)
    ensures
        first_named(c, i) matches Some(n) ==> !is_blank(n),
    decreases c.len() - i,
{
    if 0 <= i < c.len() {
        lemma_first_named(c, i + 1);
    }
}

/// The texts the Plug and Play decoders produce are never blank: a string
/// property is trimmed and dropped when empty, a string list leaves out its
/// blank strings, a GUID is hexadecimal digits and dashes, and the display
/// name is the first candidate that is more than whitespace.
pub proof fn decoded_properties_are_named(property_type: u32, bytes: Seq<u8>, candidates: Seq<Option<Seq<char>>>)
    ensures
        string_property_value(property_type, bytes) matches Some(v) ==> !is_blank(v),
        forall|i: int|
            0 <= i < string_list_property_value(property_type, bytes).len() ==> !is_blank(
                #[trigger] string_list_property_value(property_type, bytes)[i],
            ),
        guid_property_value(property_type, bytes) matches Some(v) ==> !is_blank(v),
        first_named(candidates, 0) matches Some(n) ==> !is_blank(n),
{
    if let Some(u) = crate::pnp::le_units(bytes) {
        lemma_decode_z_named(u);
        lemma_multi_sz_named(u, 0);
    }
    lemma_first_named(candidates, 0);
    if let Some(g) = guid_property_value(property_type, bytes) {
        let b = bytes;
        let data1 = b[0] + b[1] * 0x100 + b[2] * 0x10000 + b[3] * 0x1000000;
        let a = crate::digits::hex_padded(data1 as nat, 8, true);
        reveal_strlit("-");
        assert(g[a.len() as int] == '-');
        assert(!crate::text::is_ws('-'));
    }
}

/// An endpoint built from Raw Input alone is a well-formed entry: its
/// identifier and display name are never empty, and it has no metadata yet.
pub proof fn raw_input_endpoints_are_well_formed(path: Seq<char>, info: RawKeyboardInfo, k: KeyboardDeviceInfo)
    requires
        endpoint_info(path, info, k),
    ensures
        entry_well_formed(k),
{
    reveal_strlit("rawkbd-");
    reveal_strlit("가상 또는 원격 키보드");
    reveal_strlit("HID 키보드 · VID_");
    reveal_strlit("Windows 키보드");
    assert(k.id@.len() >= 7);
    assert(k.hardware_ids@ =~= Seq::<String>::empty());
    assert(k.location_paths@ =~= Seq::<String>::empty());
}

proof fn lemma_enrich_well_formed(ks: Seq<KeyboardDeviceInfo>, meta: Seq<(String, PnpKeyboardMetadata)>)
    requires
        forall|i: int| 0 <= i < ks.len() ==> entry_well_formed(#[trigger] ks[i]),
        forall|j: int| 0 <= j < meta.len() ==> metadata_clean(#[trigger] meta[j].1),
    ensures
        forall|i: int| 0 <= i < enrich(ks, meta).len() ==> entry_well_formed(#[trigger] enrich(ks, meta)[i]),
    decreases ks.len(),
{
    if ks.len() > 0 {
        let rest = ks.drop_first();
        assert forall|i: int| 0 <= i < rest.len() implies entry_well_formed(#[trigger] rest[i]) by {
            assert(rest[i] == ks[i + 1]);
        }
        crate::devices::lemma_entry_for_bounds(meta, lower(ks[0].device_path@), 0);
        match crate::devices::entry_for(meta, lower(ks[0].device_path@), 0) {
            Some(j) => {
                let fewer = meta.remove(j);
                assert forall|q: int| 0 <= q < fewer.len() implies metadata_clean(#[trigger] fewer[q].1) by {
                    if q < j {
                        assert(fewer[q] == meta[q]);
                    } else {
                        assert(fewer[q] == meta[q + 1]);
                    }
                }
                lemma_enrich_well_formed(rest, fewer);
                let head = with_metadata(ks[0], meta[j].1);
                assert(metadata_clean(meta[j].1));
                assert(entry_well_formed(head)) by {
                    if let Some(n) = meta[j].1.display_name {
                        lemma_trim_bounds(n@);
                        if n@.len() == 0 {
                            assert(is_blank(n@));
                        }
                    }
                }
                let e = seq![head] + enrich(rest, fewer);
                assert forall|i: int| 0 <= i < e.len() implies entry_well_formed(#[trigger] e[i]) by {
                    if i > 0 {
                        assert(e[i] == enrich(rest, fewer)[i - 1]);
                    }
                }
            },
            None => {
                lemma_enrich_well_formed(rest, meta);
                let e = seq![ks[0]] + enrich(rest, meta);
                assert forall|i: int| 0 <= i < e.len() implies entry_well_formed(#[trigger] e[i]) by {
                    if i > 0 {
                        assert(e[i] == enrich(rest, meta)[i - 1]);
                    }
                }
            },
        }
    }
}

/// Every entry of the inventory is well formed when the endpoints and the
/// metadata it is built from are: merging, sorting and listing each
/// interface once only pick among the endpoints and fill in metadata.
pub proof fn inventory_entries_are_well_formed(
    ks: Seq<KeyboardDeviceInfo>,
    meta: Seq<(String, PnpKeyboardMetadata)>,
)
    requires
        forall|i: int| 0 <= i < ks.len() ==> entry_well_formed(#[trigger] ks[i]),
        forall|j: int| 0 <= j < meta.len() ==> metadata_clean(#[trigger] meta[j].1),
    ensures
        forall|k: int| 0 <= k < inventory(ks, meta).len() ==> entry_well_formed(#[trigger] inventory(ks, meta)[k]),
{
    inventory_is_sorted_without_repeated_interfaces(ks, meta);
    lemma_enrich_well_formed(ks, meta);
    let e = enrich(ks, meta);
    let inv = inventory(ks, meta);
    assert forall|k: int| 0 <= k < inv.len() implies entry_well_formed(#[trigger] inv[k]) by {
        let i = choose|i: int| 0 <= i < e.len() && #[trigger] inv[k] == #[trigger] e[i];
        assert(entry_well_formed(e[i]));
    }
}

/// Reading a run of backslashes only counts them.
proof fn lemma_read_backslashes(t: Seq<char>, i: int, m: nat, k: nat)
    requires
        0 <= i,
        i + m <= t.len(),
        forall|j: int| i <= j < i + m ==> t[j] == '\\',
    ensures
        read_quoted(t, i, k) == read_quoted(t, i + m, k + m),
    decreases m,
{
    if m > 0 {
        lemma_read_backslashes(t, i + 1, (m - 1) as nat, k + 1);
    }
}

proof fn lemma_prefixed_assoc(a: Seq<char>, b: Seq<char>, o: Option<Seq<char>>)
    ensures
        prefixed(a, prefixed(b, o)) == prefixed(a + b, o),
{
    if let Some(y) = o {
        assert(a + (b + y) =~= (a + b) + y);
    }
}

/// What quoting has written of `s` reads back as `s` without the trailing
/// backslashes it has not written yet, whatever follows.
proof fn lemma_quote_progress_reads_back(s: Seq<char>, r: Seq<char>)
    ensures
        quote_progress(s).0.len() >= 1,
        quote_progress(s).0[0] == '"',
        quote_progress(s).1 <= s.len(),
        forall|j: int| s.len() - quote_progress(s).1 <= j < s.len() ==> s[j] == '\\',
        read_quoted(quote_progress(s).0 + r, 1, 0) == prefixed(
            s.subrange(0, s.len() - quote_progress(s).1),
            read_quoted(quote_progress(s).0 + r, quote_progress(s).0.len() as int, 0),
        ),
    decreases s.len(),
{
    if s.len() == 0 {
        assert(s.subrange(0, 0) =~= Seq::<char>::empty());
        let t = seq!['"'] + r;
        if let Some(y) = read_quoted(t, 1, 0) {
            assert(Seq::<char>::empty() + y =~= y);
        }
    } else {
        let prev = s.drop_last();
        let (out0, p0) = quote_progress(prev);
        let c = s.last();
        let (out, p) = quote_progress(s);
        if c == '\\' {
            lemma_quote_progress_reads_back(prev, r);
            assert(s.subrange(0, s.len() - p) =~= prev.subrange(0, prev.len() - p0));
            assert forall|j: int| s.len() - p <= j < s.len() implies s[j] == '\\' by {
                if j < s.len() - 1 {
                    assert(s[j] == prev[j]);
                }
            }
        } else {
            let unit = if c == '"' {
                backslashes(2 * p0 + 1) + seq!['"']
            } else {
                backslashes(p0) + seq![c]
            };
            assert(out == out0 + unit);
            lemma_quote_progress_reads_back(prev, unit + r);
            let t = out + r;
            assert(out0 + (unit + r) =~= t);
            let n = if c == '"' { 2 * p0 + 1 } else { p0 };
            assert forall|j: int| out0.len() <= j < out0.len() + n implies t[j] == '\\' by {
                assert(t[j] == unit[j - out0.len()]);
            }
            lemma_read_backslashes(t, out0.len() as int, n, 0);
            assert(t[(out0.len() + n) as int] == unit[n as int]);
            assert(out.len() == out0.len() + n + 1);
            let chunk = if c == '"' {
                backslashes(p0) + seq!['"']
            } else {
                backslashes(p0) + seq![c]
            };
            if c == '"' {
                assert((2 * p0 + 1) / 2 == p0);
            }
            assert(read_quoted(t, out0.len() as int, 0) == prefixed(chunk, read_quoted(t, out.len() as int, 0)));
            lemma_prefixed_assoc(prev.subrange(0, prev.len() - p0), chunk, read_quoted(t, out.len() as int, 0));
            assert(prev.subrange(0, prev.len() - p0) + chunk =~= s) by {
                assert(prev.subrange(prev.len() - p0, prev.len() as int) =~= backslashes(p0));
                assert(prev =~= prev.subrange(0, prev.len() - p0) + prev.subrange(prev.len() - p0, prev.len() as int));
            }
            assert(s.subrange(0, s.len() - 0) =~= s);
        }
    }
}

/// Quoting an argument is undone by the way Windows reads a quoted
/// command-line argument: the quoted form reads back as the argument,
/// whatever quotes and backslashes it holds.
pub proof fn quoted_arguments_read_back_unchanged(s: Seq<char>)
    ensures
        read_argument(quoted_argument(s)) == Some(s),
{
    let (out, p) = quote_progress(s);
    let r = backslashes(2 * p) + seq!['"'];
    lemma_quote_progress_reads_back(s, r);
    let t = out + r;
    assert(t =~= quoted_argument(s));
    assert forall|j: int| out.len() <= j < out.len() + 2 * p implies t[j] == '\\' by {
        assert(t[j] == r[j - out.len()]);
    }
    lemma_read_backslashes(t, out.len() as int, 2 * p, 0);
    assert(t[(out.len() + 2 * p) as int] == '"');
    assert((2 * p) / 2 == p);
    assert(read_quoted(t, out.len() as int, 0) == Some(backslashes(p)));
    assert(s.subrange(0, s.len() - p) + backslashes(p) =~= s);
}

/// The filter that migration applies to a profile's rules keeps exactly
/// the rules whose action kind was not removed, in their order.
pub open spec fn without_removed_rules(rules: Seq<JsonView>) -> Seq<JsonView> {
    rules.filter(|r: JsonView| keeps_rule(r))
}

proof fn lemma_kept_is_filter(rules: Seq<JsonView>)
    ensures
        kept_rules(rules) == without_removed_rules(rules),
    decreases rules.len(),
{
    reveal(Seq::filter);
    if rules.len() > 0 {
        lemma_kept_is_filter(rules.drop_last());
        reveal(Seq::filter);
        let f = |r: JsonView| keeps_rule(r);
        assert(rules.filter(f) == (if f(rules.last()) {
            rules.drop_last().filter(f).push(rules.last())
        } else {
            rules.drop_last().filter(f)
        }));
    }
}

/// What migration does to one profile: its rules lose exactly those whose
/// action kind was removed, the others keeping their order; coming from an
/// older schema its scope becomes global, otherwise the scope stays.
pub proof fn migrated_profiles_drop_removed_rules(p: JsonView, legacy: bool)
    ensures
        match member(p, "rules"@) {
            Some(JsonView::Array(rs)) => member(migrated_profile(p, legacy), "rules"@) == Some(
                JsonView::Array(without_removed_rules(rs)),
            ),
            other => member(migrated_profile(p, legacy), "rules"@) == other,
        },
        legacy && assignable(p) ==> member(migrated_profile(p, legacy), "scope"@) == Some(
            global_scope(),
        ),
        !legacy ==> member(migrated_profile(p, legacy), "scope"@) == member(p, "scope"@),
{
    reveal_strlit("scope");
    reveal_strlit("rules");
    assert("scope"@ != "rules"@) by {
        assert("scope"@[0] != "rules"@[0]);
    }
    let filtered = migrated_profile(p, false);
    if let JsonView::Object(e) = p {
        crate::json::lemma_key_index_bounds(e, "rules"@, 0);
        if let Some(i) = key_index(e, "rules"@, 0) {
            if let JsonView::Array(rs) = e[i].1 {
                let x = (e[i].0, JsonView::Array(kept_rules(rs)));
                lemma_key_index_update(e, "rules"@, i, x, 0);
                lemma_member_update_other(e, i, x, "scope"@);
                lemma_kept_is_filter(rs);
            }
        }
    }
    assert(member(filtered, "scope"@) == member(p, "scope"@));
    if legacy {
        lemma_member_other(filtered, "scope"@, global_scope(), "rules"@);
        if assignable(p) {
            lemma_member_assigned(filtered, "scope"@, global_scope());
        }
    }
}

/// Migration drops a rule only when its action is of one of the seven
/// removed kinds (`macro`, `send_text`, `auto_click`, `launch`,
/// `clipboard_slot`, `window`, `switch_profile`): a rule whose action is of
/// a current kind (`send_keys`, `send_mouse`), or names no kind, is kept,
/// and the kept rules keep their order.
pub proof fn migration_drops_only_removed_action_kinds(p: JsonView, legacy: bool, rs: Seq<JsonView>)
    requires
        member(p, "rules"@) == Some(JsonView::Array(rs)),
    ensures
        member(migrated_profile(p, legacy), "rules"@) == Some(
            JsonView::Array(
                rs.filter(
                    |r: JsonView|
                        match member(r, "action"@) {
                            Some(a) => match member(a, "kind"@) {
                                Some(JsonView::Text(kind)) => !(kind == "macro"@ || kind
                                    == "send_text"@ || kind == "auto_click"@ || kind == "launch"@
                                    || kind == "clipboard_slot"@ || kind == "window"@ || kind
                                    == "switch_profile"@),
                                _ => true,
                            },
                            None => true,
                        },
                ),
            ),
        ),
{
    migrated_profiles_drop_removed_rules(p, legacy);
    let f1 = |r: JsonView| keeps_rule(r);
    let f2 = |r: JsonView|
        match member(r, "action"@) {
            Some(a) => match member(a, "kind"@) {
                Some(JsonView::Text(kind)) => !(kind == "macro"@ || kind == "send_text"@ || kind
                    == "auto_click"@ || kind == "launch"@ || kind == "clipboard_slot"@ || kind
                    == "window"@ || kind == "switch_profile"@),
                _ => true,
            },
            None => true,
        };
    assert(f1 =~= f2);
    assert(without_removed_rules(rs) == rs.filter(f2));
}

/// What migration does to a document: the profiles list has every profile
/// migrated in place; a document of an older schema is stamped with the
/// current schema version, and a current one keeps its version.
pub proof fn migration_updates_schema_and_profiles(v: JsonView)
    requires
        migratable(v),
    ensures
        schema_version_of(v) < CURRENT_SCHEMA_VERSION ==> schema_version_of(migrated(v))
            == CURRENT_SCHEMA_VERSION,
        schema_version_of(v) >= CURRENT_SCHEMA_VERSION ==> member(migrated(v), "schemaVersion"@)
            == member(v, "schemaVersion"@),
        match member(v, "profiles"@) {
            Some(JsonView::Array(ps)) => member(migrated(v), "profiles"@) == Some(
                JsonView::Array(
                    ps.map_values(
                        |p: JsonView| migrated_profile(p, schema_version_of(v) < CURRENT_SCHEMA_VERSION),
                    ),
                ),
            ),
            _ => member(migrated(v), "profiles"@) is None || member(migrated(v), "profiles"@)
                == member(v, "profiles"@),
        },
{
    let legacy = schema_version_of(v) < CURRENT_SCHEMA_VERSION;
    reveal_strlit("schemaVersion");
    reveal_strlit("profiles");
    assert("schemaVersion"@ != "profiles"@) by {
        assert("schemaVersion"@[0] != "profiles"@[0]);
    }
    let with_profiles = match v {
        JsonView::Object(e) => match key_index(e, "profiles"@, 0) {
            Some(i) => match e[i].1 {
                JsonView::Array(ps) => JsonView::Object(
                    e.update(
                        i,
                        (
                            e[i].0,
                            JsonView::Array(ps.map_values(|p: JsonView| migrated_profile(p, legacy))),
                        ),
                    ),
                ),
                _ => v,
            },
            None => v,
        },
        _ => v,
    };
    if let JsonView::Object(e) = v {
        crate::json::lemma_key_index_bounds(e, "profiles"@, 0);
        if let Some(i) = key_index(e, "profiles"@, 0) {
            if let JsonView::Array(ps) = e[i].1 {
                let mapped = ps.map_values(|p: JsonView| migrated_profile(p, legacy));
                let x = (e[i].0, JsonView::Array(mapped));
                lemma_key_index_update(e, "profiles"@, i, x, 0);
                lemma_member_update_other(e, i, x, "schemaVersion"@);
            }
        }
    }
    assert(member(with_profiles, "schemaVersion"@) == member(v, "schemaVersion"@));
    if legacy {
        lemma_member_assigned(with_profiles, "schemaVersion"@, current_version());
        lemma_member_other(with_profiles, "schemaVersion"@, current_version(), "profiles"@);
    }
}

/// The guard's state after a run of window messages.
pub open spec fn guard_after(state: GuardState, messages: Seq<(u32, usize, isize)>) -> GuardState
    decreases messages.len(),
{
    if messages.len() == 0 {
        state
    } else {
        let m = messages.last();
        guard_step(guard_after(state, messages.drop_last()), m.0, m.1, m.2).0
    }
}

/// An active guard stays active until the application loses activation:
/// after any run of messages without `WM_ACTIVATEAPP(FALSE)`, a system key
/// transition is recorded (and swallowed), and a late menu message is
/// swallowed, `Alt+Space` as a window-menu command being recorded first.
pub proof fn active_guard_records_and_swallows(
    state: GuardState,
    messages: Seq<(u32, usize, isize)>,
    message: u32,
    wparam: usize,
    lparam: isize,
)
    requires
        state.capture_active,
        forall|k: int| 0 <= k < messages.len() ==> !ends_capture(#[trigger] messages[k].0, messages[k].1),
        !ends_capture(message, wparam),
    ensures
        guard_after(state, messages).capture_active,
        guard_step(guard_after(state, messages), message, wparam, lparam).0.capture_active,
        (message == WM_SYSKEYDOWN || message == WM_SYSKEYUP) ==> guard_step(
            guard_after(state, messages),
            message,
            wparam,
            lparam,
        ).1 is RecordSystemKey,
        (message == WM_SYSCOMMAND || message == WM_SYSCHAR || message == WM_SYSDEADCHAR || message
            == WM_MENUCHAR || message == WM_CONTEXTMENU) ==> (guard_step(
            guard_after(state, messages),
            message,
            wparam,
            lparam,
        ).1 is Swallow || guard_step(guard_after(state, messages), message, wparam, lparam).1 is RecordAltSpace),
    decreases messages.len(),
{
    if messages.len() > 0 {
        let front = messages.drop_last();
        assert forall|k: int| 0 <= k < front.len() implies !ends_capture(#[trigger] front[k].0, front[k].1) by {
            assert(front[k] == messages[k]);
        }
        let m = messages.last();
        assert(!ends_capture(m.0, m.1));
        active_guard_records_and_swallows(state, front, m.0, m.1, m.2);
    }
}

/// A guard that is not capturing stays so through any run of messages.
proof fn lemma_inactive_guard_stays_inactive(state: GuardState, messages: Seq<(u32, usize, isize)>)
    requires
        !state.capture_active,
    ensures
        !guard_after(state, messages).capture_active,
    decreases messages.len(),
{
    if messages.len() > 0 {
        lemma_inactive_guard_stays_inactive(state, messages.drop_last());
    }
}

/// Once turned on, the guard captures until the application loses
/// activation: after any run of messages without `WM_ACTIVATEAPP(FALSE)`, a
/// system key transition is recorded (and swallowed), and a late menu
/// message is swallowed, `Alt+Space` as a window-menu command being
/// recorded first.
pub proof fn activated_guard_records_and_swallows(
    state: GuardState,
    messages: Seq<(u32, usize, isize)>,
    message: u32,
    wparam: usize,
    lparam: isize,
)
    requires
        forall|k: int| 0 <= k < messages.len() ==> !ends_capture(#[trigger] messages[k].0, messages[k].1),
        !ends_capture(message, wparam),
    ensures
        guard_after(activated(state, true), messages).capture_active,
        (message == WM_SYSKEYDOWN || message == WM_SYSKEYUP) ==> guard_step(
            guard_after(activated(state, true), messages),
            message,
            wparam,
            lparam,
        ).1 is RecordSystemKey,
        (message == WM_SYSCOMMAND || message == WM_SYSCHAR || message == WM_SYSDEADCHAR || message
            == WM_MENUCHAR || message == WM_CONTEXTMENU) ==> (guard_step(
            guard_after(activated(state, true), messages),
            message,
            wparam,
            lparam,
        ).1 is Swallow || guard_step(guard_after(activated(state, true), messages), message, wparam, lparam).1 is RecordAltSpace),
{
    active_guard_records_and_swallows(activated(state, true), messages, message, wparam, lparam);
}

/// Turned off, the guard forgets the Alt key and lets every message through
/// to Windows unrecorded, whatever messages come after: it records and
/// swallows nothing, and only passes on the end of a capture when the
/// application loses activation.
pub proof fn deactivated_guard_lets_messages_through(
    state: GuardState,
    messages: Seq<(u32, usize, isize)>,
    message: u32,
    wparam: usize,
    lparam: isize,
)
    ensures
        activated(state, false).last_alt_side == 0,
        !guard_after(activated(state, false), messages).capture_active,
        guard_step(guard_after(activated(state, false), messages), message, wparam, lparam).1
            == GuardAction::Default || guard_step(
            guard_after(activated(state, false), messages),
            message,
            wparam,
            lparam,
        ).1 == GuardAction::EndCapture,
{
    lemma_inactive_guard_stays_inactive(activated(state, false), messages);
    inactive_guard_lets_messages_through(
        guard_after(activated(state, false), messages),
        message,
        wparam,
        lparam,
    );
}

/// The stage a save reaches after a run of events.
pub open spec fn save_run(stage: SaveStage, events: Seq<SaveEvent>) -> SaveStage
    decreases events.len(),
{
    if events.len() == 0 {
        stage
    } else {
        save_step(save_run(stage, events.drop_last()), events.last()).0
    }
}

/// The snapshot a save holds to undo a change of the registration was the
/// one it read.
proof fn lemma_save_snapshot_was_read(events: Seq<SaveEvent>)
    ensures
        match save_run(SaveStage::Start, events) {
            SaveStage::Registering { snapshot } => exists|k: int|
                0 <= k < events.len() && #[trigger] events[k] == SaveEvent::Snapshot(Ok(snapshot)),
            SaveStage::Saving { snapshot: Some(s) } => exists|k: int|
                0 <= k < events.len() && #[trigger] events[k] == SaveEvent::Snapshot(Ok(s)),
            _ => true,
        },
    decreases events.len(),
{
    if events.len() > 0 {
        let front = events.drop_last();
        lemma_save_snapshot_was_read(front);
        let last = events.last();
        assert(events[events.len() - 1] == last);
        match save_run(SaveStage::Start, front) {
            SaveStage::Registering { snapshot } => {
                let k = choose|k: int| 0 <= k < front.len() && #[trigger] front[k] == SaveEvent::Snapshot(
                    Ok(snapshot),
                );
                assert(events[k] == front[k]);
            },
            SaveStage::Saving { snapshot: Some(s) } => {
                let k = choose|k: int| 0 <= k < front.len() && #[trigger] front[k] == SaveEvent::Snapshot(
                    Ok(s),
                );
                assert(events[k] == front[k]);
            },
            _ => {},
        }
    }
}

/// A save changes the startup registration only once it has read it, and
/// a save that fails after the change asks to put back exactly the
/// registration it read; the error it then reports is the save's, joined by
/// the rollback's when putting the registration back fails too. With
/// `restoring_the_snapshot_undoes_the_changes`, a failed save leaves the
/// registration as it was.
pub proof fn failed_save_restores_the_registration_it_read(
    events: Seq<SaveEvent>,
    next: SaveEvent,
    error: RepositoryError,
    restored: Result<(), LaunchAtLoginError>,
)
    ensures
        save_step(save_run(SaveStage::Start, events), next).1 is SetLaunchAtLogin ==> next matches SaveEvent::Snapshot(Ok(_)),
        match save_run(SaveStage::Start, events) {
            SaveStage::Saving { snapshot: Some(s) } => (exists|k: int|
                0 <= k < events.len() && #[trigger] events[k] == SaveEvent::Snapshot(Ok(s)))
                && save_step(save_run(SaveStage::Start, events), SaveEvent::Saved(Err(error)))
                == (SaveStage::RollingBack { original: error }, SaveAction::Restore(s)),
            _ => true,
        },
        save_step(SaveStage::RollingBack { original: error }, SaveEvent::Restored(restored)) == (
            SaveStage::Finished,
            SaveAction::Fail(
                match restored {
                    Ok(()) => ServiceError::Repository(error),
                    Err(e) => ServiceError::StartupRollback { original: error, rollback: e },
                },
            ),
        ),
{
    lemma_save_snapshot_was_read(events);
}

/// Every key name the keyboard hook reports for a virtual-key code up to
/// `0xFF` can be injected: `name_to_key_spec` accepts what `vk_name` gives,
/// whatever the scan code and flags. A code with no name of its own is
/// reported as `VK_` and two hexadecimal digits, which injection reads back.
pub proof fn every_reported_key_name_can_be_injected(vk: u32, scan_code: u32, flags: u32)
    requires
        vk <= 0xFF,
    ensures
        crate::keymap::key_spec_of(crate::keymap::key_name_of(vk, scan_code, flags)) is Some,
{
    crate::key_laws::lemma_reported_names_are_keys(vk, scan_code, flags);
}

/// A system key that the application's own window receives while a
/// capture is active is reported as handled and comes out of the capturing
/// session's next poll as its last event, named as the hook names keys;
/// when the queue was full, that poll reports lost events instead. While no
/// capture is active the key is not recorded and nothing changes.
pub proof fn window_system_key_reaches_the_capture(
    c: CaptureView,
    virtual_key: u32,
    scan_code: u32,
    extended: bool,
    is_key_down: bool,
)
    ensures
        system_key_recorded(c, virtual_key, scan_code, extended, is_key_down).1 == c.active,
        !c.active ==> system_key_recorded(c, virtual_key, scan_code, extended, is_key_down).0 == c,
        c.active && c.queue.len() < CAPTURE_QUEUE_CAPACITY ==> ({
            let poll = drained(
                system_key_recorded(c, virtual_key, scan_code, extended, is_key_down).0,
                c.session_id,
            ).1;
            &&& poll.active
            &&& poll.events.len() > 0
            &&& poll.events.last() == system_key_event(
                c.session_id,
                virtual_key,
                scan_code,
                extended,
                is_key_down,
            )
        }),
        c.active && c.queue.len() >= CAPTURE_QUEUE_CAPACITY ==> ({
            let poll = drained(
                system_key_recorded(c, virtual_key, scan_code, extended, is_key_down).0,
                c.session_id,
            ).1;
            poll.active && poll.overflowed
        }),
{
    let e = system_key_event(c.session_id, virtual_key, scan_code, extended, is_key_down);
    if c.active && c.queue.len() < CAPTURE_QUEUE_CAPACITY {
        let q = c.queue.push(e);
        assert(q.drop_last() =~= c.queue);
        assert(session_events(q, c.session_id) == session_events(c.queue, c.session_id).push(e));
    }
}

/// Ending the active capture, as when the application loses activation,
/// leaves no capture active and nothing queued, and keeps the session
/// number: that session's next poll reports it inactive with no events and
/// no loss, and a system key a window then receives is not recorded.
pub proof fn ended_capture_records_nothing(
    c: CaptureView,
    virtual_key: u32,
    scan_code: u32,
    extended: bool,
    is_key_down: bool,
)
    ensures
        force_ended(c).session_id == c.session_id,
        !force_ended(c).active,
        force_ended(c).queue.len() == 0,
        drained(force_ended(c), c.session_id).1 == (KeyCaptureDrainView {
            session_id: c.session_id,
            active: false,
            overflowed: false,
            events: Seq::empty(),
        }),
        system_key_recorded(force_ended(c), virtual_key, scan_code, extended, is_key_down) == (
        force_ended(c), false),
{
    assert(session_events(Seq::<KeyCaptureEventView>::empty(), c.session_id) =~= Seq::<
        KeyCaptureEventView,
    >::empty());
}

/// Naming a hooked key and injecting the name gives back that key: the
/// injected key has the virtual-key code the hook reported, with three
/// kinds of exception. The generic Shift, Control and Alt codes come back
/// as the side the event came from (right Shift by its scan code, right
/// Control and Alt by the extended flag); the Japanese and Brazilian keys
/// that share a code with another key (`IntlRo`, `IntlYen`,
/// `IntlBackslash`) come back by their scan codes.
pub proof fn reported_key_names_inject_the_same_key(vk: u32, scan_code: u32, flags: u32)
    requires
        vk <= 0xFF,
    ensures
        key_spec_of(key_name_of(vk, scan_code, flags)) is Some,
        !(vk == 0x10 || vk == 0x11 || vk == 0x12 || vk == 0xE2 || (vk == 0xDC && scan_code == 0x7D))
            ==> key_spec_of(key_name_of(vk, scan_code, flags))->0.vk == vk
            && key_spec_of(key_name_of(vk, scan_code, flags))->0.scan == 0,
        vk == 0x10 ==> key_spec_of(key_name_of(vk, scan_code, flags))->0.vk == if scan_code == 0x36 {
            0xA1u16
        } else {
            0xA0u16
        },
        vk == 0x11 ==> key_spec_of(key_name_of(vk, scan_code, flags))->0.vk == if flags & 1 != 0 {
            0xA3u16
        } else {
            0xA2u16
        },
        vk == 0x12 ==> key_spec_of(key_name_of(vk, scan_code, flags))->0.vk == if flags & 1 != 0 {
            0xA5u16
        } else {
            0xA4u16
        },
        (vk == 0xE2 || (vk == 0xDC && scan_code == 0x7D)) ==> key_spec_of(
            key_name_of(vk, scan_code, flags),
        )->0.vk == 0 && key_spec_of(key_name_of(vk, scan_code, flags))->0.scan == if scan_code
            == 0x73 || scan_code == 0x7D {
            scan_code as u16
        } else {
            0x56u16
        },
{
    crate::key_laws::lemma_reported_names_are_keys(vk, scan_code, flags);
}

/// The hook message with which a mouse button goes down, and its
/// `mouseData` word: for a side button, `XBUTTON1` or `XBUTTON2` in the
/// high word.
pub open spec fn button_down_message(b: crate::model::MouseButton) -> (u32, u32) {
    match b {
        crate::model::MouseButton::Left => (crate::hook::WM_LBUTTONDOWN, 0),
        crate::model::MouseButton::Right => (crate::hook::WM_RBUTTONDOWN, 0),
        crate::model::MouseButton::Middle => (crate::hook::WM_MBUTTONDOWN, 0),
        crate::model::MouseButton::X1 => (crate::hook::WM_XBUTTONDOWN, 0x0001_0000),
        crate::model::MouseButton::X2 => (crate::hook::WM_XBUTTONDOWN, 0x0002_0000),
    }
}

/// A compiled mouse trigger waits for exactly one key: the one the mouse
/// hook reports when that button goes down.
pub proof fn compiled_mouse_trigger_is_the_hooked_button(s: Settings, i: int)
    requires
        compile_result(s) is Ok,
        0 <= i < candidates(s).len(),
        candidates(s)[i].1.trigger is Mouse,
    ensures
        compile_result(s)->Ok_0.rules.len() == candidates(s).len(),
        crate::hook::mouse_key_of(
            button_down_message(candidates(s)[i].1.trigger->button).0,
            button_down_message(candidates(s)[i].1.trigger->button).1,
        ) matches Some((k, phase)) && phase == crate::engine::KeyPhase::Down
            && compile_result(s)->Ok_0.rules[i].chord == seq![k],
{
    let b = candidates(s)[i].1.trigger->button;
    let m = button_down_message(b);
    assert((0x0001_0000u32 >> 16u32) as u16 == 1) by (bit_vector);
    assert((0x0002_0000u32 >> 16u32) as u16 == 2) by (bit_vector);
    let k = crate::engine::mouse_key(b);
    crate::key_laws::lemma_mouse_names_normal(k);
    let one = seq![k];
    assert(normalized_all(one) =~= one);
    lemma_sorted_of(one);
    assert(compile_result(s)->Ok_0.rules[i] == compiled_view(candidates(s)[i]));
}

/// A compiled rule waits for this event: it is for this phase of a key,
/// the key is one of its keys, it applies in the context, and all its keys
/// are pressed.
pub open spec fn rule_waits_for(
    r: crate::engine::CompiledRuleView,
    key: Seq<char>,
    phase: KeyPhase,
    pressed: Set<Seq<char>>,
    ctx: MatchContext,
) -> bool {
    &&& r.phase == phase
    &&& exists|k: int| 0 <= k < r.chord.len() && crate::keys::key_matches(key, #[trigger] r.chord[k])
    &&& crate::engine::scope_matches(r.scope, ctx)
    &&& forall|k: int| 0 <= k < r.chord.len() ==> pressed_contains(pressed, #[trigger] r.chord[k])
}

proof fn lemma_first_waiting_rule(
    rules: Seq<crate::engine::CompiledRuleView>,
    j: int,
    i: int,
    key: Seq<char>,
    phase: KeyPhase,
    pressed: Set<Seq<char>>,
    ctx: MatchContext,
)
    requires
        0 <= j <= i < rules.len(),
        rule_waits_for(rules[i], key, phase, pressed, ctx),
        forall|m: int| j <= m < i ==> !rule_waits_for(#[trigger] rules[m], key, phase, pressed, ctx),
    ensures
        crate::engine::first_firing(rules, j, key, phase, pressed, ctx) == Some(i),
    decreases i - j,
{
    if j < i {
        assert(!rule_waits_for(rules[j], key, phase, pressed, ctx));
        lemma_first_waiting_rule(rules, j + 1, i, key, phase, pressed, ctx);
    }
}

/// A physical key-up that no key-down consumed, while the engine runs,
/// fires the first rule that waits for the release of that key: the
/// dispatch invokes that rule's action once, and the original key-up is
/// suppressed unless the rule passes it through. The key is no longer
/// pressed afterwards.
pub proof fn key_up_fires_the_first_release_rule(
    e: EngineView,
    event: KeyEvent,
    ctx: MatchContext,
    i: int,
)
    requires
        event.origin == EventOrigin::Physical,
        event.phase == KeyPhase::Up,
        !e.paused,
        !e.consumed.contains(normalize_key(event.key@)),
        0 <= i < e.rules.rules.len(),
        rule_waits_for(e.rules.rules[i], normalize_key(event.key@), KeyPhase::Up, e.pressed, ctx),
        forall|j: int|
            0 <= j < i ==> !rule_waits_for(
                #[trigger] e.rules.rules[j],
                normalize_key(event.key@),
                KeyPhase::Up,
                e.pressed,
                ctx,
            ),
    ensures
        step(e, event, ctx).1.suppress_original == !e.rules.rules[i].pass_through,
        !step(e, event, ctx).1.emergency_stop,
        step(e, event, ctx).1.actions.len() == 1,
        step(e, event, ctx).1.actions[0].profile_id == e.rules.rules[i].profile_id,
        step(e, event, ctx).1.actions[0].rule_id == e.rules.rules[i].rule_id,
        step(e, event, ctx).1.actions[0].action == e.rules.rules[i].action,
        step(e, event, ctx).1.actions[0].phase == DispatchActionPhase::Invoke,
        !step(e, event, ctx).0.pressed.contains(normalize_key(event.key@)),
{
    lemma_first_waiting_rule(
        e.rules.rules,
        0,
        i,
        normalize_key(event.key@),
        KeyPhase::Up,
        e.pressed,
        ctx,
    );
}

/// A physical key-down, while the engine runs, of a key that holds no
/// output and was not consumed, and that does not complete the emergency
/// chord, fires the first rule that waits for the press of that key: the
/// dispatch carries that rule's action once, held down until the key goes
/// up when the rule is a held remap and invoked otherwise, and the original
/// key-down is suppressed unless the rule passes it through; a suppressed
/// key's key-up is suppressed too.
pub proof fn key_down_fires_the_first_press_rule(
    e: EngineView,
    event: KeyEvent,
    ctx: MatchContext,
    i: int,
)
    requires
        event.origin == EventOrigin::Physical,
        event.phase == KeyPhase::Down,
        !e.paused,
        !e.consumed.contains(normalize_key(event.key@)),
        !e.held.contains_key(normalize_key(event.key@)),
        !(forall|k: int|
            0 <= k < e.rules.emergency.len() ==> pressed_contains(
                e.pressed.insert(normalize_key(event.key@)),
                #[trigger] e.rules.emergency[k],
            )),
        0 <= i < e.rules.rules.len(),
        rule_waits_for(
            e.rules.rules[i],
            normalize_key(event.key@),
            KeyPhase::Down,
            e.pressed.insert(normalize_key(event.key@)),
            ctx,
        ),
        forall|j: int|
            0 <= j < i ==> !rule_waits_for(
                #[trigger] e.rules.rules[j],
                normalize_key(event.key@),
                KeyPhase::Down,
                e.pressed.insert(normalize_key(event.key@)),
                ctx,
            ),
    ensures
        step(e, event, ctx).1.suppress_original == !e.rules.rules[i].pass_through,
        !step(e, event, ctx).1.emergency_stop,
        step(e, event, ctx).1.actions.len() == 1,
        step(e, event, ctx).1.actions[0].profile_id == e.rules.rules[i].profile_id,
        step(e, event, ctx).1.actions[0].rule_id == e.rules.rules[i].rule_id,
        step(e, event, ctx).1.actions[0].action == e.rules.rules[i].action,
        step(e, event, ctx).1.actions[0].phase == if e.rules.rules[i].stateful_remap {
            DispatchActionPhase::Down
        } else {
            DispatchActionPhase::Invoke
        },
        step(e, event, ctx).0.pressed.contains(normalize_key(event.key@)),
        step(e, event, ctx).0.consumed.contains(normalize_key(event.key@))
            == !e.rules.rules[i].pass_through,
{
    lemma_first_waiting_rule(
        e.rules.rules,
        0,
        i,
        normalize_key(event.key@),
        KeyPhase::Down,
        e.pressed.insert(normalize_key(event.key@)),
        ctx,
    );
}

/// Each compiled rule carries its rule: the profile and rule identifiers,
/// the action and the pass-through option are the rule's own, and it waits
/// for a key-down when the trigger is a press and for a key-up when it is a
/// release.
pub proof fn compiled_rules_follow_their_rules(s: Settings, i: int)
    requires
        compile_result(s) is Ok,
        0 <= i < candidates(s).len(),
    ensures
        compile_result(s)->Ok_0.rules.len() == candidates(s).len(),
        compile_result(s)->Ok_0.rules[i].profile_id == candidates(s)[i].0.id,
        compile_result(s)->Ok_0.rules[i].rule_id == candidates(s)[i].1.id,
        compile_result(s)->Ok_0.rules[i].action == candidates(s)[i].1.action@,
        compile_result(s)->Ok_0.rules[i].pass_through == candidates(s)[i].1.options.pass_through_original,
        compile_result(s)->Ok_0.rules[i].phase == match candidates(s)[i].1.trigger {
            crate::model::Trigger::Keyboard { phase, .. } => match phase {
                crate::model::TriggerPhase::Press => KeyPhase::Down,
                crate::model::TriggerPhase::Release => KeyPhase::Up,
            },
            crate::model::Trigger::Mouse { phase, .. } => match phase {
                crate::model::TriggerPhase::Press => KeyPhase::Down,
                crate::model::TriggerPhase::Release => KeyPhase::Up,
            },
        },
        candidates(s)[i].1.trigger matches crate::model::Trigger::Keyboard { chord, .. } ==> (
        crate::keys::sorted_strict(compile_result(s)->Ok_0.rules[i].chord) && forall|x: Seq<char>|
            compile_result(s)->Ok_0.rules[i].chord.contains(x) <==> exists|j: int|
                0 <= j < chord@.len() && x == normalize_key(#[trigger] chord@[j]@)),
{
    assert(compile_result(s)->Ok_0.rules[i] == compiled_view(candidates(s)[i]));
    if let crate::model::Trigger::Keyboard { chord, .. } = candidates(s)[i].1.trigger {
        let n = normalized_all(texts(chord@));
        crate::keys::lemma_sorted_of_set(n);
        let c = compile_result(s)->Ok_0.rules[i].chord;
        assert(c == sorted_of(n.to_set()));
        assert forall|x: Seq<char>| c.contains(x) <==> exists|j: int|
            0 <= j < chord@.len() && x == normalize_key(#[trigger] chord@[j]@) by {
            if c.contains(x) {
                assert(c.to_set().contains(x));
                assert(n.to_set().contains(x));
                let j = choose|j: int| 0 <= j < n.len() && n[j] == x;
                assert(n[j] == normalize_key(chord@[j]@));
            }
            if exists|j: int| 0 <= j < chord@.len() && x == normalize_key(#[trigger] chord@[j]@) {
                let j = choose|j: int| 0 <= j < chord@.len() && x == normalize_key(#[trigger] chord@[j]@);
                assert(n[j] == x);
                assert(n.to_set().contains(x));
                assert(c.to_set().contains(x));
            }
        }
    }
}

/// A list of keys that holds at least one key and no blank key.
pub open spec fn keys_usable(chord: Seq<String>) -> bool {
    chord.len() > 0 && forall|c: int| 0 <= c < chord.len() ==> !is_blank(#[trigger] chord[c]@)
}

/// A rule that validation has no reason to refuse: usable trigger and
/// output keys, and execution limits of at least one within the engine's.
pub open spec fn rule_acceptable(s: Settings, rule: Rule) -> bool {
    &&& (rule.trigger matches crate::model::Trigger::Keyboard { chord, .. } ==> keys_usable(chord@))
    &&& 1 <= rule.options.max_executions <= s.engine.max_rule_executions
    &&& 1 <= rule.options.timeout_ms <= s.engine.max_rule_duration_ms
    &&& (rule.action matches crate::model::Action::SendKeys { chord } ==> keys_usable(chord@))
}

/// A profile that validation has no reason to refuse: a name, global scope,
/// keyboard selectors that each name something, and acceptable rules with
/// distinct identifiers.
pub open spec fn profile_acceptable(s: Settings, p: Profile) -> bool {
    &&& !is_blank(p.name@)
    &&& p.scope is Global
    &&& forall|k: int|
        0 <= k < p.activation.connected_keyboards@.len() ==> !crate::validation::selector_is_unstable(
            #[trigger] p.activation.connected_keyboards@[k],
        )
    &&& forall|m: int, k: int|
        0 <= m < k < p.rules@.len() ==> (#[trigger] p.rules@[m]).id != (#[trigger] p.rules@[k]).id
    &&& forall|k: int| 0 <= k < p.rules@.len() ==> rule_acceptable(s, #[trigger] p.rules@[k])
}

proof fn lemma_usable_keys(chord: Seq<String>)
    requires
        keys_usable(chord),
    ensures
        !crate::validation::chord_is_unusable(texts(chord)),
{
    assert forall|k: int| 0 <= k < texts(chord).len() implies !is_blank(#[trigger] texts(chord)[k]) by {
        assert(texts(chord)[k] == chord[k]@);
    }
}

proof fn lemma_acceptable_rules(s: Settings, p: Profile, j: int)
    requires
        profile_acceptable(s, p),
        0 <= j,
    ensures
        crate::validation::rules_problem(s, p, j) is None,
    decreases p.rules@.len() - j,
{
    if j < p.rules@.len() {
        let rule = p.rules@[j];
        assert(rule_acceptable(s, rule));
        if let crate::model::Trigger::Keyboard { chord, .. } = rule.trigger {
            lemma_usable_keys(chord@);
        }
        if let crate::model::Action::SendKeys { chord } = rule.action {
            lemma_usable_keys(chord@);
        }
        assert(!exists|k: int| 0 <= k < j && #[trigger] p.rules@[k].id == rule.id);
        assert(crate::validation::rule_problem(s, p, j) is None);
        lemma_acceptable_rules(s, p, j + 1);
    }
}

proof fn lemma_acceptable_profiles(s: Settings, i: int)
    requires
        forall|a: int, b: int|
            0 <= a < b < s.profiles@.len() ==> (#[trigger] s.profiles@[a]).id != (
            #[trigger] s.profiles@[b]).id,
        forall|a: int| 0 <= a < s.profiles@.len() ==> profile_acceptable(s, #[trigger] s.profiles@[a]),
        0 <= i,
    ensures
        crate::validation::profiles_problem(s, i) is None,
    decreases s.profiles@.len() - i,
{
    if i < s.profiles@.len() {
        let p = s.profiles@[i];
        assert(profile_acceptable(s, p));
        lemma_acceptable_rules(s, p, 0);
        assert(!exists|k: int| 0 <= k < i && #[trigger] s.profiles@[k].id == p.id);
        assert(!crate::validation::activation_is_unsafe(p));
        assert(crate::validation::profile_problem(s, i) is None);
        lemma_acceptable_profiles(s, i + 1);
    }
}

/// Validation refuses nothing it has no reason to: a document of the
/// current schema with a usable emergency chord, profiles with distinct
/// identifiers, and acceptable profiles is accepted.
pub proof fn acceptable_settings_pass_validation(s: Settings)
    requires
        s.schema_version == CURRENT_SCHEMA_VERSION,
        keys_usable(s.engine.emergency_stop@),
        forall|a: int, b: int|
            0 <= a < b < s.profiles@.len() ==> (#[trigger] s.profiles@[a]).id != (
            #[trigger] s.profiles@[b]).id,
        forall|a: int| 0 <= a < s.profiles@.len() ==> profile_acceptable(s, #[trigger] s.profiles@[a]),
    ensures
        validation_result(s) == Ok::<(), crate::validation::ValidationError>(()),
{
    lemma_usable_keys(s.engine.emergency_stop@);
    lemma_acceptable_profiles(s, 0);
}

} // verus!
