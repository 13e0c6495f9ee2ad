//! The remapping engine: rules compiled from the settings, and the runtime
//! that turns each physical key event into a dispatch decision.
use vstd::prelude::*;
use crate::keys::{
    KeySet, is_modifier_key, is_modifier_key_exec, insert_sorted, key_matches, key_matches_exec,
    keys_overlap, keys_overlap_exec, lemma_sorted_of, normalize_key, normalize_key_exec,
    pressed_contains, sorted_of, sorted_strict, texts,
};
use crate::model::{
    Action, ActionView, ConditionField, ConditionGroupView, ConditionOperator,
    MatchConditionView, MouseButton, Profile, ProfileScope, ProfileScopeView, Rule, Settings,
    TextOperator, Trigger, TriggerGesture, TriggerPhase, copy_strings,
};
use crate::digits::{push_uuid, uuid_text};
use crate::activation::{activation_rank, index_view, lemma_order_upto, runtime_order, runtime_order_exec};
use crate::devices::KeyboardDeviceInfo;
use crate::text::{contains_seq, contains_ignore_case, eq_ignore_ascii_case, lower, seq_lt, str_eq, str_lt, lemma_seq_lt_order};

verus! {

#[derive(PartialEq, Eq, Structural, Clone, Copy, Debug)]
pub enum EventOrigin {
    Physical,
    InjectedSelf,
    InjectedOther,
}

#[derive(PartialEq, Eq, Structural, Clone, Copy, Debug)]
pub enum KeyPhase {
    Down,
    Up,
}

#[derive(Debug, Clone)]
pub struct KeyEvent {
    pub key: String,
    pub phase: KeyPhase,
    pub origin: EventOrigin,
    pub repeat: bool,
}

/// What is known of the window and device an event comes from.
#[derive(Debug, Clone)]
pub struct MatchContext {
    pub process_name: Option<String>,
    pub executable_path: Option<String>,
    pub window_class: Option<String>,
    pub device_id: Option<String>,
}

impl Default for MatchContext {
    fn default() -> (r: MatchContext)
        ensures
            r.process_name is None,
            r.executable_path is None,
            r.window_class is None,
            r.device_id is None,
    {
        MatchContext {
            process_name: None,
            executable_path: None,
            window_class: None,
            device_id: None,
        }
    }
}

#[derive(PartialEq, Eq, Structural, Clone, Copy, Debug)]
pub enum DispatchActionPhase {
    Invoke,
    Down,
    Up,
}

#[derive(Debug, Clone)]
pub struct DispatchAction {
    pub profile_id: u128,
    pub rule_id: u128,
    pub action: Action,
    pub phase: DispatchActionPhase,
    pub transient_release_inputs: Vec<String>,
}

pub struct DispatchActionView {
    pub profile_id: u128,
    pub rule_id: u128,
    pub action: ActionView,
    pub phase: DispatchActionPhase,
    pub transient_release_inputs: Seq<Seq<char>>,
}

impl View for DispatchAction {
    type V = DispatchActionView;

    open spec fn view(&self) -> DispatchActionView {
        DispatchActionView {
            profile_id: self.profile_id,
            rule_id: self.rule_id,
            action: self.action@,
            phase: self.phase,
            transient_release_inputs: texts(self.transient_release_inputs@),
        }
    }
}

impl DispatchAction {
    pub fn duplicate(&self) -> (r: DispatchAction)
        ensures
            r@ == self@,
    {
        DispatchAction {
            profile_id: self.profile_id,
            rule_id: self.rule_id,
            action: self.action.duplicate(),
            phase: self.phase,
            transient_release_inputs: copy_strings(&self.transient_release_inputs),
        }
    }
}

/// The same action in another phase.
pub open spec fn with_phase(a: DispatchActionView, phase: DispatchActionPhase) -> DispatchActionView {
    DispatchActionView { phase, ..a }
}

#[derive(Debug, Clone)]
pub struct Dispatch {
    pub suppress_original: bool,
    pub actions: Vec<DispatchAction>,
    pub emergency_stop: bool,
}

pub struct DispatchView {
    pub suppress_original: bool,
    pub actions: Seq<DispatchActionView>,
    pub emergency_stop: bool,
}

impl View for Dispatch {
    type V = DispatchView;

    open spec fn view(&self) -> DispatchView {
        DispatchView {
            suppress_original: self.suppress_original,
            actions: self.actions@.map_values(|a: DispatchAction| a@),
            emergency_stop: self.emergency_stop,
        }
    }
}

/// Let the event through untouched.
pub open spec fn pass_view() -> DispatchView {
    DispatchView { suppress_original: false, actions: Seq::empty(), emergency_stop: false }
}

impl Dispatch {
    fn pass() -> (r: Dispatch)
        ensures
            r@ == pass_view(),
    {
        let r = Dispatch { suppress_original: false, actions: Vec::new(), emergency_stop: false };
        assert(r@.actions =~= Seq::<DispatchActionView>::empty());
        r
    }
}

#[derive(Debug, Clone)]
pub enum CompileError {
    Conflict { trigger: String, first_profile: u128, second_profile: u128 },
    UnsupportedGesture(u128),
}

pub enum CompileErrorView {
    Conflict { trigger: Seq<char>, first_profile: u128, second_profile: u128 },
    UnsupportedGesture(u128),
}

impl View for CompileError {
    type V = CompileErrorView;

    open spec fn view(&self) -> CompileErrorView {
        match self {
            CompileError::Conflict { trigger, first_profile, second_profile } =>
                CompileErrorView::Conflict {
                trigger: trigger@,
                first_profile: *first_profile,
                second_profile: *second_profile,
            },
            CompileError::UnsupportedGesture(id) => CompileErrorView::UnsupportedGesture(*id),
        }
    }
}

/// The message shown for a compile error.
pub open spec fn compile_error_message(e: CompileErrorView) -> Seq<char> {
    match e {
        CompileErrorView::Conflict { trigger, first_profile, second_profile } => "duplicate trigger "@
            + trigger + " in profiles "@ + uuid_text(first_profile) + " and "@ + uuid_text(
            second_profile,
        ),
        CompileErrorView::UnsupportedGesture(id) => "unsupported trigger gesture in rule "@
            + uuid_text(id),
    }
}

impl CompileError {
    pub fn message(&self) -> (r: String)
        ensures
            r@ == compile_error_message(self@),
    {
        match self {
            CompileError::Conflict { trigger, first_profile, second_profile } => {
                let mut s = "duplicate trigger ".to_owned();
                s.append(trigger.as_str());
                s.append(" in profiles ");
                push_uuid(&mut s, *first_profile);
                s.append(" and ");
                push_uuid(&mut s, *second_profile);
                s
            },
            CompileError::UnsupportedGesture(id) => {
                let mut s = "unsupported trigger gesture in rule ".to_owned();
                push_uuid(&mut s, *id);
                s
            },
        }
    }

    pub fn duplicate(&self) -> (r: CompileError)
        ensures
            r@ == self@,
    {
        match self {
            CompileError::Conflict { trigger, first_profile, second_profile } => CompileError::Conflict {
                trigger: trigger.clone(),
                first_profile: *first_profile,
                second_profile: *second_profile,
            },
            CompileError::UnsupportedGesture(id) => CompileError::UnsupportedGesture(*id),
        }
    }
}

#[derive(Debug, Clone)]
struct CompiledRule {
    profile_id: u128,
    rule_id: u128,
    chord: Vec<String>,
    phase: KeyPhase,
    action: Action,
    pass_through: bool,
    scope: ProfileScope,
    stateful_remap: bool,
}

pub struct CompiledRuleView {
    pub profile_id: u128,
    pub rule_id: u128,
    /// The trigger keys, normalized, sorted and free of duplicates.
    pub chord: Seq<Seq<char>>,
    pub phase: KeyPhase,
    pub action: ActionView,
    pub pass_through: bool,
    pub scope: ProfileScopeView,
    /// A single key remapped to a single key: its output is held down from
    /// the source key-down to the source key-up.
    pub stateful_remap: bool,
}

impl View for CompiledRule {
    type V = CompiledRuleView;

    closed spec fn view(&self) -> CompiledRuleView {
        CompiledRuleView {
            profile_id: self.profile_id,
            rule_id: self.rule_id,
            chord: texts(self.chord@),
            phase: self.phase,
            action: self.action@,
            pass_through: self.pass_through,
            scope: self.scope@,
            stateful_remap: self.stateful_remap,
        }
    }
}

impl CompiledRule {
    fn duplicate(&self) -> (r: CompiledRule)
        ensures
            r@ == self@,
    {
        CompiledRule {
            profile_id: self.profile_id,
            rule_id: self.rule_id,
            chord: copy_strings(&self.chord),
            phase: self.phase,
            action: self.action.duplicate(),
            pass_through: self.pass_through,
            scope: self.scope.duplicate(),
            stateful_remap: self.stateful_remap,
        }
    }
}

/// Rules ready for the runtime, in settings order, with the emergency stop
/// chord.
#[derive(Debug)]
pub struct CompiledRules {
    revision: u64,
    rules: Vec<CompiledRule>,
    emergency: Vec<String>,
}

/// A compiled rule set keeps each held remap on a key-down rule that
/// consumes its key.
pub open spec fn rules_wf(v: CompiledRulesView) -> bool {
    forall|i: int|
        0 <= i < v.rules.len() && (#[trigger] v.rules[i]).stateful_remap ==> !v.rules[i].pass_through
            && v.rules[i].phase == KeyPhase::Down
}

pub struct CompiledRulesView {
    pub revision: u64,
    pub rules: Seq<CompiledRuleView>,
    /// The emergency stop keys, normalized.
    pub emergency: Seq<Seq<char>>,
}

impl View for CompiledRules {
    type V = CompiledRulesView;

    closed spec fn view(&self) -> CompiledRulesView {
        CompiledRulesView {
            revision: self.revision,
            rules: self.rules@.map_values(|r: CompiledRule| r@),
            emergency: texts(self.emergency@),
        }
    }
}

impl CompiledRules {
    #[verifier::type_invariant]
    closed spec fn well_formed(self) -> bool {
        rules_wf(self@)
    }
}

impl Clone for CompiledRules {
    fn clone(&self) -> (r: CompiledRules)
        ensures
            r@ == self@,
    {
        proof {
            use_type_invariant(self);
        }
        let mut rules: Vec<CompiledRule> = Vec::new();
        let n = self.rules.len();
        let mut i: usize = 0;
        while i < n
            invariant
                n == self.rules@.len(),
                i <= n,
                rules@.len() == i,
                forall|j: int| 0 <= j < i ==> #[trigger] rules@[j]@ == self.rules@[j]@,
            decreases n - i,
        {
            rules.push(self.rules[i].duplicate());
            i = i + 1;
        }
        let emergency = copy_strings(&self.emergency);
        assert(rules@.map_values(|r: CompiledRule| r@) =~= self@.rules);
        CompiledRules { revision: self.revision, rules, emergency }
    }
}

// ---------------------------------------------------------------------------
// Compilation
// ---------------------------------------------------------------------------

/// The enabled rules among the first `n` rules of a profile, each with its
/// profile.
pub open spec fn enabled_rules(p: Profile, n: int) -> Seq<(Profile, Rule)>
    decreases n,
{
    if n <= 0 {
        Seq::empty()
    } else {
        let prev = enabled_rules(p, n - 1);
        let r = p.rules@[n - 1];
        if r.enabled {
            prev.push((p, r))
        } else {
            prev
        }
    }
}

/// The rules that take part in compilation, among the first `n` profiles:
/// enabled rules of enabled, unarchived profiles, in settings order.
pub open spec fn candidates_upto(ps: Seq<Profile>, n: int) -> Seq<(Profile, Rule)>
    decreases n,
{
    if n <= 0 {
        Seq::empty()
    } else {
        let prev = candidates_upto(ps, n - 1);
        let p = ps[n - 1];
        if p.enabled && !p.archived {
            prev + enabled_rules(p, p.rules@.len() as int)
        } else {
            prev
        }
    }
}

pub open spec fn candidates(s: Settings) -> Seq<(Profile, Rule)> {
    candidates_upto(s.profiles@, s.profiles@.len() as int)
}

pub open spec fn mouse_key(b: MouseButton) -> Seq<char> {
    match b {
        MouseButton::Left => "mouseleft"@,
        MouseButton::Right => "mouseright"@,
        MouseButton::Middle => "mousemiddle"@,
        MouseButton::X1 => "mousex1"@,
        MouseButton::X2 => "mousex2"@,
    }
}

/// The keys, phase and gesture a trigger waits for; a mouse button stands
/// for a single key.
pub open spec fn trigger_parts(t: Trigger) -> (Seq<Seq<char>>, TriggerPhase, TriggerGesture) {
    match t {
        Trigger::Keyboard { chord, phase, gesture } => (texts(chord@), phase, gesture),
        Trigger::Mouse { button, phase } => (seq![mouse_key(button)], phase, TriggerGesture::Single),
    }
}

pub open spec fn key_phase(p: TriggerPhase) -> KeyPhase {
    match p {
        TriggerPhase::Press => KeyPhase::Down,
        TriggerPhase::Release => KeyPhase::Up,
    }
}

pub open spec fn normalized_all(chord: Seq<Seq<char>>) -> Seq<Seq<char>> {
    chord.map_values(|k: Seq<char>| normalize_key(k))
}

/// The sorted, duplicate-free normalized keys of a trigger.
pub open spec fn trigger_keys(r: Rule) -> Seq<Seq<char>> {
    sorted_of(normalized_all(trigger_parts(r.trigger).0).to_set())
}

pub open spec fn scope_kind(s: ProfileScope) -> Seq<char> {
    match s {
        ProfileScope::Global => "global"@,
        ProfileScope::Application { .. } => "application"@,
        ProfileScope::Device { .. } => "device"@,
        ProfileScope::Combined { .. } => "combined"@,
    }
}

pub open spec fn phase_name(p: KeyPhase) -> Seq<char> {
    match p {
        KeyPhase::Down => "Down"@,
        KeyPhase::Up => "Up"@,
    }
}

/// Keys joined by a separator.
pub open spec fn join(keys: Seq<Seq<char>>, sep: Seq<char>) -> Seq<char>
    decreases keys.len(),
{
    if keys.len() == 0 {
        Seq::empty()
    } else if keys.len() == 1 {
        keys[0]
    } else {
        join(keys.drop_last(), sep) + sep + keys.last()
    }
}

/// The identity under which two rules conflict:
/// `<scope kind>:<phase>:<key>+<key>...`.
pub open spec fn signature(c: (Profile, Rule)) -> Seq<char> {
    scope_kind(c.0.scope) + ":"@ + phase_name(key_phase(trigger_parts(c.1.trigger).1)) + ":"@
        + join(trigger_keys(c.1), "+"@)
}

pub open spec fn is_stateful(c: (Profile, Rule)) -> bool {
    &&& key_phase(trigger_parts(c.1.trigger).1) == KeyPhase::Down
    &&& !c.1.options.pass_through_original
    &&& trigger_keys(c.1).len() == 1
    &&& c.1.action matches Action::SendKeys { chord } && chord@.len() == 1
}

pub open spec fn compiled_view(c: (Profile, Rule)) -> CompiledRuleView {
    CompiledRuleView {
        profile_id: c.0.id,
        rule_id: c.1.id,
        chord: trigger_keys(c.1),
        phase: key_phase(trigger_parts(c.1.trigger).1),
        action: c.1.action@,
        pass_through: c.1.options.pass_through_original,
        scope: c.0.scope@,
        stateful_remap: is_stateful(c),
    }
}

/// Candidate `i` is where compilation stops: its gesture is not supported,
/// or an earlier candidate has its signature.
pub open spec fn stops_at(cs: Seq<(Profile, Rule)>, i: int) -> bool {
    ||| trigger_parts(cs[i].1.trigger).2 != TriggerGesture::Single
    ||| exists|j: int| 0 <= j < i && signature(#[trigger] cs[j]) == signature(cs[i])
}

pub open spec fn first_stop(cs: Seq<(Profile, Rule)>, i: int) -> Option<int>
    decreases cs.len() - i,
{
    if i < 0 || i >= cs.len() {
        None
    } else if stops_at(cs, i) {
        Some(i)
    } else {
        first_stop(cs, i + 1)
    }
}

/// The earlier candidate that a conflicting candidate `i` collides with.
pub open spec fn first_with_signature(cs: Seq<(Profile, Rule)>, i: int) -> int {
    choose|j: int| 0 <= j < i && signature(cs[j]) == signature(cs[i])
}

/// What compiling a list of candidate rules produces: an error at the first
/// candidate where compilation stops, or the compiled rules in order.
pub open spec fn compile_candidates(
    cs: Seq<(Profile, Rule)>,
    revision: u64,
    emergency: Seq<Seq<char>>,
) -> Result<CompiledRulesView, CompileErrorView> {
    match first_stop(cs, 0) {
        Some(i) => if trigger_parts(cs[i].1.trigger).2 != TriggerGesture::Single {
            Err(CompileErrorView::UnsupportedGesture(cs[i].1.id))
        } else {
            Err(
                CompileErrorView::Conflict {
                    trigger: signature(cs[i]),
                    first_profile: cs[first_with_signature(cs, i)].0.id,
                    second_profile: cs[i].0.id,
                },
            )
        },
        None => Ok(
            CompiledRulesView {
                revision,
                rules: cs.map_values(|c: (Profile, Rule)| compiled_view(c)),
                emergency,
            },
        ),
    }
}

/// What `CompiledRules::compile` produces from a settings document.
pub open spec fn compile_result(s: Settings) -> Result<CompiledRulesView, CompileErrorView> {
    compile_candidates(
        candidates(s),
        s.revision,
        normalized_all(texts(s.engine.emergency_stop@)),
    )
}

pub proof fn lemma_enabled_prefix(p: Profile, a: int, b: int)
    requires
        0 <= a <= b,
    ensures
        enabled_rules(p, a).len() <= enabled_rules(p, b).len(),
        enabled_rules(p, b).subrange(0, enabled_rules(p, a).len() as int) == enabled_rules(p, a),
    decreases b,
{
    if a < b {
        lemma_enabled_prefix(p, a, b - 1);
        assert(enabled_rules(p, b).subrange(0, enabled_rules(p, a).len() as int)
            =~= enabled_rules(p, b - 1).subrange(0, enabled_rules(p, a).len() as int));
    } else {
        assert(enabled_rules(p, b).subrange(0, enabled_rules(p, a).len() as int) =~= enabled_rules(p, a));
    }
}

pub proof fn lemma_candidates_prefix(ps: Seq<Profile>, a: int, b: int)
    requires
        0 <= a <= b,
    ensures
        candidates_upto(ps, a).len() <= candidates_upto(ps, b).len(),
        candidates_upto(ps, b).subrange(0, candidates_upto(ps, a).len() as int) == candidates_upto(ps, a),
    decreases b,
{
    if a < b {
        lemma_candidates_prefix(ps, a, b - 1);
        assert(candidates_upto(ps, b).subrange(0, candidates_upto(ps, a).len() as int)
            =~= candidates_upto(ps, b - 1).subrange(0, candidates_upto(ps, a).len() as int));
    } else {
        assert(candidates_upto(ps, b).subrange(0, candidates_upto(ps, a).len() as int) =~= candidates_upto(ps, a));
    }
}

/// With no stop before `k`, the first stop is the first one from `k` on.
pub proof fn lemma_first_stop_skip(cs: Seq<(Profile, Rule)>, k: int)
    requires
        0 <= k <= cs.len(),
        forall|j: int| 0 <= j < k ==> !#[trigger] stops_at(cs, j),
    ensures
        first_stop(cs, 0) == first_stop(cs, k),
    decreases k,
{
    if k > 0 {
        lemma_first_stop_skip(cs, k - 1);
    }
}

fn find_signature(seen: &Vec<(String, u128)>, sig: &str) -> (r: Option<usize>)
    ensures
        match r {
            Some(j) => j < seen@.len() && seen@[j as int].0@ == sig@,
            None => forall|k: int| 0 <= k < seen@.len() ==> (#[trigger] seen@[k]).0@ != sig@,
        },
{
    let n = seen.len();
    let mut j: usize = 0;
    while j < n
        invariant
            n == seen@.len(),
            j <= n,
            forall|k: int| 0 <= k < j ==> (#[trigger] seen@[k]).0@ != sig@,
        decreases n - j,
    {
        if str_eq(seen[j].0.as_str(), sig) {
            return Some(j);
        }
        j = j + 1;
    }
    None
}

fn mouse_key_exec(b: MouseButton) -> (r: &'static str)
    ensures
        r@ == mouse_key(b),
{
    match b {
        MouseButton::Left => "mouseleft",
        MouseButton::Right => "mouseright",
        MouseButton::Middle => "mousemiddle",
        MouseButton::X1 => "mousex1",
        MouseButton::X2 => "mousex2",
    }
}

fn scope_kind_exec(s: &ProfileScope) -> (r: &'static str)
    ensures
        r@ == scope_kind(*s),
{
    match s {
        ProfileScope::Global => "global",
        ProfileScope::Application { .. } => "application",
        ProfileScope::Device { .. } => "device",
        ProfileScope::Combined { .. } => "combined",
    }
}

fn phase_name_exec(p: KeyPhase) -> (r: &'static str)
    ensures
        r@ == phase_name(p),
{
    match p {
        KeyPhase::Down => "Down",
        KeyPhase::Up => "Up",
    }
}

/// Normalizes each key, in order.
fn normalize_all(chord: &Vec<String>) -> (r: Vec<String>)
    ensures
        texts(r@) == normalized_all(texts(chord@)),
{
    let mut out: Vec<String> = Vec::new();
    let n = chord.len();
    let mut i: usize = 0;
    while i < n
        invariant
            n == chord@.len(),
            i <= n,
            texts(out@) =~= normalized_all(texts(chord@)).subrange(0, i as int),
        decreases n - i,
    {
        let k = normalize_key_exec(chord[i].as_str());
        let ghost before = texts(out@);
        out.push(k);
        assert(texts(out@) =~= before.push(normalize_key(chord@[i as int]@)));
        assert(normalized_all(texts(chord@)).subrange(0, i + 1) =~= normalized_all(
            texts(chord@),
        ).subrange(0, i as int).push(normalize_key(chord@[i as int]@)));
        i = i + 1;
    }
    assert(normalized_all(texts(chord@)).subrange(0, n as int) =~= normalized_all(texts(chord@)));
    out
}

/// The keys normalized, sorted and free of duplicates.
fn sorted_normalized(chord: &Vec<String>) -> (r: Vec<String>)
    ensures
        texts(r@) == sorted_of(normalized_all(texts(chord@)).to_set()),
        sorted_strict(texts(r@)),
{
    let normalized = normalize_all(chord);
    let ghost all = texts(normalized@);
    let mut out: Vec<String> = Vec::new();
    let n = normalized.len();
    let mut i: usize = 0;
    assert(texts(out@).to_set() =~= all.subrange(0, 0).to_set());
    while i < n
        invariant
            n == normalized@.len(),
            all == texts(normalized@),
            i <= n,
            sorted_strict(texts(out@)),
            texts(out@).to_set() == all.subrange(0, i as int).to_set(),
        decreases n - i,
    {
        insert_sorted(&mut out, normalized[i].clone());
        assert(all.subrange(0, i + 1) =~= all.subrange(0, i as int).push(all[i as int]));
        proof {
            all.subrange(0, i as int).lemma_push_to_set_commute(all[i as int]);
        }
        i = i + 1;
    }
    assert(all.subrange(0, n as int) =~= all);
    proof {
        lemma_sorted_of(texts(out@));
    }
    out
}

fn join_exec(keys: &Vec<String>, sep: &str) -> (r: String)
    ensures
        r@ == join(texts(keys@), sep@),
{
    let mut out = String::new();
    let n = keys.len();
    let mut i: usize = 0;
    while i < n
        invariant
            n == keys@.len(),
            i <= n,
            out@ == join(texts(keys@).subrange(0, i as int), sep@),
        decreases n - i,
    {
        let ghost prev = texts(keys@).subrange(0, i as int);
        let ghost next = texts(keys@).subrange(0, i + 1);
        assert(next.drop_last() =~= prev);
        if i > 0 {
            out.append(sep);
        } else {
            assert(prev.len() == 0);
            assert(out@ =~= Seq::<char>::empty());
        }
        out.append(keys[i].as_str());
        proof {
            if i == 0 {
                assert(out@ =~= next[0]);
            }
        }
        i = i + 1;
    }
    assert(texts(keys@).subrange(0, n as int) =~= texts(keys@));
    out
}

impl CompiledRules {
    /// Compiles the enabled rules of enabled, unarchived profiles. Stops at
    /// the first rule with a hold or double-tap gesture, and at the first
    /// rule whose scope kind, phase and key set repeat an earlier rule's.
    pub fn compile(settings: &Settings) -> (r: Result<CompiledRules, CompileError>)
        ensures
            match r {
                Ok(c) => compile_result(*settings) == Ok::<CompiledRulesView, CompileErrorView>(
                    c@,
                ),
                Err(e) => compile_result(*settings) == Err::<CompiledRulesView, CompileErrorView>(
                    e@,
                ),
            },
    {
        let ghost ps = settings.profiles@;
        let ghost cs = candidates(*settings);
        let mut rules: Vec<CompiledRule> = Vec::new();
        let mut seen: Vec<(String, u128)> = Vec::new();
        let np = settings.profiles.len();
        let mut pi: usize = 0;
        while pi < np
            invariant
                ps == settings.profiles@,
                cs == candidates(*settings),
                np == ps.len(),
                pi <= np,
                rules@.len() == candidates_upto(ps, pi as int).len(),
                seen@.len() == rules@.len(),
                cs.subrange(0, rules@.len() as int) == candidates_upto(ps, pi as int),
                forall|k: int| 0 <= k < rules@.len() ==> #[trigger] rules@[k]@ == compiled_view(cs[k]),
                forall|k: int|
                    0 <= k < seen@.len() ==> (#[trigger] seen@[k]).0@ == signature(cs[k])
                        && seen@[k].1 == cs[k].0.id,
                forall|k: int| 0 <= k < rules@.len() ==> !#[trigger] stops_at(cs, k),
            decreases np - pi,
        {
            proof {
                lemma_candidates_prefix(ps, pi as int + 1, np as int);
            }
            let profile = &settings.profiles[pi];
            if profile.enabled && !profile.archived {
                let nr = profile.rules.len();
                let ghost base = candidates_upto(ps, pi as int);
                let mut ri: usize = 0;
                while ri < nr
                    invariant
                        ps == settings.profiles@,
                        cs == candidates(*settings),
                        np == ps.len(),
                        pi < np,
                        *profile == ps[pi as int],
                        profile.enabled && !profile.archived,
                        nr == profile.rules@.len(),
                        ri <= nr,
                        base == candidates_upto(ps, pi as int),
                        candidates_upto(ps, pi as int + 1).len() <= cs.len(),
                        cs.subrange(0, candidates_upto(ps, pi as int + 1).len() as int)
                            == candidates_upto(ps, pi as int + 1),
                        candidates_upto(ps, pi as int + 1) == base + enabled_rules(*profile, nr as int),
                        rules@.len() == base.len() + enabled_rules(*profile, ri as int).len(),
                        seen@.len() == rules@.len(),
                        cs.subrange(0, rules@.len() as int) == base + enabled_rules(*profile, ri as int),
                        forall|k: int| 0 <= k < rules@.len() ==> #[trigger] rules@[k]@ == compiled_view(cs[k]),
                        forall|k: int|
                            0 <= k < seen@.len() ==> (#[trigger] seen@[k]).0@ == signature(cs[k])
                                && seen@[k].1 == cs[k].0.id,
                        forall|k: int| 0 <= k < rules@.len() ==> !#[trigger] stops_at(cs, k),
                    decreases nr - ri,
                {
                    proof {
                        lemma_enabled_prefix(*profile, ri as int + 1, nr as int);
                        assert((base + enabled_rules(*profile, nr as int)).subrange(0, (base.len() + enabled_rules(*profile, ri as int + 1).len()) as int) =~= base + enabled_rules(*profile, ri as int + 1));
                        let m = (base.len() + enabled_rules(*profile, ri as int + 1).len()) as int;
                        let l = candidates_upto(ps, pi as int + 1).len() as int;
                        assert(cs.subrange(0, m) =~= cs.subrange(0, l).subrange(0, m));
                        assert(cs.subrange(0, m) =~= base + enabled_rules(*profile, ri as int + 1));
                    }
                    let rule = &profile.rules[ri];
                    if rule.enabled {
                        let ghost idx = rules@.len() as int;
                        proof {
                            assert(enabled_rules(*profile, ri as int + 1) == enabled_rules(*profile, ri as int).push((*profile, *rule)));
                            assert(cs[idx] == (*profile, *rule)) by {
                                assert((base + enabled_rules(*profile, ri as int + 1))[idx] == (*profile, *rule));
                            }
                        }
                        let (chord, tphase, gesture) = match &rule.trigger {
                            Trigger::Keyboard { chord, phase, gesture } => (copy_strings(chord), *phase, *gesture),
                            Trigger::Mouse { button, phase } => {
                                let mut v: Vec<String> = Vec::new();
                                v.push(mouse_key_exec(*button).to_owned());
                                assert(texts(v@) =~= seq![mouse_key(*button)]);
                                (v, *phase, TriggerGesture::Single)
                            },
                        };
                        assert(texts(chord@) == trigger_parts(rule.trigger).0);
                        assert(tphase == trigger_parts(rule.trigger).1);
                        assert(gesture == trigger_parts(rule.trigger).2);
                        if gesture != TriggerGesture::Single {
                            proof {
                                assert(idx < cs.len());
                                assert(cs[idx].1 == *rule);
                                assert(trigger_parts(cs[idx].1.trigger).2 != TriggerGesture::Single);
                                assert(stops_at(cs, idx));
                                lemma_first_stop_skip(cs, idx);
                            }
                            return Err(CompileError::UnsupportedGesture(rule.id));
                        }
                        let normalized = sorted_normalized(&chord);
                        let kp = match tphase {
                            TriggerPhase::Press => KeyPhase::Down,
                            TriggerPhase::Release => KeyPhase::Up,
                        };
                        let stateful_remap = kp == KeyPhase::Down && !rule.options.pass_through_original
                            && normalized.len() == 1 && match &rule.action {
                            Action::SendKeys { chord } => chord.len() == 1,
                            Action::SendMouse { .. } => false,
                        };
                        let mut sig = String::new();
                        sig.append(scope_kind_exec(&profile.scope));
                        sig.append(":");
                        sig.append(phase_name_exec(kp));
                        sig.append(":");
                        let joined = join_exec(&normalized, "+");
                        sig.append(joined.as_str());
                        assert(sig@ == signature(cs[idx]));
                        if let Some(j) = find_signature(&seen, sig.as_str()) {
                            let first = seen[j].1;
                            proof {
                                assert(signature(cs[j as int]) == signature(cs[idx]));
                                assert(stops_at(cs, idx));
                                lemma_first_stop_skip(cs, idx);
                                let w = first_with_signature(cs, idx);
                                assert(0 <= w < idx && signature(cs[w]) == signature(cs[idx]));
                                if w != j as int {
                                    if w < j {
                                        assert(stops_at(cs, j as int));
                                    } else {
                                        assert(stops_at(cs, w));
                                    }
                                }
                            }
                            return Err(
                                CompileError::Conflict {
                                    trigger: sig,
                                    first_profile: first,
                                    second_profile: profile.id,
                                },
                            );
                        }
                        proof {
                            assert(!stops_at(cs, idx)) by {
                                if exists|k: int| 0 <= k < idx && signature(#[trigger] cs[k]) == signature(cs[idx]) {
                                    let k = choose|k: int| 0 <= k < idx && signature(#[trigger] cs[k]) == signature(cs[idx]);
                                    assert(seen@[k].0@ == signature(cs[k]));
                                }
                            }
                        }
                        let compiled = CompiledRule {
                            profile_id: profile.id,
                            rule_id: rule.id,
                            chord: normalized,
                            phase: kp,
                            action: rule.action.duplicate(),
                            pass_through: rule.options.pass_through_original,
                            scope: profile.scope.duplicate(),
                            stateful_remap,
                        };
                        assert(compiled@ == compiled_view(cs[idx]));
                        seen.push((sig, profile.id));
                        rules.push(compiled);
                    } else {
                        assert(enabled_rules(*profile, ri as int + 1) == enabled_rules(*profile, ri as int));
                    }
                    ri = ri + 1;
                }
            } else {
                assert(candidates_upto(ps, pi as int + 1) == candidates_upto(ps, pi as int));
            }
            pi = pi + 1;
        }
        proof {
            assert(cs.len() == rules@.len());
            lemma_first_stop_skip(cs, cs.len() as int);
        }
        let emergency = normalize_all(&settings.engine.emergency_stop);
        assert(rules@.map_values(|r: CompiledRule| r@) =~= cs.map_values(
            |c: (Profile, Rule)| compiled_view(c),
        ));
        Ok(CompiledRules { revision: settings.revision, rules, emergency })
    }

    pub fn revision(&self) -> (r: u64)
        ensures
            r == self@.revision,
    {
        self.revision
    }

    pub fn len(&self) -> (r: usize)
        ensures
            r == self@.rules.len(),
    {
        self.rules.len()
    }

    pub fn is_empty(&self) -> (r: bool)
        ensures
            r == (self@.rules.len() == 0),
    {
        self.rules.len() == 0
    }
}


// ---------------------------------------------------------------------------
// The runtime rule set: every profile that is on, at once
// ---------------------------------------------------------------------------

/// A profile that is enabled and not archived: it must compile on its own,
/// and it runs unless its keyboard selectors match no connected keyboard.
pub open spec fn profile_active(p: Profile) -> bool {
    p.enabled && !p.archived
}

/// The error of compiling a profile's enabled rules on their own, if any.
pub open spec fn profile_error(p: Profile) -> Option<CompileErrorView> {
    match compile_candidates(enabled_rules(p, p.rules@.len() as int), 0, Seq::empty()) {
        Err(e) => Some(e),
        Ok(_) => None,
    }
}

/// The error of the first enabled, unarchived profile, from `i` on, that
/// does not compile on its own.
pub open spec fn first_profile_error(ps: Seq<Profile>, i: int) -> Option<CompileErrorView>
    decreases ps.len() - i,
{
    if i < 0 || i >= ps.len() {
        None
    } else if profile_active(ps[i]) && profile_error(ps[i]) is Some {
        profile_error(ps[i])
    } else {
        first_profile_error(ps, i + 1)
    }
}

/// The candidates with each signature kept once: the first candidate that
/// has it wins, and later ones are dropped.
pub open spec fn first_per_signature(cs: Seq<(Profile, Rule)>) -> Seq<(Profile, Rule)>
    decreases cs.len(),
{
    if cs.len() == 0 {
        cs
    } else {
        let kept = first_per_signature(cs.drop_last());
        if exists|k: int| 0 <= k < kept.len() && signature(#[trigger] kept[k]) == signature(cs.last()) {
            kept
        } else {
            kept.push(cs.last())
        }
    }
}

/// The enabled rules of the profiles at the first `n` positions of
/// `order`, position by position.
pub open spec fn ordered_candidates(ps: Seq<Profile>, order: Seq<int>, n: int) -> Seq<(Profile, Rule)>
    decreases n,
{
    if n <= 0 {
        Seq::empty()
    } else {
        let p = ps[order[n - 1]];
        ordered_candidates(ps, order, n - 1) + enabled_rules(p, p.rules@.len() as int)
    }
}

pub proof fn lemma_ordered_prefix(ps: Seq<Profile>, order: Seq<int>, a: int, b: int)
    requires
        0 <= a <= b,
    ensures
        ordered_candidates(ps, order, a).len() <= ordered_candidates(ps, order, b).len(),
        ordered_candidates(ps, order, b).subrange(0, ordered_candidates(ps, order, a).len() as int)
            == ordered_candidates(ps, order, a),
    decreases b,
{
    if a < b {
        lemma_ordered_prefix(ps, order, a, b - 1);
        assert(ordered_candidates(ps, order, b).subrange(0, ordered_candidates(ps, order, a).len() as int)
            =~= ordered_candidates(ps, order, b - 1).subrange(
            0,
            ordered_candidates(ps, order, a).len() as int,
        ));
    } else {
        assert(ordered_candidates(ps, order, b).subrange(0, ordered_candidates(ps, order, a).len() as int)
            =~= ordered_candidates(ps, order, a));
    }
}

/// The candidate rules of the runtime rule set: the enabled rules of the
/// profiles that are on, in the runtime order.
pub open spec fn runtime_candidates(s: Settings, kbs: Seq<KeyboardDeviceInfo>) -> Seq<(Profile, Rule)> {
    let order = runtime_order(s.profiles@, kbs);
    ordered_candidates(s.profiles@, order, order.len() as int)
}

/// What the runtime runs for a settings document while the given keyboards
/// are connected: every enabled, unarchived profile must compile on its own
/// (else the first one's error); then the enabled rules of the profiles
/// that are on, in the runtime order, where a rule whose trigger an earlier
/// profile already claims is dropped; and the number of profiles that are
/// on.
pub open spec fn runtime_result(s: Settings, kbs: Seq<KeyboardDeviceInfo>) -> Result<
    (CompiledRulesView, nat),
    CompileErrorView,
> {
    match first_profile_error(s.profiles@, 0) {
        Some(e) => Err(e),
        None => Ok(
            (
                CompiledRulesView {
                    revision: s.revision,
                    rules: first_per_signature(runtime_candidates(s, kbs)).map_values(
                        |c: (Profile, Rule)| compiled_view(c),
                    ),
                    emergency: normalized_all(texts(s.engine.emergency_stop@)),
                },
                runtime_order(s.profiles@, kbs).len(),
            ),
        ),
    }
}

proof fn lemma_first_stop_none(cs: Seq<(Profile, Rule)>, i: int, k: int)
    requires
        0 <= i <= k < cs.len(),
        first_stop(cs, i) is None,
    ensures
        !stops_at(cs, k),
    decreases k - i,
{
    if !stops_at(cs, i) && i < k {
        lemma_first_stop_none(cs, i + 1, k);
    }
}

proof fn lemma_no_profile_error(ps: Seq<Profile>, i: int, k: int)
    requires
        0 <= i <= k < ps.len(),
        first_profile_error(ps, i) is None,
    ensures
        profile_active(ps[k]) ==> profile_error(ps[k]) is None,
    decreases k - i,
{
    if i < k {
        lemma_no_profile_error(ps, i + 1, k);
    }
}

/// The rules of a profile that compiles on its own all have a supported
/// gesture.
proof fn lemma_valid_profile_single(p: Profile, idx: int)
    requires
        profile_error(p) is None,
        0 <= idx < enabled_rules(p, p.rules@.len() as int).len(),
    ensures
        trigger_parts(enabled_rules(p, p.rules@.len() as int)[idx].1.trigger).2 == TriggerGesture::Single,
{
    let cs = enabled_rules(p, p.rules@.len() as int);
    lemma_first_stop_none(cs, 0, idx);
}

/// Compiles one rule of a profile, with its signature.
fn compile_one(profile: &Profile, rule: &Rule) -> (r: Result<(CompiledRule, String), CompileError>)
    ensures
        match r {
            Ok((c, sig)) => trigger_parts(rule.trigger).2 == TriggerGesture::Single && c@
                == compiled_view((*profile, *rule)) && sig@ == signature((*profile, *rule)),
            Err(e) => trigger_parts(rule.trigger).2 != TriggerGesture::Single && e@
                == CompileErrorView::UnsupportedGesture(rule.id),
        },
{
    let (chord, tphase, gesture) = match &rule.trigger {
        Trigger::Keyboard { chord, phase, gesture } => (copy_strings(chord), *phase, *gesture),
        Trigger::Mouse { button, phase } => {
            let mut v: Vec<String> = Vec::new();
            v.push(mouse_key_exec(*button).to_owned());
            assert(texts(v@) =~= seq![mouse_key(*button)]);
            (v, *phase, TriggerGesture::Single)
        },
    };
    assert(texts(chord@) == trigger_parts(rule.trigger).0);
    if gesture != TriggerGesture::Single {
        return Err(CompileError::UnsupportedGesture(rule.id));
    }
    let normalized = sorted_normalized(&chord);
    let kp = match tphase {
        TriggerPhase::Press => KeyPhase::Down,
        TriggerPhase::Release => KeyPhase::Up,
    };
    let stateful_remap = kp == KeyPhase::Down && !rule.options.pass_through_original
        && normalized.len() == 1 && match &rule.action {
        Action::SendKeys { chord } => chord.len() == 1,
        Action::SendMouse { .. } => false,
    };
    let mut sig = String::new();
    sig.append(scope_kind_exec(&profile.scope));
    sig.append(":");
    sig.append(phase_name_exec(kp));
    sig.append(":");
    let joined = join_exec(&normalized, "+");
    sig.append(joined.as_str());
    let compiled = CompiledRule {
        profile_id: profile.id,
        rule_id: rule.id,
        chord: normalized,
        phase: kp,
        action: rule.action.duplicate(),
        pass_through: rule.options.pass_through_original,
        scope: profile.scope.duplicate(),
        stateful_remap,
    };
    Ok((compiled, sig))
}

/// Compiles the enabled rules of one profile on its own, reporting the
/// error that `compile` would report for that profile alone.
fn check_profile(profile: &Profile) -> (r: Result<(), CompileError>)
    ensures
        match r {
            Ok(()) => profile_error(*profile) is None,
            Err(e) => profile_error(*profile) == Some(e@),
        },
{
    let nr = profile.rules.len();
    let ghost cs = enabled_rules(*profile, nr as int);
    let mut seen: Vec<(String, u128)> = Vec::new();
    let mut ri: usize = 0;
    proof {
        lemma_enabled_prefix(*profile, 0, nr as int);
    }
    while ri < nr
        invariant
            nr == profile.rules@.len(),
            cs == enabled_rules(*profile, nr as int),
            ri <= nr,
            seen@.len() == enabled_rules(*profile, ri as int).len(),
            seen@.len() <= cs.len(),
            cs.subrange(0, seen@.len() as int) == enabled_rules(*profile, ri as int),
            forall|k: int|
                0 <= k < seen@.len() ==> (#[trigger] seen@[k]).0@ == signature(cs[k]) && seen@[k].1
                    == cs[k].0.id,
            forall|k: int| 0 <= k < seen@.len() ==> !#[trigger] stops_at(cs, k),
        decreases nr - ri,
    {
        proof {
            lemma_enabled_prefix(*profile, ri as int + 1, nr as int);
        }
        let rule = &profile.rules[ri];
        if rule.enabled {
            let ghost idx = seen@.len() as int;
            proof {
                assert(enabled_rules(*profile, ri as int + 1) == enabled_rules(
                    *profile,
                    ri as int,
                ).push((*profile, *rule)));
                assert(cs.subrange(0, idx + 1) == enabled_rules(*profile, ri as int + 1));
                assert(cs[idx] == cs.subrange(0, idx + 1)[idx]);
                assert(cs[idx] == (*profile, *rule));
            }
            match compile_one(profile, rule) {
                Err(e) => {
                    proof {
                        assert(stops_at(cs, idx));
                        lemma_first_stop_skip(cs, idx);
                    }
                    return Err(e);
                },
                Ok((_, sig)) => {
                    if let Some(j) = find_signature(&seen, sig.as_str()) {
                        let first = seen[j].1;
                        proof {
                            assert(signature(cs[j as int]) == signature(cs[idx]));
                            assert(stops_at(cs, idx));
                            lemma_first_stop_skip(cs, idx);
                            let w = first_with_signature(cs, idx);
                            assert(0 <= w < idx && signature(cs[w]) == signature(cs[idx]));
                            if w != j as int {
                                if w < j {
                                    assert(stops_at(cs, j as int));
                                } else {
                                    assert(stops_at(cs, w));
                                }
                            }
                        }
                        return Err(
                            CompileError::Conflict {
                                trigger: sig,
                                first_profile: first,
                                second_profile: profile.id,
                            },
                        );
                    }
                    proof {
                        assert(!stops_at(cs, idx)) by {
                            if exists|k: int|
                                0 <= k < idx && signature(#[trigger] cs[k]) == signature(cs[idx]) {
                                let k = choose|k: int|
                                    0 <= k < idx && signature(#[trigger] cs[k]) == signature(cs[idx]);
                                assert(seen@[k].0@ == signature(cs[k]));
                            }
                        }
                    }
                    seen.push((sig, profile.id));
                },
            }
        } else {
            assert(enabled_rules(*profile, ri as int + 1) == enabled_rules(*profile, ri as int));
        }
        ri = ri + 1;
    }
    proof {
        assert(seen@.len() == cs.len());
        lemma_first_stop_skip(cs, cs.len() as int);
    }
    Ok(())
}

fn find_text(seen: &Vec<String>, sig: &str) -> (r: bool)
    ensures
        r == exists|k: int| 0 <= k < seen@.len() && (#[trigger] seen@[k])@ == sig@,
{
    let n = seen.len();
    let mut j: usize = 0;
    while j < n
        invariant
            n == seen@.len(),
            j <= n,
            forall|k: int| 0 <= k < j ==> (#[trigger] seen@[k])@ != sig@,
        decreases n - j,
    {
        if str_eq(seen[j].as_str(), sig) {
            return true;
        }
        j = j + 1;
    }
    false
}

impl CompiledRules {
    /// Checks that every enabled, unarchived profile compiles on its own,
    /// reporting the first one's error otherwise.
    pub fn check_runtime_profiles(settings: &Settings) -> (r: Result<(), CompileError>)
        ensures
            match r {
                Ok(()) => first_profile_error(settings.profiles@, 0) is None,
                Err(e) => first_profile_error(settings.profiles@, 0) == Some(e@),
            },
    {
        let ghost ps = settings.profiles@;
        let np = settings.profiles.len();
        let mut pi: usize = 0;
        while pi < np
            invariant
                ps == settings.profiles@,
                np == ps.len(),
                pi <= np,
                first_profile_error(ps, 0) == first_profile_error(ps, pi as int),
            decreases np - pi,
        {
            let profile = &settings.profiles[pi];
            if profile.enabled && !profile.archived {
                match check_profile(profile) {
                    Err(e) => return Err(e),
                    Ok(()) => {},
                }
            }
            pi = pi + 1;
        }
        Ok(())
    }

    /// The rule set the runtime runs with all the profiles that are on at
    /// once, given the connected keyboards; see `runtime_result`. Also
    /// returns the number of profiles that are on.
    pub fn compile_runtime(settings: &Settings, keyboards: &[KeyboardDeviceInfo]) -> (r: Result<
        (CompiledRules, usize),
        CompileError,
    >)
        ensures
            match r {
                Ok((c, n)) => runtime_result(*settings, keyboards@) == Ok::<
                    (CompiledRulesView, nat),
                    CompileErrorView,
                >((c@, n as nat)),
                Err(e) => runtime_result(*settings, keyboards@) == Err::<
                    (CompiledRulesView, nat),
                    CompileErrorView,
                >(e@),
            },
    {
        let ghost ps = settings.profiles@;
        match CompiledRules::check_runtime_profiles(settings) {
            Err(e) => return Err(e),
            Ok(()) => {},
        }
        let order = runtime_order_exec(settings, keyboards);
        let ghost ord = runtime_order(ps, keyboards@);
        proof {
            lemma_order_upto(ps, keyboards@, 8);
        }
        let no = order.len();
        let ghost cs = ordered_candidates(ps, ord, ord.len() as int);
        let mut rules: Vec<CompiledRule> = Vec::new();
        let mut seen: Vec<String> = Vec::new();
        let mut oi: usize = 0;
        let ghost mut m: int = 0;
        proof {
            lemma_ordered_prefix(ps, ord, 0, no as int);
        }
        while oi < no
            invariant
                ps == settings.profiles@,
                ord == runtime_order(ps, keyboards@),
                index_view(order@) == ord,
                no == ord.len(),
                forall|k: int| 0 <= k < ord.len() ==> 0 <= #[trigger] ord[k] < ps.len()
                    && activation_rank(ps[ord[k]], keyboards@) is Some,
                cs == ordered_candidates(ps, ord, ord.len() as int),
                oi <= no,
                first_profile_error(ps, 0) is None,
                m == ordered_candidates(ps, ord, oi as int).len(),
                m <= cs.len(),
                cs.subrange(0, m) == ordered_candidates(ps, ord, oi as int),
                rules@.len() == first_per_signature(cs.subrange(0, m)).len(),
                seen@.len() == rules@.len(),
                forall|k: int|
                    0 <= k < rules@.len() ==> #[trigger] rules@[k]@ == compiled_view(
                        first_per_signature(cs.subrange(0, m))[k],
                    ),
                forall|k: int|
                    0 <= k < seen@.len() ==> (#[trigger] seen@[k])@ == signature(
                        first_per_signature(cs.subrange(0, m))[k],
                    ),
            decreases no - oi,
        {
            proof {
                lemma_ordered_prefix(ps, ord, oi as int + 1, no as int);
                assert(index_view(order@)[oi as int] == ord[oi as int]);
            }
            let pi = order[oi];
            let profile = &settings.profiles[pi];
            proof {
                assert(ord[oi as int] == pi as int);
                assert(activation_rank(ps[pi as int], keyboards@) is Some);
                assert(profile_active(ps[pi as int]));
                lemma_no_profile_error(ps, 0, pi as int);
            }
            let nr = profile.rules.len();
            let ghost base = ordered_candidates(ps, ord, oi as int);
            let mut ri: usize = 0;
            while ri < nr
                invariant
                    ps == settings.profiles@,
                    ord == runtime_order(ps, keyboards@),
                    cs == ordered_candidates(ps, ord, ord.len() as int),
                    oi < no,
                    no == ord.len(),
                    0 <= pi < ps.len(),
                    ord[oi as int] == pi as int,
                    *profile == ps[pi as int],
                    profile_active(*profile),
                    profile_error(*profile) is None,
                    first_profile_error(ps, 0) is None,
                    nr == profile.rules@.len(),
                    ri <= nr,
                    base == ordered_candidates(ps, ord, oi as int),
                    ordered_candidates(ps, ord, oi as int + 1).len() <= cs.len(),
                    cs.subrange(0, ordered_candidates(ps, ord, oi as int + 1).len() as int)
                        == ordered_candidates(ps, ord, oi as int + 1),
                    ordered_candidates(ps, ord, oi as int + 1) == base + enabled_rules(*profile, nr as int),
                    m == base.len() + enabled_rules(*profile, ri as int).len(),
                    cs.subrange(0, m) == base + enabled_rules(*profile, ri as int),
                    rules@.len() == first_per_signature(cs.subrange(0, m)).len(),
                    seen@.len() == rules@.len(),
                    forall|k: int|
                        0 <= k < rules@.len() ==> #[trigger] rules@[k]@ == compiled_view(
                            first_per_signature(cs.subrange(0, m))[k],
                        ),
                    forall|k: int|
                        0 <= k < seen@.len() ==> (#[trigger] seen@[k])@ == signature(
                            first_per_signature(cs.subrange(0, m))[k],
                        ),
                decreases nr - ri,
            {
                proof {
                    lemma_enabled_prefix(*profile, ri as int + 1, nr as int);
                    lemma_enabled_prefix(*profile, ri as int, nr as int);
                    assert((base + enabled_rules(*profile, nr as int)).subrange(
                        0,
                        (base.len() + enabled_rules(*profile, ri as int + 1).len()) as int,
                    ) =~= base + enabled_rules(*profile, ri as int + 1));
                    let m1 = (base.len() + enabled_rules(*profile, ri as int + 1).len()) as int;
                    let l = ordered_candidates(ps, ord, oi as int + 1).len() as int;
                    assert(cs.subrange(0, m1) =~= cs.subrange(0, l).subrange(0, m1));
                    assert(cs.subrange(0, m1) =~= base + enabled_rules(*profile, ri as int + 1));
                }
                let rule = &profile.rules[ri];
                if rule.enabled {
                    let ghost kept = first_per_signature(cs.subrange(0, m));
                    proof {
                        assert(enabled_rules(*profile, ri as int + 1) == enabled_rules(
                            *profile,
                            ri as int,
                        ).push((*profile, *rule)));
                        assert(cs.subrange(0, m + 1) =~= cs.subrange(0, m).push((*profile, *rule)));
                        assert(cs.subrange(0, m + 1).drop_last() =~= cs.subrange(0, m));
                        let er = enabled_rules(*profile, nr as int);
                        let idx = enabled_rules(*profile, ri as int).len() as int;
                        assert(er.subrange(0, idx + 1) == enabled_rules(*profile, ri as int + 1));
                        assert(er[idx] == er.subrange(0, idx + 1)[idx]);
                        lemma_valid_profile_single(*profile, idx);
                    }
                    match compile_one(profile, rule) {
                        Err(_) => {
                            proof {
                                assert(false);
                            }
                            return Err(CompileError::UnsupportedGesture(rule.id));
                        },
                        Ok((compiled, sig)) => {
                            if find_text(&seen, sig.as_str()) {
                                proof {
                                    let k = choose|k: int|
                                        0 <= k < seen@.len() && (#[trigger] seen@[k])@ == sig@;
                                    assert(signature(kept[k]) == signature((*profile, *rule)));
                                    assert(first_per_signature(cs.subrange(0, m + 1)) == kept);
                                }
                            } else {
                                proof {
                                    assert(!(exists|k: int|
                                        0 <= k < kept.len() && signature(#[trigger] kept[k])
                                            == signature((*profile, *rule)))) by {
                                        if exists|k: int|
                                            0 <= k < kept.len() && signature(#[trigger] kept[k])
                                                == signature((*profile, *rule)) {
                                            let k = choose|k: int|
                                                0 <= k < kept.len() && signature(#[trigger] kept[k])
                                                    == signature((*profile, *rule));
                                            assert(seen@[k]@ == signature(kept[k]));
                                        }
                                    }
                                    assert(first_per_signature(cs.subrange(0, m + 1)) == kept.push(
                                        (*profile, *rule),
                                    ));
                                }
                                rules.push(compiled);
                                seen.push(sig);
                            }
                        },
                    }
                    proof {
                        m = m + 1;
                    }
                } else {
                    assert(enabled_rules(*profile, ri as int + 1) == enabled_rules(*profile, ri as int));
                }
                ri = ri + 1;
            }
            oi = oi + 1;
        }
        let emergency = normalize_all(&settings.engine.emergency_stop);
        let ghost kept = first_per_signature(cs);
        assert(cs.subrange(0, m) =~= cs);
        assert(rules@.map_values(|r: CompiledRule| r@) =~= kept.map_values(
            |c: (Profile, Rule)| compiled_view(c),
        ));
        let compiled = CompiledRules { revision: settings.revision, rules, emergency };
        Ok((compiled, no))
    }
}

// ---------------------------------------------------------------------------
// Scope matching
// ---------------------------------------------------------------------------

pub open spec fn text_of(v: Option<String>) -> Option<Seq<char>> {
    match v {
        Some(s) => Some(s@),
        None => None,
    }
}

/// The context text a condition field reads.
pub open spec fn context_value(ctx: MatchContext, f: ConditionField) -> Option<Seq<char>> {
    match f {
        ConditionField::ProcessName => text_of(ctx.process_name),
        ConditionField::ExecutablePath => text_of(ctx.executable_path),
        ConditionField::WindowClass => text_of(ctx.window_class),
        ConditionField::DeviceId => text_of(ctx.device_id),
    }
}

/// A condition holds when its field is known and equals (or contains) the
/// expected text, ignoring ASCII case.
pub open spec fn condition_holds(c: MatchConditionView, ctx: MatchContext) -> bool {
    match context_value(ctx, c.field) {
        None => false,
        Some(actual) => match c.operator {
            TextOperator::Equals => lower(actual) == lower(c.value),
            TextOperator::Contains => contains_seq(lower(actual), lower(c.value)),
        },
    }
}

pub open spec fn group_holds(g: ConditionGroupView, ctx: MatchContext) -> bool {
    match g.operator {
        ConditionOperator::And => forall|i: int|
            0 <= i < g.conditions.len() ==> condition_holds(#[trigger] g.conditions[i], ctx),
        ConditionOperator::Or => exists|i: int|
            0 <= i < g.conditions.len() && condition_holds(#[trigger] g.conditions[i], ctx),
    }
}

/// A global scope always applies; the others apply when their condition
/// group holds.
pub open spec fn scope_matches(scope: ProfileScopeView, ctx: MatchContext) -> bool {
    match scope {
        ProfileScopeView::Global => true,
        ProfileScopeView::Application(g) => group_holds(g, ctx),
        ProfileScopeView::Device(g) => group_holds(g, ctx),
        ProfileScopeView::Combined(g) => group_holds(g, ctx),
    }
}

fn context_value_exec(ctx: &MatchContext, f: ConditionField) -> (r: Option<&String>)
    ensures
        match r {
            Some(s) => context_value(*ctx, f) == Some(s@),
            None => context_value(*ctx, f) is None,
        },
{
    match f {
        ConditionField::ProcessName => ctx.process_name.as_ref(),
        ConditionField::ExecutablePath => ctx.executable_path.as_ref(),
        ConditionField::WindowClass => ctx.window_class.as_ref(),
        ConditionField::DeviceId => ctx.device_id.as_ref(),
    }
}

fn condition_holds_exec(c: &crate::model::MatchCondition, ctx: &MatchContext) -> (r: bool)
    ensures
        r == condition_holds(c@, *ctx),
{
    match context_value_exec(ctx, c.field()) {
        None => false,
        Some(actual) => match c.operator() {
            TextOperator::Equals => eq_ignore_ascii_case(actual.as_str(), c.value()),
            TextOperator::Contains => contains_ignore_case(actual.as_str(), c.value()),
        },
    }
}

fn group_holds_exec(g: &crate::model::ConditionGroup, ctx: &MatchContext) -> (r: bool)
    ensures
        r == group_holds(g@, *ctx),
{
    let n = g.conditions.len();
    let mut i: usize = 0;
    match g.operator {
        ConditionOperator::And => {
            while i < n
                invariant
                    g.operator == ConditionOperator::And,
                    n == g.conditions@.len(),
                    i <= n,
                    forall|k: int| 0 <= k < i ==> condition_holds(#[trigger] g@.conditions[k], *ctx),
                decreases n - i,
            {
                if !condition_holds_exec(&g.conditions[i], ctx) {
                    assert(!condition_holds(g@.conditions[i as int], *ctx));
                    return false;
                }
                i = i + 1;
            }
            true
        },
        ConditionOperator::Or => {
            while i < n
                invariant
                    g.operator == ConditionOperator::Or,
                    n == g.conditions@.len(),
                    i <= n,
                    forall|k: int| 0 <= k < i ==> !condition_holds(#[trigger] g@.conditions[k], *ctx),
                decreases n - i,
            {
                if condition_holds_exec(&g.conditions[i], ctx) {
                    assert(condition_holds(g@.conditions[i as int], *ctx));
                    return true;
                }
                i = i + 1;
            }
            false
        },
    }
}

fn scope_matches_exec(scope: &ProfileScope, ctx: &MatchContext) -> (r: bool)
    ensures
        r == scope_matches(scope@, *ctx),
{
    match scope {
        ProfileScope::Global => true,
        ProfileScope::Application { conditions } => group_holds_exec(conditions, ctx),
        ProfileScope::Device { conditions } => group_holds_exec(conditions, ctx),
        ProfileScope::Combined { conditions } => group_holds_exec(conditions, ctx),
    }
}

// ---------------------------------------------------------------------------
// Held outputs
// ---------------------------------------------------------------------------

struct HeldOutput {
    key: String,
    action: DispatchAction,
}

/// Outputs held down, keyed by the source key, kept sorted by key.
struct HeldOutputs {
    entries: Vec<HeldOutput>,
}

spec fn held_keys(e: Seq<HeldOutput>) -> Seq<Seq<char>> {
    e.map_values(|h: HeldOutput| h.key@)
}

spec fn index_of(e: Seq<HeldOutput>, k: Seq<char>) -> int {
    choose|i: int| 0 <= i < e.len() && e[i].key@ == k
}

spec fn held_map(e: Seq<HeldOutput>) -> Map<Seq<char>, DispatchActionView> {
    Map::new(|k: Seq<char>| held_keys(e).contains(k), |k: Seq<char>| e[index_of(e, k)].action@)
}

proof fn lemma_index_of(e: Seq<HeldOutput>, i: int)
    requires
        sorted_strict(held_keys(e)),
        0 <= i < e.len(),
    ensures
        index_of(e, e[i].key@) == i,
        held_map(e).contains_key(e[i].key@),
        held_map(e)[e[i].key@] == e[i].action@,
{
    lemma_seq_lt_order();
    assert(held_keys(e)[i] == e[i].key@);
    let j = index_of(e, e[i].key@);
    assert(0 <= j < e.len() && e[j].key@ == e[i].key@);
    if j < i {
        assert(seq_lt(held_keys(e)[j], held_keys(e)[i]));
    } else if j > i {
        assert(seq_lt(held_keys(e)[i], held_keys(e)[j]));
    }
}

impl View for HeldOutputs {
    type V = Map<Seq<char>, DispatchActionView>;

    closed spec fn view(&self) -> Map<Seq<char>, DispatchActionView> {
        held_map(self.entries@)
    }
}

impl HeldOutputs {
    spec fn wf(&self) -> bool {
        sorted_strict(held_keys(self.entries@))
    }

    fn new() -> (r: HeldOutputs)
        ensures
            r.wf(),
            r@ == Map::<Seq<char>, DispatchActionView>::empty(),
    {
        let r = HeldOutputs { entries: Vec::new() };
        assert(r@ =~= Map::<Seq<char>, DispatchActionView>::empty());
        r
    }

    /// The index of the first entry whose key is not below `key`.
    fn lower_bound(&self, key: &str) -> (r: usize)
        requires
            self.wf(),
        ensures
            r <= self.entries@.len(),
            forall|i: int| 0 <= i < r ==> seq_lt(#[trigger] self.entries@[i].key@, key@),
            r < self.entries@.len() ==> !seq_lt(self.entries@[r as int].key@, key@),
    {
        let n = self.entries.len();
        let mut i: usize = 0;
        while i < n && str_lt(self.entries[i].key.as_str(), key)
            invariant
                n == self.entries@.len(),
                i <= n,
                forall|j: int| 0 <= j < i ==> seq_lt(#[trigger] self.entries@[j].key@, key@),
            decreases n - i,
        {
            i = i + 1;
        }
        i
    }

    /// Index of the entry for `key`, if any.
    fn find(&self, key: &str) -> (r: Option<usize>)
        requires
            self.wf(),
        ensures
            match r {
                Some(i) => i < self.entries@.len() && self.entries@[i as int].key@ == key@
                    && self@.contains_key(key@),
                None => !self@.contains_key(key@),
            },
    {
        proof {
            lemma_seq_lt_order();
        }
        let p = self.lower_bound(key);
        if p < self.entries.len() && str_eq(self.entries[p].key.as_str(), key) {
            proof {
                lemma_index_of(self.entries@, p as int);
            }
            return Some(p);
        }
        proof {
            if held_keys(self.entries@).contains(key@) {
                let j = choose|j: int| 0 <= j < held_keys(self.entries@).len() && held_keys(self.entries@)[j] == key@;
                assert(self.entries@[j].key@ == key@);
                if j < p {
                    assert(seq_lt(self.entries@[j].key@, key@));
                } else if j > p {
                    assert(seq_lt(held_keys(self.entries@)[p as int], held_keys(self.entries@)[j]));
                    assert(seq_lt(self.entries@[p as int].key@, key@) || self.entries@[p as int].key@ == key@);
                }
            }
        }
        None
    }

    fn get(&self, key: &str) -> (r: Option<&DispatchAction>)
        requires
            self.wf(),
        ensures
            match r {
                Some(a) => self@.contains_key(key@) && self@[key@] == a@,
                None => !self@.contains_key(key@),
            },
    {
        match self.find(key) {
            Some(i) => {
                proof {
                    lemma_index_of(self.entries@, i as int);
                }
                Some(&self.entries[i].action)
            },
            None => None,
        }
    }

    fn insert(&mut self, key: String, action: DispatchAction)
        requires
            old(self).wf(),
        ensures
            final(self).wf(),
            final(self)@ == old(self)@.insert(key@, action@),
    {
        proof {
            lemma_seq_lt_order();
        }
        let ghost old_e = self.entries@;
        let ghost kk = key@;
        let ghost av = action@;
        let p = self.lower_bound(key.as_str());
        if p < self.entries.len() && str_eq(self.entries[p].key.as_str(), key.as_str()) {
            self.entries.set(p, HeldOutput { key, action });
            proof {
                let e = self.entries@;
                assert(held_keys(e) =~= held_keys(old_e));
                assert(held_keys(old_e)[p as int] == kk);
                assert(held_map(e) =~= held_map(old_e).insert(kk, av)) by {
                    assert forall|k: Seq<char>| held_map(e).contains_key(k) <==> held_map(old_e).insert(kk, av).contains_key(k) by {
                        if k == kk {
                            assert(held_keys(e)[p as int] == kk);
                        }
                    }
                    assert forall|k: Seq<char>| #[trigger] held_map(e).contains_key(k) implies held_map(e)[k] == held_map(old_e).insert(kk, av)[k] by {
                        let j = choose|j: int| 0 <= j < held_keys(e).len() && held_keys(e)[j] == k;
                        lemma_index_of(e, j);
                        lemma_index_of(old_e, j);
                        if j == p {
                            assert(e[j].key@ == kk);
                            assert(e[j].action@ == av);
                        } else {
                            assert(e[j] == old_e[j]);
                            if j < p {
                                assert(seq_lt(held_keys(e)[j], held_keys(e)[p as int]));
                            } else {
                                assert(seq_lt(held_keys(e)[p as int], held_keys(e)[j]));
                            }
                            assert(k != kk);
                        }
                    }
                }
            }
        } else {
            self.entries.insert(p, HeldOutput { key, action });
            proof {
                let e = self.entries@;
                let ok = held_keys(old_e);
                let nk = held_keys(e);
                assert(nk =~= ok.insert(p as int, kk));
                if p < old_e.len() {
                    assert(seq_lt(kk, ok[p as int])) by {
                        assert(!seq_lt(ok[p as int], kk));
                        assert(ok[p as int] != kk);
                    }
                }
                assert forall|i: int, j: int| 0 <= i < j < nk.len() implies seq_lt(#[trigger] nk[i], #[trigger] nk[j]) by {
                    if j < p {
                    } else if j == p {
                    } else if i < p {
                        assert(nk[j] == ok[j - 1]);
                        if p < old_e.len() && j - 1 > p {
                            assert(seq_lt(ok[p as int], ok[j - 1]));
                        }
                    } else if i == p {
                        assert(nk[j] == ok[j - 1]);
                        if j - 1 > p {
                            assert(seq_lt(ok[p as int], ok[j - 1]));
                        }
                    } else {
                        assert(nk[i] == ok[i - 1] && nk[j] == ok[j - 1]);
                    }
                }
                assert(held_map(e) =~= held_map(old_e).insert(kk, av)) by {
                    assert forall|k: Seq<char>| held_map(e).contains_key(k) <==> held_map(old_e).insert(kk, av).contains_key(k) by {
                        if nk.contains(k) {
                            let m = choose|m: int| 0 <= m < nk.len() && nk[m] == k;
                            if m < p {
                                assert(ok[m] == k);
                            } else if m > p {
                                assert(ok[m - 1] == k);
                            }
                        }
                        if ok.contains(k) {
                            let m = choose|m: int| 0 <= m < ok.len() && ok[m] == k;
                            if m < p {
                                assert(nk[m] == k);
                            } else {
                                assert(nk[m + 1] == k);
                            }
                        }
                        if k == kk {
                            assert(nk[p as int] == kk);
                        }
                    }
                    assert forall|k: Seq<char>| #[trigger] held_map(e).contains_key(k) implies held_map(e)[k] == held_map(old_e).insert(kk, av)[k] by {
                        let m = choose|m: int| 0 <= m < nk.len() && nk[m] == k;
                        lemma_index_of(e, m);
                        if m < p {
                            lemma_index_of(old_e, m);
                        } else if m > p {
                            lemma_index_of(old_e, m - 1);
                        }
                    }
                }
            }
        }
    }

    fn remove(&mut self, key: &str) -> (r: Option<DispatchAction>)
        requires
            old(self).wf(),
        ensures
            final(self).wf(),
            final(self)@ == old(self)@.remove(key@),
            match r {
                Some(a) => old(self)@.contains_key(key@) && old(self)@[key@] == a@,
                None => !old(self)@.contains_key(key@),
            },
    {
        proof {
            lemma_seq_lt_order();
        }
        let ghost old_e = self.entries@;
        match self.find(key) {
            None => {
                assert(self@ =~= self@.remove(key@));
                None
            },
            Some(i) => {
                proof {
                    lemma_index_of(old_e, i as int);
                }
                let h = self.entries.remove(i);
                proof {
                    let e = self.entries@;
                    let ok = held_keys(old_e);
                    let nk = held_keys(e);
                    assert(nk =~= ok.remove(i as int));
                    assert forall|a: int, b: int| 0 <= a < b < nk.len() implies seq_lt(#[trigger] nk[a], #[trigger] nk[b]) by {
                        let aa = if a < i { a } else { a + 1 };
                        let bb = if b < i { b } else { b + 1 };
                        assert(nk[a] == ok[aa] && nk[b] == ok[bb]);
                    }
                    assert(held_map(e) =~= held_map(old_e).remove(key@)) by {
                        assert forall|k: Seq<char>| held_map(e).contains_key(k) <==> held_map(old_e).remove(key@).contains_key(k) by {
                            if nk.contains(k) {
                                let m = choose|m: int| 0 <= m < nk.len() && nk[m] == k;
                                let mm = if m < i { m } else { m + 1 };
                                assert(ok[mm] == k);
                                if k == key@ {
                                    assert(ok[i as int] == key@);
                                    if mm < i {
                                        assert(seq_lt(ok[mm], ok[i as int]));
                                    } else {
                                        assert(seq_lt(ok[i as int], ok[mm]));
                                    }
                                }
                            }
                            if ok.contains(k) && k != key@ {
                                let m = choose|m: int| 0 <= m < ok.len() && ok[m] == k;
                                assert(m != i);
                                if m < i {
                                    assert(nk[m] == k);
                                } else {
                                    assert(nk[m - 1] == k);
                                }
                            }
                        }
                        assert forall|k: Seq<char>| #[trigger] held_map(e).contains_key(k) implies held_map(e)[k] == held_map(old_e).remove(key@)[k] by {
                            let m = choose|m: int| 0 <= m < nk.len() && nk[m] == k;
                            lemma_index_of(e, m);
                            if m < i {
                                lemma_index_of(old_e, m);
                            } else {
                                lemma_index_of(old_e, m + 1);
                            }
                        }
                    }
                }
                Some(h.action)
            },
        }
    }

    /// Empties the set and hands out the held actions in key order.
    fn take_all(&mut self) -> (r: Vec<DispatchAction>)
        requires
            old(self).wf(),
        ensures
            final(self).wf(),
            final(self)@ == Map::<Seq<char>, DispatchActionView>::empty(),
            r@.map_values(|a: DispatchAction| a@) == sorted_of(old(self)@.dom()).map_values(
                |k: Seq<char>| old(self)@[k],
            ),
    {
        let ghost old_e = self.entries@;
        let mut entries: Vec<HeldOutput> = Vec::new();
        std::mem::swap(&mut entries, &mut self.entries);
        let mut out: Vec<DispatchAction> = Vec::new();
        let n = entries.len();
        let mut i: usize = 0;
        while i < n
            invariant
                entries@ == old_e,
                n == old_e.len(),
                i <= n,
                out@.len() == i,
                forall|j: int| 0 <= j < i ==> #[trigger] out@[j]@ == old_e[j].action@,
            decreases n - i,
        {
            out.push(entries[i].action.duplicate());
            i = i + 1;
        }
        proof {
            let ok = held_keys(old_e);
            assert(ok.to_set() =~= held_map(old_e).dom());
            lemma_sorted_of(ok);
            let lhs = out@.map_values(|a: DispatchAction| a@);
            let rhs = sorted_of(held_map(old_e).dom()).map_values(|k: Seq<char>| held_map(old_e)[k]);
            assert forall|j: int| 0 <= j < n implies #[trigger] lhs[j] == rhs[j] by {
                lemma_index_of(old_e, j);
                assert(ok[j] == old_e[j].key@);
            }
            assert(lhs =~= rhs);
            assert(held_map(self.entries@) =~= Map::<Seq<char>, DispatchActionView>::empty());
        }
        out
    }
}


// ---------------------------------------------------------------------------
// Runtime
// ---------------------------------------------------------------------------

/// The held actions released, in key order, each as a key-up.
pub open spec fn released(held: Map<Seq<char>, DispatchActionView>) -> Seq<DispatchActionView> {
    sorted_of(held.dom()).map_values(|k: Seq<char>| with_phase(held[k], DispatchActionPhase::Up))
}

/// A compiled rule fires for a key event: same phase, the event key is one
/// of its keys, its scope applies, and all its keys are pressed.
pub open spec fn rule_fires(
    r: CompiledRuleView,
    key: Seq<char>,
    phase: KeyPhase,
    pressed: Set<Seq<char>>,
    ctx: MatchContext,
) -> bool {
    &&& r.phase == phase
    &&& exists|k: int| 0 <= k < r.chord.len() && key_matches(key, #[trigger] r.chord[k])
    &&& scope_matches(r.scope, ctx)
    &&& forall|k: int| 0 <= k < r.chord.len() ==> pressed_contains(pressed, #[trigger] r.chord[k])
}

/// The first rule from index `i` on that fires.
pub open spec fn first_firing(
    rules: Seq<CompiledRuleView>,
    i: int,
    key: Seq<char>,
    phase: KeyPhase,
    pressed: Set<Seq<char>>,
    ctx: MatchContext,
) -> Option<int>
    decreases rules.len() - i,
{
    if i < 0 || i >= rules.len() {
        None
    } else if rule_fires(rules[i], key, phase, pressed, ctx) {
        Some(i)
    } else {
        first_firing(rules, i + 1, key, phase, pressed, ctx)
    }
}

/// The keys a pressed key currently stands for: the output of the remap it
/// holds, or itself.
pub open spec fn active_keys(held: Map<Seq<char>, DispatchActionView>, actual: Seq<char>) -> Seq<
    Seq<char>,
> {
    if held.contains_key(actual) {
        match held[actual].action {
            ActionView::SendKeys { chord } => normalized_all(chord),
            ActionView::SendMouse { .. } => seq![actual],
        }
    } else {
        seq![actual]
    }
}

/// `k` must be released around an output: it is what a pressed modifier of
/// the trigger (other than the event key) currently stands for, and the
/// output does not use it.
pub open spec fn must_release(
    actual: Seq<char>,
    k: Seq<char>,
    held: Map<Seq<char>, DispatchActionView>,
    trigger: Seq<Seq<char>>,
    output: Seq<Seq<char>>,
    event_key: Seq<char>,
) -> bool {
    &&& actual != event_key
    &&& is_modifier_key(actual)
    &&& exists|t: int| 0 <= t < trigger.len() && key_matches(actual, #[trigger] trigger[t])
    &&& active_keys(held, actual).contains(k)
    &&& !exists|o: int| 0 <= o < output.len() && keys_overlap(k, #[trigger] output[o])
}

/// The modifier keys to release for the duration of a key output, sorted
/// and without duplicates; none for a mouse output.
pub open spec fn transient_releases(
    pressed: Set<Seq<char>>,
    held: Map<Seq<char>, DispatchActionView>,
    trigger: Seq<Seq<char>>,
    action: ActionView,
    event_key: Seq<char>,
) -> Seq<Seq<char>> {
    match action {
        ActionView::SendMouse { .. } => Seq::empty(),
        ActionView::SendKeys { chord } => sorted_of(
            Set::new(
                |k: Seq<char>|
                    exists|actual: Seq<char>|
                        pressed.contains(actual) && #[trigger] must_release(
                            actual,
                            k,
                            held,
                            trigger,
                            normalized_all(chord),
                            event_key,
                        ),
            ),
        ),
    }
}

/// The state of the runtime engine.
pub struct EngineView {
    pub rules: CompiledRulesView,
    pub pressed: Set<Seq<char>>,
    pub paused: bool,
    /// Keys whose key-up is suppressed because their key-down was consumed.
    pub consumed: Set<Seq<char>>,
    /// Outputs held down until their source key goes up, by source key.
    pub held: Map<Seq<char>, DispatchActionView>,
}

pub open spec fn dispatch(suppress: bool, actions: Seq<DispatchActionView>, emergency: bool) -> DispatchView {
    DispatchView { suppress_original: suppress, actions, emergency_stop: emergency }
}

/// One event, from the state before to the state after and the decision.
pub open spec fn step(e: EngineView, event: KeyEvent, ctx: MatchContext) -> (EngineView, DispatchView) {
    let key = normalize_key(event.key@);
    let down = event.phase == KeyPhase::Down;
    if event.origin != EventOrigin::Physical {
        (e, pass_view())
    } else if !down && e.consumed.contains(key) {
        (
            EngineView {
                consumed: e.consumed.remove(key),
                pressed: e.pressed.remove(key),
                held: e.held.remove(key),
                ..e
            },
            dispatch(
                true,
                if e.held.contains_key(key) {
                    seq![with_phase(e.held[key], DispatchActionPhase::Up)]
                } else {
                    Seq::empty()
                },
                false,
            ),
        )
    } else if e.paused {
        (
            EngineView { pressed: if down { e.pressed } else { e.pressed.remove(key) }, ..e },
            dispatch(down && e.consumed.contains(key), Seq::empty(), false),
        )
    } else if down && e.held.contains_key(key) {
        (e, dispatch(true, seq![e.held[key]], false))
    } else if down && e.consumed.contains(key) {
        (e, dispatch(true, Seq::empty(), false))
    } else {
        let pressed = if down { e.pressed.insert(key) } else { e.pressed };
        if down && forall|i: int|
            0 <= i < e.rules.emergency.len() ==> pressed_contains(
                pressed,
                #[trigger] e.rules.emergency[i],
            ) {
            (
                EngineView {
                    paused: true,
                    pressed: Set::empty(),
                    held: Map::empty(),
                    ..e
                },
                dispatch(true, released(e.held), true),
            )
        } else {
            match first_firing(e.rules.rules, 0, key, event.phase, pressed, ctx) {
                Some(i) => {
                    let r = e.rules.rules[i];
                    if down {
                        let a = DispatchActionView {
                            profile_id: r.profile_id,
                            rule_id: r.rule_id,
                            action: r.action,
                            phase: if r.stateful_remap {
                                DispatchActionPhase::Down
                            } else {
                                DispatchActionPhase::Invoke
                            },
                            transient_release_inputs: if r.stateful_remap {
                                Seq::empty()
                            } else {
                                transient_releases(pressed, e.held, r.chord, r.action, key)
                            },
                        };
                        (
                            EngineView {
                                pressed,
                                consumed: if r.pass_through {
                                    e.consumed
                                } else {
                                    e.consumed.insert(key)
                                },
                                held: if r.stateful_remap {
                                    e.held.insert(key, a)
                                } else {
                                    e.held
                                },
                                ..e
                            },
                            dispatch(!r.pass_through, seq![a], false),
                        )
                    } else {
                        let after = pressed.remove(key);
                        (
                            EngineView { pressed: after, ..e },
                            dispatch(
                                !r.pass_through,
                                seq![
                                    DispatchActionView {
                                        profile_id: r.profile_id,
                                        rule_id: r.rule_id,
                                        action: r.action,
                                        phase: DispatchActionPhase::Invoke,
                                        transient_release_inputs: transient_releases(
                                            after,
                                            e.held,
                                            r.chord,
                                            r.action,
                                            key,
                                        ),
                                    },
                                ],
                                false,
                            ),
                        )
                    }
                },
                None => (
                    EngineView {
                        pressed: if down { pressed } else { pressed.remove(key) },
                        ..e
                    },
                    pass_view(),
                ),
            }
        }
    }
}

/// Pausing or resuming: pausing forgets the pressed keys and releases every
/// held output; a request for the current state changes nothing.
pub open spec fn pause_step(e: EngineView, paused: bool) -> (EngineView, Seq<DispatchActionView>) {
    if e.paused == paused {
        (e, Seq::empty())
    } else if paused {
        (
            EngineView { paused: true, pressed: Set::empty(), held: Map::empty(), ..e },
            released(e.held),
        )
    } else {
        (EngineView { paused: false, ..e }, Seq::empty())
    }
}

/// Forgetting that a key was consumed, after its output failed.
pub open spec fn cancel_step(e: EngineView, key: Seq<char>) -> EngineView {
    let k = normalize_key(key);
    EngineView { consumed: e.consumed.remove(k), held: e.held.remove(k), ..e }
}

/// What every reachable engine state keeps: a held output sits on a
/// consumed key as a key-down, and a paused engine holds nothing.
pub open spec fn engine_inv(e: EngineView) -> bool {
    &&& rules_wf(e.rules)
    &&& e.held.dom().finite()
    &&& forall|k: Seq<char>|
        #[trigger] e.held.contains_key(k) ==> e.consumed.contains(k) && e.held[k].phase
            == DispatchActionPhase::Down
    &&& e.paused ==> e.held.dom() == Set::<Seq<char>>::empty()
}

pub struct RuntimeEngine {
    rules: CompiledRules,
    pressed: KeySet,
    paused: bool,
    consumed_inputs: KeySet,
    held_outputs: HeldOutputs,
}

impl View for RuntimeEngine {
    type V = EngineView;

    closed spec fn view(&self) -> EngineView {
        EngineView {
            rules: self.rules@,
            pressed: self.pressed@,
            paused: self.paused,
            consumed: self.consumed_inputs@,
            held: self.held_outputs@,
        }
    }
}

fn chord_hits_key(chord: &Vec<String>, key: &str) -> (r: bool)
    ensures
        r == exists|k: int| 0 <= k < chord@.len() && key_matches(key@, #[trigger] texts(chord@)[k]),
{
    let n = chord.len();
    let mut i: usize = 0;
    while i < n
        invariant
            n == chord@.len(),
            i <= n,
            forall|k: int| 0 <= k < i ==> !key_matches(key@, #[trigger] texts(chord@)[k]),
        decreases n - i,
    {
        if key_matches_exec(key, chord[i].as_str()) {
            assert(key_matches(key@, texts(chord@)[i as int]));
            return true;
        }
        i = i + 1;
    }
    false
}

fn all_pressed(chord: &Vec<String>, pressed: &KeySet) -> (r: bool)
    ensures
        r == forall|k: int| 0 <= k < chord@.len() ==> pressed_contains(pressed@, #[trigger] texts(chord@)[k]),
{
    let n = chord.len();
    let mut i: usize = 0;
    while i < n
        invariant
            n == chord@.len(),
            i <= n,
            forall|k: int| 0 <= k < i ==> pressed_contains(pressed@, #[trigger] texts(chord@)[k]),
        decreases n - i,
    {
        if !pressed.satisfies(chord[i].as_str()) {
            assert(!pressed_contains(pressed@, texts(chord@)[i as int]));
            return false;
        }
        i = i + 1;
    }
    true
}

fn rule_fires_exec(
    rule: &CompiledRule,
    key: &str,
    phase: KeyPhase,
    pressed: &KeySet,
    ctx: &MatchContext,
) -> (r: bool)
    ensures
        r == rule_fires(rule@, key@, phase, pressed@, *ctx),
{
    let r = rule.phase == phase && chord_hits_key(&rule.chord, key) && scope_matches_exec(
        &rule.scope,
        ctx,
    ) && all_pressed(&rule.chord, pressed);
    proof {
        let v = rule@;
        assert(v.chord == texts(rule.chord@));
        if r {
            let k = choose|k: int| 0 <= k < rule.chord@.len() && key_matches(key@, #[trigger] texts(rule.chord@)[k]);
            assert(key_matches(key@, v.chord[k]));
        }
        if rule_fires(v, key@, phase, pressed@, *ctx) {
            let k = choose|k: int| 0 <= k < v.chord.len() && key_matches(key@, #[trigger] v.chord[k]);
            assert(key_matches(key@, texts(rule.chord@)[k]));
            assert forall|k: int| 0 <= k < rule.chord@.len() implies pressed_contains(pressed@, #[trigger] texts(rule.chord@)[k]) by {
                assert(pressed_contains(pressed@, v.chord[k]));
            }
        }
    }
    r
}

fn any_hit(keys: &Vec<String>, k: &str) -> (r: bool)
    ensures
        r == !kept(k@, texts(keys@)),
{
    let n = keys.len();
    let mut i: usize = 0;
    while i < n
        invariant
            n == keys@.len(),
            i <= n,
            forall|o: int| 0 <= o < i ==> !keys_overlap(k@, #[trigger] texts(keys@)[o]),
        decreases n - i,
    {
        if keys_overlap_exec(k, keys[i].as_str()) {
            assert(keys_overlap(k@, texts(keys@)[i as int]));
            return true;
        }
        i = i + 1;
    }
    false
}

fn active_keys_exec(held: &HeldOutputs, actual: &String) -> (r: Vec<String>)
    requires
        held.wf(),
    ensures
        texts(r@) == active_keys(held@, actual@),
{
    match held.get(actual.as_str()) {
        Some(d) => match &d.action {
            Action::SendKeys { chord } => normalize_all(chord),
            Action::SendMouse { .. } => {
                let mut v: Vec<String> = Vec::new();
                v.push(actual.clone());
                assert(texts(v@) =~= seq![actual@]);
                v
            },
        },
        None => {
            let mut v: Vec<String> = Vec::new();
            v.push(actual.clone());
            assert(texts(v@) =~= seq![actual@]);
            v
        },
    }
}

fn transient_modifier_releases(
    pressed: &KeySet,
    held: &HeldOutputs,
    trigger_chord: &Vec<String>,
    action: &Action,
    event_key: &str,
) -> (r: Vec<String>)
    requires
        pressed.wf(),
        held.wf(),
    ensures
        texts(r@) == transient_releases(pressed@, held@, texts(trigger_chord@), action@, event_key@),
{
    let chord = match action {
        Action::SendKeys { chord } => chord,
        Action::SendMouse { .. } => {
            let r: Vec<String> = Vec::new();
            assert(texts(r@) =~= Seq::<Seq<char>>::empty());
            return r;
        },
    };
    let ghost out_norm = normalized_all(texts(chord@));
    let ghost trig = texts(trigger_chord@);
    let ghost target = Set::new(
        |k: Seq<char>|
            exists|actual: Seq<char>|
                pressed@.contains(actual) && #[trigger] must_release(
                    actual,
                    k,
                    held@,
                    trig,
                    out_norm,
                    event_key@,
                ),
    );
    let output = normalize_all(chord);
    let keys = pressed.keys();
    let mut releases: Vec<String> = Vec::new();
    let n = keys.len();
    let mut i: usize = 0;
    while i < n
        invariant
            n == keys@.len(),
            i <= n,
            texts(keys@).to_set() == pressed@,
            texts(output@) == out_norm,
            trig == texts(trigger_chord@),
            held.wf(),
            sorted_strict(texts(releases@)),
            forall|x: Seq<char>| texts(releases@).contains(x) <==> exists|m: int| 0 <= m < i && #[trigger] must_release(texts(keys@)[m], x, held@, trig, out_norm, event_key@),
        decreases n - i,
    {
        let actual = &keys[i];
        let ghost before = texts(releases@);
        if !str_eq(actual.as_str(), event_key) && is_modifier_key_exec(actual.as_str())
            && chord_hits_key_rev(trigger_chord, actual.as_str()) {
            let active = active_keys_exec(held, actual);
            let na = active.len();
            let mut j: usize = 0;
            while j < na
                invariant
                    na == active@.len(),
                    j <= na,
                    texts(active@) == active_keys(held@, actual@),
                    texts(output@) == out_norm,
                    sorted_strict(texts(releases@)),
                    forall|x: Seq<char>| #[trigger] texts(releases@).contains(x) <==> (before.contains(x) || from_active(texts(active@), j as int, x, out_norm)),
                decreases na - j,
            {
                let k = &active[j];
                let ghost pre = texts(releases@);
                proof {
                    lemma_from_active_step(texts(active@), j as int, out_norm);
                }
                if !any_hit(&output, k.as_str()) {
                    insert_sorted(&mut releases, k.clone());
                    assert forall|x: Seq<char>| #[trigger] texts(releases@).contains(x) <==> pre.contains(x) || x == k@ by {
                        assert(texts(releases@).to_set().contains(x) == texts(releases@).contains(x));
                        assert(pre.to_set().contains(x) == pre.contains(x));
                    }
                }
                j = j + 1;
            }
            proof {
                assert forall|x: Seq<char>| #[trigger] texts(releases@).contains(x) <==> exists|m: int| 0 <= m < i + 1 && #[trigger] must_release(texts(keys@)[m], x, held@, trig, out_norm, event_key@) by {
                    if texts(releases@).contains(x) && !before.contains(x) {
                        assert(from_active(texts(active@), na as int, x, out_norm));
                        let q = choose|q: int| 0 <= q < na && #[trigger] texts(active@)[q] == x && kept(x, out_norm);
                        assert(active_keys(held@, actual@).contains(x));
                        assert(must_release(texts(keys@)[i as int], x, held@, trig, out_norm, event_key@));
                    }
                    if must_release(texts(keys@)[i as int], x, held@, trig, out_norm, event_key@) {
                        let q = choose|q: int| 0 <= q < active_keys(held@, actual@).len() && active_keys(held@, actual@)[q] == x;
                        assert(texts(active@)[q] == x);
                        assert(kept(x, out_norm));
                        assert(from_active(texts(active@), na as int, x, out_norm));
                    }
                }
            }
        } else {
            proof {
                assert forall|x: Seq<char>| texts(releases@).contains(x) <==> exists|m: int| 0 <= m < i + 1 && #[trigger] must_release(texts(keys@)[m], x, held@, trig, out_norm, event_key@) by {
                    if exists|m: int| 0 <= m < i + 1 && #[trigger] must_release(texts(keys@)[m], x, held@, trig, out_norm, event_key@) {
                        let m = choose|m: int| 0 <= m < i + 1 && #[trigger] must_release(texts(keys@)[m], x, held@, trig, out_norm, event_key@);
                        if m == i {
                            assert(!must_release(texts(keys@)[i as int], x, held@, trig, out_norm, event_key@));
                        }
                    }
                }
            }
        }
        i = i + 1;
    }
    proof {
        assert(texts(releases@).to_set() =~= target) by {
            assert forall|x: Seq<char>| texts(releases@).to_set().contains(x) <==> target.contains(x) by {
                if texts(releases@).contains(x) {
                    let m = choose|m: int| 0 <= m < n && #[trigger] must_release(texts(keys@)[m], x, held@, trig, out_norm, event_key@);
                    assert(texts(keys@).contains(texts(keys@)[m]));
                    assert(pressed@.contains(texts(keys@)[m]));
                }
                if target.contains(x) {
                    let a = choose|a: Seq<char>| pressed@.contains(a) && #[trigger] must_release(a, x, held@, trig, out_norm, event_key@);
                    assert(texts(keys@).to_set().contains(a));
                    let m = choose|m: int| 0 <= m < texts(keys@).len() && texts(keys@)[m] == a;
                    assert(must_release(texts(keys@)[m], x, held@, trig, out_norm, event_key@));
                }
            }
        }
        lemma_sorted_of(texts(releases@));
    }
    releases
}

/// `x` is kept as a release: no output key overlaps it.
pub open spec fn kept(x: Seq<char>, out: Seq<Seq<char>>) -> bool {
    !exists|o: int| 0 <= o < out.len() && keys_overlap(x, #[trigger] out[o])
}

pub open spec fn from_active(active: Seq<Seq<char>>, j: int, x: Seq<char>, out: Seq<Seq<char>>) -> bool {
    exists|q: int| 0 <= q < j && #[trigger] active[q] == x && kept(x, out)
}

proof fn lemma_from_active_step(active: Seq<Seq<char>>, j: int, out: Seq<Seq<char>>)
    requires
        0 <= j < active.len(),
    ensures
        forall|x: Seq<char>| #[trigger] from_active(active, j + 1, x, out) <==> (from_active(active, j, x, out) || (x == active[j] && kept(x, out))),
{
    assert forall|x: Seq<char>| #[trigger] from_active(active, j + 1, x, out) <==> (from_active(active, j, x, out) || (x == active[j] && kept(x, out))) by {
        if from_active(active, j + 1, x, out) {
            let q = choose|q: int| 0 <= q < j + 1 && #[trigger] active[q] == x && kept(x, out);
            if q < j {
                assert(from_active(active, j, x, out));
            }
        }
        if x == active[j] && kept(x, out) {
            assert(active[j] == x);
        }
    }
}

fn chord_hits_key_rev(chord: &Vec<String>, actual: &str) -> (r: bool)
    ensures
        r == exists|t: int| 0 <= t < chord@.len() && key_matches(actual@, #[trigger] texts(chord@)[t]),
{
    chord_hits_key(chord, actual)
}


/// The held actions as released, in key order.
fn release_all(held: &mut HeldOutputs) -> (r: Vec<DispatchAction>)
    requires
        old(held).wf(),
    ensures
        final(held).wf(),
        final(held)@ == Map::<Seq<char>, DispatchActionView>::empty(),
        r@.map_values(|a: DispatchAction| a@) == released(old(held)@),
{
    let ghost h0 = held@;
    let taken = held.take_all();
    let mut out: Vec<DispatchAction> = Vec::new();
    let n = taken.len();
    let mut i: usize = 0;
    while i < n
        invariant
            n == taken@.len(),
            i <= n,
            out@.len() == i,
            forall|j: int| 0 <= j < i ==> #[trigger] out@[j]@ == with_phase(taken@[j]@, DispatchActionPhase::Up),
        decreases n - i,
    {
        let mut a = taken[i].duplicate();
        a.phase = DispatchActionPhase::Up;
        out.push(a);
        i = i + 1;
    }
    proof {
        let tv = taken@.map_values(|a: DispatchAction| a@);
        let sk = sorted_of(h0.dom());
        assert(tv == sk.map_values(|k: Seq<char>| h0[k]));
        assert(tv.len() == sk.len());
        let ov = out@.map_values(|a: DispatchAction| a@);
        let rel = released(h0);
        assert forall|j: int| 0 <= j < n implies #[trigger] ov[j] == rel[j] by {
            assert(tv[j] == h0[sk[j]]);
            assert(taken@[j]@ == tv[j]);
        }
        assert(ov =~= rel);
    }
    out
}

impl RuntimeEngine {
    pub closed spec fn wf(&self) -> bool {
        &&& self.pressed.wf()
        &&& self.consumed_inputs.wf()
        &&& self.held_outputs.wf()
        &&& engine_inv(self@)
    }

    pub fn new(rules: CompiledRules) -> (r: RuntimeEngine)
        ensures
            r.wf(),
            r@ == (EngineView {
                rules: rules@,
                pressed: Set::empty(),
                paused: false,
                consumed: Set::empty(),
                held: Map::empty(),
            }),
    {
        proof {
            use_type_invariant(&rules);
        }
        let r = RuntimeEngine {
            rules,
            pressed: KeySet::new(),
            paused: false,
            consumed_inputs: KeySet::new(),
            held_outputs: HeldOutputs::new(),
        };
        assert(r@.held.dom() =~= Set::<Seq<char>>::empty());
        r
    }

    pub fn replace_rules(&mut self, rules: CompiledRules)
        requires
            old(self).wf(),
        ensures
            final(self).wf(),
            final(self)@ == (EngineView { rules: rules@, ..old(self)@ }),
    {
        proof {
            use_type_invariant(&rules);
        }
        self.rules = rules;
    }

    pub fn revision(&self) -> (r: u64)
        ensures
            r == self@.rules.revision,
    {
        self.rules.revision()
    }

    pub fn is_paused(&self) -> (r: bool)
        ensures
            r == self@.paused,
    {
        self.paused
    }

    /// Pauses or resumes the engine. Pausing forgets the pressed keys and
    /// returns the release of every held output, in key order.
    pub fn set_paused(&mut self, paused: bool) -> (r: Vec<DispatchAction>)
        requires
            old(self).wf(),
        ensures
            final(self).wf(),
            (final(self)@, r@.map_values(|a: DispatchAction| a@)) == pause_step(old(self)@, paused),
    {
        if self.paused == paused {
            let r: Vec<DispatchAction> = Vec::new();
            assert(r@.map_values(|a: DispatchAction| a@) =~= Seq::<DispatchActionView>::empty());
            return r;
        }
        self.paused = paused;
        if paused {
            self.pressed.clear();
            let r = release_all(&mut self.held_outputs);
            assert(self@.held.dom() =~= Set::<Seq<char>>::empty());
            return r;
        }
        let r: Vec<DispatchAction> = Vec::new();
        assert(r@.map_values(|a: DispatchAction| a@) =~= Seq::<DispatchActionView>::empty());
        r
    }

    /// Forgets that `key` was consumed, and any output it holds, so that its
    /// key-up goes through.
    pub fn cancel_consumed(&mut self, key: &str)
        requires
            old(self).wf(),
        ensures
            final(self).wf(),
            final(self)@ == cancel_step(old(self)@, key@),
    {
        let ghost e0 = self@;
        let key = normalize_key_exec(key);
        self.consumed_inputs.remove(key.as_str());
        let _ = self.held_outputs.remove(key.as_str());
        proof {
            let e = self@;
            assert forall|k: Seq<char>| #[trigger] e.held.contains_key(k) implies e.consumed.contains(k) && e.held[k].phase == DispatchActionPhase::Down by {
                assert(e0.held.contains_key(k));
            }
            if e.paused {
                assert(e.held.dom() =~= Set::<Seq<char>>::empty());
            }
        }
    }

    fn emergency_pressed(&self) -> (r: bool)
        requires
            self.pressed.wf(),
        ensures
            r == forall|i: int|
                0 <= i < self@.rules.emergency.len() ==> pressed_contains(
                    self@.pressed,
                    #[trigger] self@.rules.emergency[i],
                ),
    {
        let n = self.rules.emergency.len();
        let mut i: usize = 0;
        while i < n
            invariant
                n == self@.rules.emergency.len(),
                n == self.rules.emergency@.len(),
                self@.rules.emergency == texts(self.rules.emergency@),
                i <= n,
                forall|k: int| 0 <= k < i ==> pressed_contains(self@.pressed, #[trigger] self@.rules.emergency[k]),
            decreases n - i,
        {
            if !self.pressed.satisfies(self.rules.emergency[i].as_str()) {
                assert(!pressed_contains(self@.pressed, self@.rules.emergency[i as int]));
                return false;
            }
            i = i + 1;
        }
        true
    }

    /// Decides what to do with one key event, and updates the engine.
    #[verifier::spinoff_prover]
    pub fn process(&mut self, event: &KeyEvent, context: &MatchContext) -> (r: Dispatch)
        requires
            old(self).wf(),
        ensures
            final(self).wf(),
            (final(self)@, r@) == step(old(self)@, *event, *context),
    {
        let ghost e0 = self@;
        proof {
            lemma_step_inv(e0, *event, *context);
        }
        if event.origin != EventOrigin::Physical {
            return Dispatch::pass();
        }
        let key = normalize_key_exec(event.key.as_str());
        let down = event.phase == KeyPhase::Down;
        if !down && self.consumed_inputs.contains(key.as_str()) {
            self.consumed_inputs.remove(key.as_str());
            self.pressed.remove(key.as_str());
            let removed = self.held_outputs.remove(key.as_str());
            let mut actions: Vec<DispatchAction> = Vec::new();
            if let Some(mut action) = removed {
                action.phase = DispatchActionPhase::Up;
                actions.push(action);
            }
            let r = Dispatch { suppress_original: true, actions, emergency_stop: false };
            assert(r@.actions =~= step(e0, *event, *context).1.actions);
            return r;
        }
        if self.paused {
            if !down {
                self.pressed.remove(key.as_str());
            }
            let suppress = down && self.consumed_inputs.contains(key.as_str());
            let r = Dispatch { suppress_original: suppress, actions: Vec::new(), emergency_stop: false };
            assert(r@.actions =~= Seq::<DispatchActionView>::empty());
            return r;
        }
        if down {
            match self.held_outputs.get(key.as_str()) {
                Some(action) => {
                    let mut actions: Vec<DispatchAction> = Vec::new();
                    actions.push(action.duplicate());
                    let r = Dispatch { suppress_original: true, actions, emergency_stop: false };
                    assert(r@.actions =~= step(e0, *event, *context).1.actions);
                    return r;
                },
                None => {},
            }
            if self.consumed_inputs.contains(key.as_str()) {
                let r = Dispatch { suppress_original: true, actions: Vec::new(), emergency_stop: false };
                assert(r@.actions =~= Seq::<DispatchActionView>::empty());
                return r;
            }
            self.pressed.insert(key.clone());
            let ghost p1 = self@.pressed;
            assert(p1 == e0.pressed.insert(key@));
            assert(self@.rules == e0.rules);
            if self.emergency_pressed() {
                assert(forall|i: int|
                    0 <= i < e0.rules.emergency.len() ==> pressed_contains(
                        e0.pressed.insert(key@),
                        #[trigger] e0.rules.emergency[i],
                    ));
                self.paused = true;
                self.pressed.clear();
                let actions = release_all(&mut self.held_outputs);
                let r = Dispatch { suppress_original: true, actions, emergency_stop: true };
                assert(self@.held =~= Map::<Seq<char>, DispatchActionView>::empty());
                assert(self@.pressed =~= Set::<Seq<char>>::empty());
                assert(r@.actions == released(e0.held));
                assert(self@ =~= step(e0, *event, *context).0);
                return r;
            }
        }
        let ghost e1 = self@;
        let n = self.rules.rules.len();
        let mut i: usize = 0;
        #[verifier::loop_isolation(false)]
        while i < n
            invariant
                self@ == e1,
                self.pressed.wf(),
                self.consumed_inputs.wf(),
                self.held_outputs.wf(),
                n == self.rules.rules@.len(),
                n == e1.rules.rules.len(),
                i <= n,
                first_firing(e1.rules.rules, 0, key@, event.phase, e1.pressed, *context)
                    == first_firing(e1.rules.rules, i as int, key@, event.phase, e1.pressed, *context),
            decreases n - i,
        {
            if rule_fires_exec(&self.rules.rules[i], key.as_str(), event.phase, &self.pressed, context) {
                let rule = &self.rules.rules[i];
                assert(rule@ == e1.rules.rules[i as int]);
                assert(first_firing(e1.rules.rules, 0, key@, event.phase, e1.pressed, *context) == Some(i as int));
                assert(e1.pressed == (if down { e0.pressed.insert(key@) } else { e0.pressed }));
                if down {
                    let transient = if rule.stateful_remap {
                        let v: Vec<String> = Vec::new();
                        assert(texts(v@) =~= Seq::<Seq<char>>::empty());
                        v
                    } else {
                        transient_modifier_releases(
                            &self.pressed,
                            &self.held_outputs,
                            &rule.chord,
                            &rule.action,
                            key.as_str(),
                        )
                    };
                    let action = DispatchAction {
                        profile_id: rule.profile_id,
                        rule_id: rule.rule_id,
                        action: rule.action.duplicate(),
                        phase: if rule.stateful_remap {
                            DispatchActionPhase::Down
                        } else {
                            DispatchActionPhase::Invoke
                        },
                        transient_release_inputs: transient,
                    };
                    let pass_through = rule.pass_through;
                    let stateful = rule.stateful_remap;
                    let ghost rs = e1.rules.rules[i as int];
                    assert(action@.transient_release_inputs == (if rs.stateful_remap { Seq::<Seq<char>>::empty() } else { transient_releases(e1.pressed, e1.held, rs.chord, rs.action, key@) }));
                    assert(action@.action == rs.action);
                    assert(pass_through == rs.pass_through);
                    assert(stateful == rs.stateful_remap);
                    if !pass_through {
                        self.consumed_inputs.insert(key.clone());
                    }
                    if stateful {
                        self.held_outputs.insert(key.clone(), action.duplicate());
                    }
                    let mut actions: Vec<DispatchAction> = Vec::new();
                    actions.push(action);
                    let r = Dispatch { suppress_original: !pass_through, actions, emergency_stop: false };
                    assert(r@.actions =~= step(e0, *event, *context).1.actions);
                    return r;
                } else {
                    let pass_through = rule.pass_through;
                    let profile_id = rule.profile_id;
                    let rule_id = rule.rule_id;
                    let out = rule.action.duplicate();
                    let chord = copy_strings(&rule.chord);
                    self.pressed.remove(key.as_str());
                    let transient = transient_modifier_releases(
                        &self.pressed,
                        &self.held_outputs,
                        &chord,
                        &out,
                        key.as_str(),
                    );
                    let mut actions: Vec<DispatchAction> = Vec::new();
                    actions.push(
                        DispatchAction {
                            profile_id,
                            rule_id,
                            action: out,
                            phase: DispatchActionPhase::Invoke,
                            transient_release_inputs: transient,
                        },
                    );
                    let r = Dispatch { suppress_original: !pass_through, actions, emergency_stop: false };
                    assert(r@.actions =~= step(e0, *event, *context).1.actions);
                    return r;
                }
            }
            i = i + 1;
        }
        if !down {
            self.pressed.remove(key.as_str());
        }
        Dispatch::pass()
    }
}

/// Every step keeps the engine invariant.
pub proof fn lemma_step_inv(e: EngineView, event: KeyEvent, ctx: MatchContext)
    requires
        engine_inv(e),
    ensures
        engine_inv(step(e, event, ctx).0),
{
    let key = normalize_key(event.key@);
    let after = step(e, event, ctx).0;
    assert(after.rules == e.rules);
    if event.origin == EventOrigin::Physical && !(event.phase == KeyPhase::Up && e.consumed.contains(key)) && !e.paused
        && !(event.phase == KeyPhase::Down && (e.held.contains_key(key) || e.consumed.contains(key))) {
        let pressed = if event.phase == KeyPhase::Down { e.pressed.insert(key) } else { e.pressed };
        if event.phase == KeyPhase::Down && forall|i: int|
            0 <= i < e.rules.emergency.len() ==> pressed_contains(pressed, #[trigger] e.rules.emergency[i]) {
            assert(after.held.dom() =~= Set::<Seq<char>>::empty());
        } else {
            match first_firing(e.rules.rules, 0, key, event.phase, pressed, ctx) {
                Some(i) => {
                    lemma_first_firing_bounds(e.rules.rules, 0, key, event.phase, pressed, ctx);
                    assert(0 <= i < e.rules.rules.len());
                    let r = e.rules.rules[i];
                    assert(r.stateful_remap ==> !r.pass_through);
                },
                None => {},
            }
        }
    } else if event.origin == EventOrigin::Physical && event.phase == KeyPhase::Up && e.consumed.contains(key) {
        assert forall|k: Seq<char>| #[trigger] after.held.contains_key(k) implies after.consumed.contains(k) && after.held[k].phase == DispatchActionPhase::Down by {
            assert(e.held.contains_key(k));
        }
        if e.paused {
            assert(after.held.dom() =~= Set::<Seq<char>>::empty());
        }
    }
}

pub proof fn lemma_first_firing_bounds(
    rules: Seq<CompiledRuleView>,
    i: int,
    key: Seq<char>,
    phase: KeyPhase,
    pressed: Set<Seq<char>>,
    ctx: MatchContext,
)
    requires
        0 <= i,
    ensures
        first_firing(rules, i, key, phase, pressed, ctx) matches Some(j) ==> i <= j < rules.len()
            && rule_fires(rules[j], key, phase, pressed, ctx),
    decreases rules.len() - i,
{
    if i < rules.len() && !rule_fires(rules[i], key, phase, pressed, ctx) {
        lemma_first_firing_bounds(rules, i + 1, key, phase, pressed, ctx);
    }
}

} // verus!
