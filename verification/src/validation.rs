//! The rules a settings document must meet before it is saved or applied.
use vstd::prelude::*;
use crate::keys::texts;
use crate::model::{
    Action, CURRENT_SCHEMA_VERSION, DeviceSelector, Profile, ProfileScope, Rule, Settings, Trigger,
};
use crate::text::{is_blank, str_is_blank};
use crate::digits::{decimal, push_decimal, push_uuid, uuid_text};

verus! {

#[derive(PartialEq, Eq, Structural, Clone, Copy, Debug)]
pub enum ValidationError {
    Schema(u32),
    EmptyProfileName(u128),
    EmptyConditions(u128),
    UnsupportedScope(u128),
    DuplicateRule { profile: u128, rule: u128 },
    EmptyChord(u128),
    UnsafeLimit(u128),
    DuplicateProfile(u128),
    InvalidEmergencyStop,
    EmptyOutputChord(u128),
    /// A connected-keyboard selector of the profile names no identifier,
    /// so it would switch the profile on for any keyboard.
    UnsafeKeyboardActivation(u128),
}

/// The message shown for a validation error.
pub open spec fn validation_message(e: ValidationError) -> Seq<char> {
    match e {
        ValidationError::Schema(v) => "unsupported schema version "@ + decimal(v as nat),
        ValidationError::EmptyProfileName(id) => "profile "@ + uuid_text(id) + " has an empty name"@,
        ValidationError::EmptyConditions(id) => "profile "@ + uuid_text(id)
            + " requires at least one non-empty condition"@,
        ValidationError::UnsupportedScope(id) => "profile "@ + uuid_text(id)
            + " uses an application or device scope that is not supported by this build"@,
        ValidationError::DuplicateRule { profile, rule } => "profile "@ + uuid_text(profile)
            + " contains duplicate rule id "@ + uuid_text(rule),
        ValidationError::EmptyChord(id) => "rule "@ + uuid_text(id) + " has an empty keyboard chord"@,
        ValidationError::UnsafeLimit(id) => "rule "@ + uuid_text(id) + " has an unsafe execution limit"@,
        ValidationError::DuplicateProfile(id) => "profile id "@ + uuid_text(id) + " is duplicated"@,
        ValidationError::InvalidEmergencyStop =>
            "the emergency stop chord must contain at least one unique key"@,
        ValidationError::EmptyOutputChord(id) => "rule "@ + uuid_text(id) + " has an empty output chord"@,
        ValidationError::UnsafeKeyboardActivation(id) => "profile "@ + uuid_text(id)
            + " activates on a connected keyboard without a stable identifier"@,
    }
}

impl ValidationError {
    pub fn message(&self) -> (r: String)
        ensures
            r@ == validation_message(*self),
    {
        match self {
            ValidationError::Schema(v) => {
                let mut s = "unsupported schema version ".to_owned();
                push_decimal(&mut s, *v as u64);
                s
            },
            ValidationError::EmptyProfileName(id) => {
                let mut s = "profile ".to_owned();
                push_uuid(&mut s, *id);
                s.append(" has an empty name");
                s
            },
            ValidationError::EmptyConditions(id) => {
                let mut s = "profile ".to_owned();
                push_uuid(&mut s, *id);
                s.append(" requires at least one non-empty condition");
                s
            },
            ValidationError::UnsupportedScope(id) => {
                let mut s = "profile ".to_owned();
                push_uuid(&mut s, *id);
                s.append(" uses an application or device scope that is not supported by this build");
                s
            },
            ValidationError::DuplicateRule { profile, rule } => {
                let mut s = "profile ".to_owned();
                push_uuid(&mut s, *profile);
                s.append(" contains duplicate rule id ");
                push_uuid(&mut s, *rule);
                s
            },
            ValidationError::EmptyChord(id) => {
                let mut s = "rule ".to_owned();
                push_uuid(&mut s, *id);
                s.append(" has an empty keyboard chord");
                s
            },
            ValidationError::UnsafeLimit(id) => {
                let mut s = "rule ".to_owned();
                push_uuid(&mut s, *id);
                s.append(" has an unsafe execution limit");
                s
            },
            ValidationError::DuplicateProfile(id) => {
                let mut s = "profile id ".to_owned();
                push_uuid(&mut s, *id);
                s.append(" is duplicated");
                s
            },
            ValidationError::InvalidEmergencyStop => {
                "the emergency stop chord must contain at least one unique key".to_owned()
            },
            ValidationError::EmptyOutputChord(id) => {
                let mut s = "rule ".to_owned();
                push_uuid(&mut s, *id);
                s.append(" has an empty output chord");
                s
            },
            ValidationError::UnsafeKeyboardActivation(id) => {
                let mut s = "profile ".to_owned();
                push_uuid(&mut s, *id);
                s.append(" activates on a connected keyboard without a stable identifier");
                s
            },
        }
    }
}

/// A chord with no key, or with a key that is only whitespace.
pub open spec fn chord_is_unusable(chord: Seq<Seq<char>>) -> bool {
    chord.len() == 0 || exists|k: int| 0 <= k < chord.len() && is_blank(#[trigger] chord[k])
}

/// The execution limits of a rule lie outside what the engine allows.
pub open spec fn limits_are_unsafe(settings: Settings, rule: Rule) -> bool {
    ||| rule.options.max_executions == 0
    ||| rule.options.max_executions > settings.engine.max_rule_executions
    ||| rule.options.timeout_ms == 0
    ||| rule.options.timeout_ms > settings.engine.max_rule_duration_ms
}

pub open spec fn names_nothing(field: Option<String>) -> bool {
    match field {
        Some(v) => is_blank(v@),
        None => true,
    }
}

/// A selector that names no vendor, product, interface, manufacturer or
/// name: nothing about it identifies a keyboard.
pub open spec fn selector_is_unstable(s: DeviceSelector) -> bool {
    &&& names_nothing(s.vendor_id)
    &&& names_nothing(s.product_id)
    &&& names_nothing(s.interface_id)
    &&& names_nothing(s.manufacturer_contains)
    &&& names_nothing(s.name_contains)
}

/// The profile switches on for a keyboard selector that identifies nothing.
pub open spec fn activation_is_unsafe(profile: Profile) -> bool {
    exists|k: int|
        0 <= k < profile.activation.connected_keyboards@.len() && selector_is_unstable(
            #[trigger] profile.activation.connected_keyboards@[k],
        )
}

/// The first problem with rule `j` of `profile`, if any.
pub open spec fn rule_problem(settings: Settings, profile: Profile, j: int) -> Option<
    ValidationError,
> {
    let rule = profile.rules@[j];
    if exists|k: int| 0 <= k < j && #[trigger] profile.rules@[k].id == rule.id {
        Some(ValidationError::DuplicateRule { profile: profile.id, rule: rule.id })
    } else if rule.trigger matches Trigger::Keyboard { chord, .. } && chord_is_unusable(
        texts(chord@),
    ) {
        Some(ValidationError::EmptyChord(rule.id))
    } else if limits_are_unsafe(settings, rule) {
        Some(ValidationError::UnsafeLimit(rule.id))
    } else if rule.action matches Action::SendKeys { chord } && chord_is_unusable(texts(chord@)) {
        Some(ValidationError::EmptyOutputChord(rule.id))
    } else {
        None
    }
}

/// The first problem among the rules of `profile` from index `j` on.
pub open spec fn rules_problem(settings: Settings, profile: Profile, j: int) -> Option<
    ValidationError,
>
    decreases profile.rules@.len() - j,
{
    if j < 0 || j >= profile.rules@.len() {
        None
    } else if rule_problem(settings, profile, j) is Some {
        rule_problem(settings, profile, j)
    } else {
        rules_problem(settings, profile, j + 1)
    }
}

/// The first problem with profile `i` of the document, if any.
pub open spec fn profile_problem(settings: Settings, i: int) -> Option<ValidationError> {
    let profile = settings.profiles@[i];
    if exists|k: int| 0 <= k < i && #[trigger] settings.profiles@[k].id == profile.id {
        Some(ValidationError::DuplicateProfile(profile.id))
    } else if is_blank(profile.name@) {
        Some(ValidationError::EmptyProfileName(profile.id))
    } else if !(profile.scope is Global) {
        Some(ValidationError::UnsupportedScope(profile.id))
    } else if activation_is_unsafe(profile) {
        Some(ValidationError::UnsafeKeyboardActivation(profile.id))
    } else {
        rules_problem(settings, profile, 0)
    }
}

/// The first problem among the profiles from index `i` on.
pub open spec fn profiles_problem(settings: Settings, i: int) -> Option<ValidationError>
    decreases settings.profiles@.len() - i,
{
    if i < 0 || i >= settings.profiles@.len() {
        None
    } else if profile_problem(settings, i) is Some {
        profile_problem(settings, i)
    } else {
        profiles_problem(settings, i + 1)
    }
}

/// What `validate` reports: the first problem, checked in this order: the
/// schema version, the emergency stop chord, then each profile in turn.
pub open spec fn validation_result(settings: Settings) -> Result<(), ValidationError> {
    if settings.schema_version != CURRENT_SCHEMA_VERSION {
        Err(ValidationError::Schema(settings.schema_version))
    } else if chord_is_unusable(texts(settings.engine.emergency_stop@)) {
        Err(ValidationError::InvalidEmergencyStop)
    } else {
        match profiles_problem(settings, 0) {
            Some(e) => Err(e),
            None => Ok(()),
        }
    }
}

fn chord_is_unusable_exec(chord: &Vec<String>) -> (r: bool)
    ensures
        r == chord_is_unusable(texts(chord@)),
{
    let n = chord.len();
    if n == 0 {
        return true;
    }
    let mut i: usize = 0;
    while i < n
        invariant
            n == chord@.len(),
            i <= n,
            forall|k: int| 0 <= k < i ==> !is_blank(#[trigger] texts(chord@)[k]),
        decreases n - i,
    {
        if str_is_blank(chord[i].as_str()) {
            assert(is_blank(texts(chord@)[i as int]));
            return true;
        }
        i = i + 1;
    }
    false
}

fn names_nothing_exec(field: &Option<String>) -> (r: bool)
    ensures
        r == names_nothing(*field),
{
    match field {
        Some(v) => str_is_blank(v.as_str()),
        None => true,
    }
}

fn activation_is_unsafe_exec(profile: &Profile) -> (r: bool)
    ensures
        r == activation_is_unsafe(*profile),
{
    let selectors = &profile.activation.connected_keyboards;
    let n = selectors.len();
    let mut i: usize = 0;
    while i < n
        invariant
            n == selectors@.len(),
            *selectors == profile.activation.connected_keyboards,
            i <= n,
            forall|k: int| 0 <= k < i ==> !selector_is_unstable(#[trigger] selectors@[k]),
        decreases n - i,
    {
        let s = &selectors[i];
        if names_nothing_exec(&s.vendor_id) && names_nothing_exec(&s.product_id)
            && names_nothing_exec(&s.interface_id) && names_nothing_exec(&s.manufacturer_contains)
            && names_nothing_exec(&s.name_contains) {
            return true;
        }
        i = i + 1;
    }
    false
}

fn rule_problem_exec(settings: &Settings, profile: &Profile, j: usize) -> (r: Option<
    ValidationError,
>)
    requires
        j < profile.rules@.len(),
    ensures
        r == rule_problem(*settings, *profile, j as int),
{
    let rule = &profile.rules[j];
    let mut k: usize = 0;
    while k < j
        invariant
            j < profile.rules@.len(),
            k <= j,
            *rule == profile.rules@[j as int],
            forall|m: int| 0 <= m < k ==> profile.rules@[m].id != rule.id,
        decreases j - k,
    {
        if profile.rules[k].id == rule.id {
            return Some(ValidationError::DuplicateRule { profile: profile.id, rule: rule.id });
        }
        k = k + 1;
    }
    if let Trigger::Keyboard { chord, .. } = &rule.trigger {
        if chord_is_unusable_exec(chord) {
            return Some(ValidationError::EmptyChord(rule.id));
        }
    }
    if rule.options.max_executions == 0 || rule.options.max_executions
        > settings.engine.max_rule_executions || rule.options.timeout_ms == 0
        || rule.options.timeout_ms > settings.engine.max_rule_duration_ms {
        return Some(ValidationError::UnsafeLimit(rule.id));
    }
    if let Action::SendKeys { chord } = &rule.action {
        if chord_is_unusable_exec(chord) {
            return Some(ValidationError::EmptyOutputChord(rule.id));
        }
    }
    None
}

/// Checks a settings document. It returns the first problem found, in the
/// order that `validation_result` states, and `Ok` when there is none.
pub fn validate(settings: &Settings) -> (r: Result<(), ValidationError>)
    ensures
        r == validation_result(*settings),
{
    if settings.schema_version != CURRENT_SCHEMA_VERSION {
        return Err(ValidationError::Schema(settings.schema_version));
    }
    if chord_is_unusable_exec(&settings.engine.emergency_stop) {
        return Err(ValidationError::InvalidEmergencyStop);
    }
    let mut profile_ids: Vec<u128> = Vec::new();
    let n = settings.profiles.len();
    let mut i: usize = 0;
    while i < n
        invariant
            settings.schema_version == CURRENT_SCHEMA_VERSION,
            !chord_is_unusable(texts(settings.engine.emergency_stop@)),
            n == settings.profiles@.len(),
            i <= n,
            profile_ids@.len() == i,
            forall|k: int| 0 <= k < i ==> #[trigger] profile_ids@[k] == settings.profiles@[k].id,
            profiles_problem(*settings, 0) == profiles_problem(*settings, i as int),
        decreases n - i,
    {
        let profile = &settings.profiles[i];
        let mut k: usize = 0;
        while k < i
            invariant
                settings.schema_version == CURRENT_SCHEMA_VERSION,
                !chord_is_unusable(texts(settings.engine.emergency_stop@)),
                profiles_problem(*settings, 0) == profiles_problem(*settings, i as int),
                i < n,
                n == settings.profiles@.len(),
                k <= i,
                profile_ids@.len() == i,
                *profile == settings.profiles@[i as int],
                forall|m: int| 0 <= m < i ==> #[trigger] profile_ids@[m] == settings.profiles@[m].id,
                forall|m: int| 0 <= m < k ==> settings.profiles@[m].id != profile.id,
            decreases i - k,
        {
            if profile_ids[k] == profile.id {
                return Err(ValidationError::DuplicateProfile(profile.id));
            }
            k = k + 1;
        }
        profile_ids.push(profile.id);
        if str_is_blank(profile.name.as_str()) {
            return Err(ValidationError::EmptyProfileName(profile.id));
        }
        if !(matches!(&profile.scope, ProfileScope::Global)) {
            return Err(ValidationError::UnsupportedScope(profile.id));
        }
        if activation_is_unsafe_exec(profile) {
            return Err(ValidationError::UnsafeKeyboardActivation(profile.id));
        }
        let m = profile.rules.len();
        let mut j: usize = 0;
        while j < m
            invariant
                settings.schema_version == CURRENT_SCHEMA_VERSION,
                !chord_is_unusable(texts(settings.engine.emergency_stop@)),
                profiles_problem(*settings, 0) == profiles_problem(*settings, i as int),
                forall|q: int| 0 <= q < i ==> settings.profiles@[q].id != profile.id,
                !is_blank(profile.name@),
                profile.scope is Global,
                !activation_is_unsafe(*profile),
                i < n,
                n == settings.profiles@.len(),
                *profile == settings.profiles@[i as int],
                m == profile.rules@.len(),
                j <= m,
                rules_problem(*settings, *profile, 0) == rules_problem(*settings, *profile, j as int),
            decreases m - j,
        {
            let problem = rule_problem_exec(settings, profile, j);
            if let Some(e) = problem {
                return Err(e);
            }
            j = j + 1;
        }
        assert(profile_problem(*settings, i as int) is None);
        i = i + 1;
    }
    Ok(())
}

proof fn lemma_rules_problem_same(s1: Settings, s2: Settings, profile: Profile, j: int)
    requires
        s1.engine == s2.engine,
    ensures
        rules_problem(s1, profile, j) == rules_problem(s2, profile, j),
    decreases profile.rules@.len() - j,
{
    if 0 <= j < profile.rules@.len() {
        lemma_rules_problem_same(s1, s2, profile, j + 1);
    }
}

proof fn lemma_profiles_problem_same(s1: Settings, s2: Settings, i: int)
    requires
        s1.engine == s2.engine,
        s1.profiles == s2.profiles,
    ensures
        profiles_problem(s1, i) == profiles_problem(s2, i),
    decreases s1.profiles@.len() - i,
{
    if 0 <= i < s1.profiles@.len() {
        lemma_profiles_problem_same(s1, s2, i + 1);
        lemma_rules_problem_same(s1, s2, s1.profiles@[i], 0);
    }
}

/// Validation reads the schema version, the engine limits and the
/// profiles: the revision, the time stamp and the preferences play no part.
pub proof fn lemma_validation_reads_content(s1: Settings, s2: Settings)
    requires
        s1.schema_version == s2.schema_version,
        s1.engine == s2.engine,
        s1.profiles == s2.profiles,
    ensures
        validation_result(s1) == validation_result(s2),
{
    lemma_profiles_problem_same(s1, s2, 0);
}

} // verus!
