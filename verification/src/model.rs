//! The settings document: profiles of remapping rules, preferences and the
//! engine's safety limits.
use vstd::prelude::*;
use crate::keys::texts;

verus! {

pub const CURRENT_SCHEMA_VERSION: u32 = 3;

/// `uuid::Uuid::new_v4`, taken as its 128-bit value (`Uuid::as_u128`). The
/// value is random; the call sets the version nibble to 4, so the result is
/// never the nil identifier.
#[verifier::external_body]
pub(crate) fn new_id() -> (r: u128)
    ensures
        r != 0,
{
    uuid::Uuid::new_v4().as_u128()
}

/// A point in time, UTC: whole seconds since the Unix epoch and the
/// nanoseconds past them (above a billion only inside a leap second).
#[derive(PartialEq, Eq, Structural, Clone, Copy, Debug)]
pub struct Timestamp {
    pub seconds: i64,
    pub nanos: u32,
}

/// The system clock read through chrono: `std::time::SystemTime::now`,
/// converted by chrono's `From<SystemTime> for DateTime<Utc>`, and taken as
/// its seconds since the Unix epoch (`DateTime::timestamp`) and the
/// nanoseconds past them (`DateTime::timestamp_subsec_nanos`). The value is
/// the machine's clock: nothing is stated of it. The conversion handles a
/// clock set before 1970 (negative seconds); it fails only outside chrono's
/// range of about 262,000 years around the epoch, which a Windows clock
/// (100 ns steps from 1601, ending in the year 30828) cannot reach.
#[verifier::external_body]
pub(crate) fn now_utc() -> (r: Timestamp) {
    let t: chrono::DateTime<chrono::Utc> = std::time::SystemTime::now().into();
    Timestamp { seconds: t.timestamp(), nanos: t.timestamp_subsec_nanos() }
}

pub fn default_true() -> (r: bool)
    ensures
        r,
{
    true
}

pub fn default_max_executions() -> (r: u32)
    ensures
        r == 1000,
{
    1_000
}

pub fn default_timeout_ms() -> (r: u64)
    ensures
        r == 300_000,
{
    300_000
}

#[derive(Debug, Clone)]
pub struct Settings {
    pub schema_version: u32,
    pub revision: u64,
    pub updated_at: Timestamp,
    pub profiles: Vec<Profile>,
    pub preferences: Preferences,
    pub engine: EngineSettings,
}

#[derive(Debug, Clone)]
pub struct Profile {
    pub id: u128,
    pub name: String,
    pub enabled: bool,
    pub archived: bool,
    pub enable_on_startup: bool,
    pub scope: ProfileScope,
    pub rules: Vec<Rule>,
    /// When the profile takes part: always, or only while a matching
    /// keyboard is connected.
    pub activation: ProfileActivation,
    pub created_at: Timestamp,
    pub updated_at: Timestamp,
    pub last_run_at: Option<Timestamp>,
}

/// Picks keyboards out by identity: every field that is set must match.
/// Identifiers match without regard to ASCII case; manufacturer and name
/// match when they contain the given text, again without regard to case.
#[derive(Debug, Clone, PartialEq, Eq)]
pub struct DeviceSelector {
    pub vendor_id: Option<String>,
    pub product_id: Option<String>,
    pub interface_id: Option<String>,
    pub manufacturer_contains: Option<String>,
    pub name_contains: Option<String>,
    pub is_virtual: Option<bool>,
}

impl Default for DeviceSelector {
    fn default() -> (r: DeviceSelector)
        ensures
            r.vendor_id is None,
            r.product_id is None,
            r.interface_id is None,
            r.manufacturer_contains is None,
            r.name_contains is None,
            r.is_virtual is None,
    {
        DeviceSelector {
            vendor_id: None,
            product_id: None,
            interface_id: None,
            manufacturer_contains: None,
            name_contains: None,
            is_virtual: None,
        }
    }
}

/// The number of fields a selector sets: the more it sets, the more
/// specific it is.
pub open spec fn selector_specificity(s: DeviceSelector) -> nat {
    (if s.vendor_id is Some { 1nat } else { 0nat }) + (if s.product_id is Some { 1nat } else { 0nat })
        + (if s.interface_id is Some { 1nat } else { 0nat }) + (if s.manufacturer_contains is Some {
        1nat
    } else {
        0nat
    }) + (if s.name_contains is Some { 1nat } else { 0nat }) + (if s.is_virtual is Some {
        1nat
    } else {
        0nat
    })
}

impl DeviceSelector {
    pub fn specificity(&self) -> (r: usize)
        ensures
            r == selector_specificity(*self),
    {
        let mut n: usize = 0;
        if self.vendor_id.is_some() {
            n = n + 1;
        }
        if self.product_id.is_some() {
            n = n + 1;
        }
        if self.interface_id.is_some() {
            n = n + 1;
        }
        if self.manufacturer_contains.is_some() {
            n = n + 1;
        }
        if self.name_contains.is_some() {
            n = n + 1;
        }
        if self.is_virtual.is_some() {
            n = n + 1;
        }
        n
    }
}

/// The connected keyboards that switch a profile on; a profile without any
/// is always active.
#[derive(Debug, Clone)]
pub struct ProfileActivation {
    pub connected_keyboards: Vec<DeviceSelector>,
}

impl ProfileActivation {
    pub fn always_active(&self) -> (r: bool)
        ensures
            r == (self.connected_keyboards@.len() == 0),
    {
        self.connected_keyboards.len() == 0
    }
}

impl Default for ProfileActivation {
    fn default() -> (r: ProfileActivation)
        ensures
            r.connected_keyboards@.len() == 0,
    {
        ProfileActivation { connected_keyboards: Vec::new() }
    }
}

#[derive(PartialEq, Eq, Structural, Clone, Copy, Debug)]
pub enum ConditionOperator {
    And,
    Or,
}

#[derive(PartialEq, Eq, Structural, Clone, Copy, Debug)]
pub enum TextOperator {
    Equals,
    Contains,
}

/// The context field a match condition reads.
#[derive(PartialEq, Eq, Structural, Clone, Copy, Debug)]
pub enum ConditionField {
    ProcessName,
    ExecutablePath,
    WindowClass,
    DeviceId,
}

#[derive(Debug, Clone)]
pub enum MatchCondition {
    ProcessName { operator: TextOperator, value: String },
    ExecutablePath { operator: TextOperator, value: String },
    WindowClass { operator: TextOperator, value: String },
    DeviceId { operator: TextOperator, value: String },
}

pub struct MatchConditionView {
    pub field: ConditionField,
    pub operator: TextOperator,
    pub value: Seq<char>,
}

impl View for MatchCondition {
    type V = MatchConditionView;

    open spec fn view(&self) -> MatchConditionView {
        match self {
            MatchCondition::ProcessName { operator, value } => MatchConditionView {
                field: ConditionField::ProcessName,
                operator: *operator,
                value: value@,
            },
            MatchCondition::ExecutablePath { operator, value } => MatchConditionView {
                field: ConditionField::ExecutablePath,
                operator: *operator,
                value: value@,
            },
            MatchCondition::WindowClass { operator, value } => MatchConditionView {
                field: ConditionField::WindowClass,
                operator: *operator,
                value: value@,
            },
            MatchCondition::DeviceId { operator, value } => MatchConditionView {
                field: ConditionField::DeviceId,
                operator: *operator,
                value: value@,
            },
        }
    }
}

impl MatchCondition {
    /// The text the condition compares against.
    pub fn value(&self) -> (r: &str)
        ensures
            r@ == self@.value,
    {
        match self {
            MatchCondition::ProcessName { value, .. } => value.as_str(),
            MatchCondition::ExecutablePath { value, .. } => value.as_str(),
            MatchCondition::WindowClass { value, .. } => value.as_str(),
            MatchCondition::DeviceId { value, .. } => value.as_str(),
        }
    }

    pub fn field(&self) -> (r: ConditionField)
        ensures
            r == self@.field,
    {
        match self {
            MatchCondition::ProcessName { .. } => ConditionField::ProcessName,
            MatchCondition::ExecutablePath { .. } => ConditionField::ExecutablePath,
            MatchCondition::WindowClass { .. } => ConditionField::WindowClass,
            MatchCondition::DeviceId { .. } => ConditionField::DeviceId,
        }
    }

    pub fn operator(&self) -> (r: TextOperator)
        ensures
            r == self@.operator,
    {
        match self {
            MatchCondition::ProcessName { operator, .. } => *operator,
            MatchCondition::ExecutablePath { operator, .. } => *operator,
            MatchCondition::WindowClass { operator, .. } => *operator,
            MatchCondition::DeviceId { operator, .. } => *operator,
        }
    }

    pub fn duplicate(&self) -> (r: MatchCondition)
        ensures
            r@ == self@,
    {
        match self {
            MatchCondition::ProcessName { operator, value } => MatchCondition::ProcessName {
                operator: *operator,
                value: value.clone(),
            },
            MatchCondition::ExecutablePath { operator, value } => MatchCondition::ExecutablePath {
                operator: *operator,
                value: value.clone(),
            },
            MatchCondition::WindowClass { operator, value } => MatchCondition::WindowClass {
                operator: *operator,
                value: value.clone(),
            },
            MatchCondition::DeviceId { operator, value } => MatchCondition::DeviceId {
                operator: *operator,
                value: value.clone(),
            },
        }
    }
}

#[derive(Debug, Clone)]
pub struct ConditionGroup {
    pub operator: ConditionOperator,
    pub conditions: Vec<MatchCondition>,
}

pub struct ConditionGroupView {
    pub operator: ConditionOperator,
    pub conditions: Seq<MatchConditionView>,
}

impl View for ConditionGroup {
    type V = ConditionGroupView;

    open spec fn view(&self) -> ConditionGroupView {
        ConditionGroupView {
            operator: self.operator,
            conditions: self.conditions@.map_values(|c: MatchCondition| c@),
        }
    }
}

impl ConditionGroup {
    pub fn duplicate(&self) -> (r: ConditionGroup)
        ensures
            r@ == self@,
    {
        let mut conditions: Vec<MatchCondition> = Vec::new();
        let n = self.conditions.len();
        let mut i: usize = 0;
        while i < n
            invariant
                n == self.conditions@.len(),
                i <= n,
                conditions@.len() == i,
                forall|j: int| 0 <= j < i ==> #[trigger] conditions@[j]@ == self.conditions@[j]@,
            decreases n - i,
        {
            conditions.push(self.conditions[i].duplicate());
            i = i + 1;
        }
        let r = ConditionGroup { operator: self.operator, conditions };
        assert(r@.conditions =~= self@.conditions);
        r
    }
}

/// Where a profile applies. Only `Global` is accepted by this build.
#[derive(Debug, Clone)]
pub enum ProfileScope {
    Global,
    Application { conditions: ConditionGroup },
    Device { conditions: ConditionGroup },
    Combined { conditions: ConditionGroup },
}

pub enum ProfileScopeView {
    Global,
    Application(ConditionGroupView),
    Device(ConditionGroupView),
    Combined(ConditionGroupView),
}

impl View for ProfileScope {
    type V = ProfileScopeView;

    open spec fn view(&self) -> ProfileScopeView {
        match self {
            ProfileScope::Global => ProfileScopeView::Global,
            ProfileScope::Application { conditions } => ProfileScopeView::Application(
                conditions@,
            ),
            ProfileScope::Device { conditions } => ProfileScopeView::Device(conditions@),
            ProfileScope::Combined { conditions } => ProfileScopeView::Combined(conditions@),
        }
    }
}

impl ProfileScope {
    pub fn duplicate(&self) -> (r: ProfileScope)
        ensures
            r@ == self@,
    {
        match self {
            ProfileScope::Global => ProfileScope::Global,
            ProfileScope::Application { conditions } => ProfileScope::Application {
                conditions: conditions.duplicate(),
            },
            ProfileScope::Device { conditions } => ProfileScope::Device {
                conditions: conditions.duplicate(),
            },
            ProfileScope::Combined { conditions } => ProfileScope::Combined {
                conditions: conditions.duplicate(),
            },
        }
    }
}

#[derive(Debug, Clone)]
pub struct Rule {
    pub id: u128,
    pub order: u32,
    pub enabled: bool,
    pub trigger: Trigger,
    pub action: Action,
    pub options: RuleOptions,
}

#[derive(PartialEq, Eq, Structural, Clone, Copy, Debug)]
pub enum TriggerPhase {
    Press,
    Release,
}

#[derive(PartialEq, Eq, Structural, Clone, Copy, Debug)]
pub enum TriggerGesture {
    Single,
    Hold,
    Double,
}

#[derive(PartialEq, Eq, Structural, Clone, Copy, Debug)]
pub enum MouseButton {
    Left,
    Right,
    Middle,
    X1,
    X2,
}

#[derive(Debug, Clone)]
pub enum Trigger {
    Keyboard { chord: Vec<String>, phase: TriggerPhase, gesture: TriggerGesture },
    Mouse { button: MouseButton, phase: TriggerPhase },
}

#[derive(Debug, Clone)]
pub enum Action {
    SendKeys { chord: Vec<String> },
    SendMouse { button: MouseButton },
}

pub enum ActionView {
    SendKeys { chord: Seq<Seq<char>> },
    SendMouse { button: MouseButton },
}

impl View for Action {
    type V = ActionView;

    open spec fn view(&self) -> ActionView {
        match self {
            Action::SendKeys { chord } => ActionView::SendKeys { chord: texts(chord@) },
            Action::SendMouse { button } => ActionView::SendMouse { button: *button },
        }
    }
}

pub fn copy_strings(v: &Vec<String>) -> (r: Vec<String>)
    ensures
        texts(r@) == texts(v@),
{
    let mut out: Vec<String> = Vec::new();
    let n = v.len();
    let mut i: usize = 0;
    while i < n
        invariant
            n == v@.len(),
            i <= n,
            texts(out@) =~= texts(v@).subrange(0, i as int),
        decreases n - i,
    {
        out.push(v[i].clone());
        assert(texts(v@).subrange(0, i + 1) =~= texts(v@).subrange(0, i as int).push(v@[i as int]@));
        i = i + 1;
    }
    assert(texts(v@).subrange(0, n as int) =~= texts(v@));
    out
}

impl Action {
    pub fn duplicate(&self) -> (r: Action)
        ensures
            r@ == self@,
    {
        match self {
            Action::SendKeys { chord } => Action::SendKeys { chord: copy_strings(chord) },
            Action::SendMouse { button } => Action::SendMouse { button: *button },
        }
    }
}

#[derive(Debug, Clone)]
pub struct RuleOptions {
    pub pass_through_original: bool,
    pub ignore_injected: bool,
    pub max_executions: u32,
    pub timeout_ms: u64,
}

impl Default for RuleOptions {
    fn default() -> (r: RuleOptions)
        ensures
            !r.pass_through_original,
            r.ignore_injected,
            r.max_executions == 1000,
            r.timeout_ms == 300_000,
    {
        RuleOptions {
            pass_through_original: false,
            ignore_injected: true,
            max_executions: default_max_executions(),
            timeout_ms: default_timeout_ms(),
        }
    }
}

#[derive(PartialEq, Eq, Structural, Clone, Copy, Debug)]
pub enum Theme {
    System,
    Light,
    Dark,
}

#[derive(PartialEq, Eq, Structural, Clone, Copy, Debug)]
pub enum NotificationLevel {
    All,
    Warnings,
    Errors,
}

#[derive(Debug, Clone)]
pub struct Preferences {
    pub theme: Theme,
    pub language: String,
    pub close_to_tray: bool,
    pub start_minimized: bool,
    pub launch_at_login: bool,
    pub notifications: NotificationLevel,
}

impl Default for Preferences {
    fn default() -> (r: Preferences)
        ensures
            r.theme == Theme::System,
            r.language@ == "ko-KR"@,
            r.close_to_tray,
            !r.start_minimized,
            !r.launch_at_login,
            r.notifications == NotificationLevel::All,
    {
        Preferences {
            theme: Theme::System,
            language: "ko-KR".to_owned(),
            close_to_tray: true,
            start_minimized: false,
            launch_at_login: false,
            notifications: NotificationLevel::All,
        }
    }
}

#[derive(Debug, Clone)]
pub struct EngineSettings {
    pub emergency_stop: Vec<String>,
    pub max_rule_duration_ms: u64,
    pub max_rule_executions: u32,
    pub ignore_all_injected_input: bool,
}

impl Default for EngineSettings {
    fn default() -> (r: EngineSettings)
        ensures
            texts(r.emergency_stop@) == seq!["Control"@, "Alt"@, "Pause"@],
            r.max_rule_duration_ms == 300_000,
            r.max_rule_executions == 1000,
            r.ignore_all_injected_input,
    {
        let mut emergency_stop: Vec<String> = Vec::new();
        emergency_stop.push("Control".to_owned());
        emergency_stop.push("Alt".to_owned());
        emergency_stop.push("Pause".to_owned());
        assert(texts(emergency_stop@) =~= seq!["Control"@, "Alt"@, "Pause"@]);
        EngineSettings {
            emergency_stop,
            max_rule_duration_ms: default_timeout_ms(),
            max_rule_executions: default_max_executions(),
            ignore_all_injected_input: true,
        }
    }
}

impl Profile {
    /// A new, enabled, global profile without rules.
    pub fn new(name: &str) -> (r: Profile)
        ensures
            r.id != 0,
            r.name@ == name@,
            r.enabled,
            !r.archived,
            !r.enable_on_startup,
            r.scope is Global,
            r.rules@.len() == 0,
            r.activation.connected_keyboards@.len() == 0,
            r.created_at == r.updated_at,
            r.last_run_at is None,
    {
        let now = now_utc();
        Profile {
            id: new_id(),
            name: name.to_owned(),
            enabled: true,
            archived: false,
            enable_on_startup: false,
            scope: ProfileScope::Global,
            rules: Vec::new(),
            activation: ProfileActivation::default(),
            created_at: now,
            updated_at: now,
            last_run_at: None,
        }
    }

    fn starter() -> (r: Profile)
        ensures
            r.id != 0,
            r.name@ == "기본 전역 프로필"@,
            !r.enabled,
            !r.archived,
            r.scope is Global,
            r.rules@.len() == 0,
            r.activation.connected_keyboards@.len() == 0,
    {
        let mut profile = Profile::new("기본 전역 프로필");
        profile.enabled = false;
        profile
    }
}

impl Default for Settings {
    fn default() -> (r: Settings)
        ensures
            r.schema_version == CURRENT_SCHEMA_VERSION,
            r.revision == 0,
            r.profiles@.len() == 1,
            r.profiles@[0].name@ == "기본 전역 프로필"@,
            !r.profiles@[0].enabled,
            !r.profiles@[0].archived,
            r.profiles@[0].scope is Global,
            r.profiles@[0].rules@.len() == 0,
            r.profiles@[0].activation.connected_keyboards@.len() == 0,
            r.preferences.close_to_tray,
            !r.preferences.start_minimized,
            !r.preferences.launch_at_login,
            texts(r.engine.emergency_stop@) == seq!["Control"@, "Alt"@, "Pause"@],
            r.engine.max_rule_duration_ms == 300_000,
            r.engine.max_rule_executions == 1000,
    {
        let mut profiles: Vec<Profile> = Vec::new();
        profiles.push(Profile::starter());
        Settings {
            schema_version: CURRENT_SCHEMA_VERSION,
            revision: 0,
            updated_at: now_utc(),
            profiles,
            preferences: Preferences::default(),
            engine: EngineSettings::default(),
        }
    }
}

impl Rule {
    /// A single-key press remap from `input` to `output`.
    pub fn key_remap(input: &str, output: &str) -> (r: Rule)
        ensures
            r.id != 0,
            r.order == 0,
            r.enabled,
            r.trigger matches Trigger::Keyboard { chord, phase, gesture } && texts(chord@)
                == seq![input@] && phase == TriggerPhase::Press && gesture
                == TriggerGesture::Single,
            r.action@ == (ActionView::SendKeys { chord: seq![output@] }),
            !r.options.pass_through_original,
            r.options.ignore_injected,
            r.options.max_executions == 1000,
            r.options.timeout_ms == 300_000,
    {
        let mut chord: Vec<String> = Vec::new();
        chord.push(input.to_owned());
        let mut out: Vec<String> = Vec::new();
        out.push(output.to_owned());
        assert(texts(chord@) =~= seq![input@]);
        assert(texts(out@) =~= seq![output@]);
        Rule {
            id: new_id(),
            order: 0,
            enabled: true,
            trigger: Trigger::Keyboard {
                chord,
                phase: TriggerPhase::Press,
                gesture: TriggerGesture::Single,
            },
            action: Action::SendKeys { chord: out },
            options: RuleOptions::default(),
        }
    }
}

} // verus!
