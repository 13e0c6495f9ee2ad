use keyforge::engine::{
    CompileError, CompiledRules, DispatchActionPhase, EventOrigin, KeyEvent, KeyPhase,
    MatchContext, RuntimeEngine,
};
use keyforge::model::{
    Action, Profile, ProfileScope, Rule, Settings, Trigger, TriggerGesture, TriggerPhase,
};

fn settings_with_remap() -> Settings {
    let mut settings = Settings::default();
    let mut profile = Profile::new("global");
    profile.rules.push(Rule::key_remap("A", "B"));
    settings.profiles = vec![profile];
    settings
}

fn event(key: &str, phase: KeyPhase) -> KeyEvent {
    KeyEvent {
        key: key.into(),
        phase,
        origin: EventOrigin::Physical,
        repeat: false,
    }
}

fn chord_is(action: &Action, expected: &[&str]) -> bool {
    match action {
        Action::SendKeys { chord } => chord.iter().map(String::as_str).eq(expected.iter().copied()),
        Action::SendMouse { .. } => false,
    }
}

#[test]
fn injected_input_is_never_processed() {
    let rules = CompiledRules::compile(&settings_with_remap()).unwrap();
    let mut engine = RuntimeEngine::new(rules);
    let dispatch = engine.process(
        &KeyEvent {
            key: "A".into(),
            phase: KeyPhase::Down,
            origin: EventOrigin::InjectedSelf,
            repeat: false,
        },
        &MatchContext::default(),
    );
    assert!(!dispatch.suppress_original);
    assert!(dispatch.actions.is_empty());
}

#[test]
fn global_key_remap_matches_without_app_context() {
    let rules = CompiledRules::compile(&settings_with_remap()).unwrap();
    let mut engine = RuntimeEngine::new(rules);
    let dispatch = engine.process(&event("A", KeyPhase::Down), &MatchContext::default());
    assert!(dispatch.suppress_original);
    assert!(chord_is(&dispatch.actions[0].action, &["B"]));
}

#[test]
fn single_modifier_remap_holds_output_until_source_key_up() {
    let mut settings = Settings::default();
    let mut profile = Profile::new("modifier remap");
    profile.rules.push(Rule::key_remap("ControlLeft", "MetaLeft"));
    settings.profiles = vec![profile];

    let rules = CompiledRules::compile(&settings).unwrap();
    let mut engine = RuntimeEngine::new(rules);
    let down = engine.process(&event("ControlLeft", KeyPhase::Down), &MatchContext::default());

    assert!(down.suppress_original);
    assert_eq!(down.actions.len(), 1);
    assert_eq!(down.actions[0].phase, DispatchActionPhase::Down);
    assert!(chord_is(&down.actions[0].action, &["MetaLeft"]));

    let up = engine.process(&event("ControlLeft", KeyPhase::Up), &MatchContext::default());

    assert!(up.suppress_original);
    assert_eq!(up.actions.len(), 1);
    assert_eq!(up.actions[0].phase, DispatchActionPhase::Up);
    assert!(chord_is(&up.actions[0].action, &["MetaLeft"]));
}

#[test]
fn modifier_cycle_does_not_consume_the_next_ordinary_key() {
    let mut settings = Settings::default();
    let mut profile = Profile::new("three-way modifier cycle");
    profile.rules.push(Rule::key_remap("AltLeft", "ControlLeft"));
    profile.rules.push(Rule::key_remap("ControlLeft", "MetaLeft"));
    profile.rules.push(Rule::key_remap("MetaLeft", "AltLeft"));
    settings.profiles = vec![profile];

    let rules = CompiledRules::compile(&settings).unwrap();
    let mut engine = RuntimeEngine::new(rules);

    let control_down =
        engine.process(&event("ControlLeft", KeyPhase::Down), &MatchContext::default());
    assert!(control_down.suppress_original);
    assert_eq!(control_down.actions[0].phase, DispatchActionPhase::Down);
    assert!(chord_is(&control_down.actions[0].action, &["MetaLeft"]));

    let ordinary_down = engine.process(&event("E", KeyPhase::Down), &MatchContext::default());
    assert!(!ordinary_down.suppress_original);
    assert!(ordinary_down.actions.is_empty());

    let ordinary_up = engine.process(&event("E", KeyPhase::Up), &MatchContext::default());
    assert!(!ordinary_up.suppress_original);
    assert!(ordinary_up.actions.is_empty());

    let control_up = engine.process(&event("ControlLeft", KeyPhase::Up), &MatchContext::default());
    assert!(control_up.suppress_original);
    assert_eq!(control_up.actions[0].phase, DispatchActionPhase::Up);
    assert!(chord_is(&control_up.actions[0].action, &["MetaLeft"]));
}

#[test]
fn generic_modifier_trigger_matches_the_current_side_specific_key() {
    let mut settings = Settings::default();
    let mut profile = Profile::new("generic modifier");
    profile.rules.push(Rule::key_remap("Control", "F24"));
    settings.profiles = vec![profile];

    let rules = CompiledRules::compile(&settings).unwrap();
    let mut engine = RuntimeEngine::new(rules);
    let dispatch = engine.process(&event("ControlLeft", KeyPhase::Down), &MatchContext::default());

    assert!(dispatch.suppress_original);
    assert!(chord_is(&dispatch.actions[0].action, &["F24"]));
}

#[test]
fn pausing_releases_a_held_modifier_remap() {
    let mut settings = Settings::default();
    let mut profile = Profile::new("modifier remap");
    profile.rules.push(Rule::key_remap("ControlLeft", "MetaLeft"));
    settings.profiles = vec![profile];

    let rules = CompiledRules::compile(&settings).unwrap();
    let mut engine = RuntimeEngine::new(rules);
    engine.process(&event("ControlLeft", KeyPhase::Down), &MatchContext::default());

    let releases = engine.set_paused(true);
    assert_eq!(releases.len(), 1);
    assert_eq!(releases[0].phase, DispatchActionPhase::Up);
    assert!(chord_is(&releases[0].action, &["MetaLeft"]));

    let source_up = engine.process(&event("ControlLeft", KeyPhase::Up), &MatchContext::default());
    assert!(source_up.suppress_original);
    assert!(source_up.actions.is_empty());
}

#[test]
fn emergency_stop_wins_before_rules() {
    let rules = CompiledRules::compile(&settings_with_remap()).unwrap();
    let mut engine = RuntimeEngine::new(rules);
    for key in ["ControlLeft", "AltRight"] {
        engine.process(&event(key, KeyPhase::Down), &MatchContext::default());
    }
    let dispatch = engine.process(&event("Pause", KeyPhase::Down), &MatchContext::default());
    assert!(dispatch.emergency_stop);
    assert!(engine.is_paused());
}

#[test]
fn side_specific_modifier_rule_does_not_match_the_other_side() {
    let mut settings = Settings::default();
    let mut profile = Profile::new("side-specific");
    let mut rule = Rule::key_remap("K", "F24");
    rule.trigger = Trigger::Keyboard {
        chord: vec!["ControlLeft".into(), "K".into()],
        phase: TriggerPhase::Press,
        gesture: TriggerGesture::Single,
    };
    profile.rules.push(rule);
    settings.profiles = vec![profile];

    let compiled = CompiledRules::compile(&settings).unwrap();
    let mut right_engine = RuntimeEngine::new(compiled.clone());
    for key in ["ControlRight", "K"] {
        let dispatch = right_engine.process(&event(key, KeyPhase::Down), &MatchContext::default());
        assert!(dispatch.actions.is_empty());
    }

    let mut left_engine = RuntimeEngine::new(compiled);
    left_engine.process(&event("ControlLeft", KeyPhase::Down), &MatchContext::default());
    let dispatch = left_engine.process(&event("K", KeyPhase::Down), &MatchContext::default());
    assert!(chord_is(&dispatch.actions[0].action, &["F24"]));
}

#[test]
fn multi_key_shortcut_releases_only_source_modifiers_not_needed_by_output() {
    let mut settings = Settings::default();
    let mut profile = Profile::new("multi-key shortcut");
    let mut rule = Rule::key_remap("S", "4");
    rule.trigger = Trigger::Keyboard {
        chord: vec!["MetaLeft".into(), "ShiftLeft".into(), "S".into()],
        phase: TriggerPhase::Press,
        gesture: TriggerGesture::Single,
    };
    rule.action = Action::SendKeys {
        chord: vec!["ControlLeft".into(), "ShiftLeft".into(), "4".into()],
    };
    profile.rules.push(rule);
    settings.profiles = vec![profile];

    let rules = CompiledRules::compile(&settings).unwrap();
    let mut engine = RuntimeEngine::new(rules);
    for key in ["MetaLeft", "ShiftLeft"] {
        let dispatch = engine.process(&event(key, KeyPhase::Down), &MatchContext::default());
        assert!(dispatch.actions.is_empty());
    }

    let dispatch = engine.process(&event("S", KeyPhase::Down), &MatchContext::default());

    assert!(dispatch.suppress_original);
    assert_eq!(dispatch.actions.len(), 1);
    assert_eq!(dispatch.actions[0].phase, DispatchActionPhase::Invoke);
    assert_eq!(dispatch.actions[0].transient_release_inputs, vec!["metaleft"]);
    assert!(chord_is(&dispatch.actions[0].action, &["ControlLeft", "ShiftLeft", "4"]));
}

#[test]
fn remapped_modifier_shortcuts_release_the_active_output_not_the_physical_key() {
    let mut settings = Settings::default();
    let mut profile = Profile::new("remapped modifier shortcut");
    profile.rules.push(Rule::key_remap("ControlLeft", "AltLeft"));
    let mut rule = Rule::key_remap("K", "F24");
    rule.trigger = Trigger::Keyboard {
        chord: vec!["ControlLeft".into(), "K".into()],
        phase: TriggerPhase::Press,
        gesture: TriggerGesture::Single,
    };
    profile.rules.push(rule);
    settings.profiles = vec![profile];

    let rules = CompiledRules::compile(&settings).unwrap();
    let mut engine = RuntimeEngine::new(rules);

    let modifier_down =
        engine.process(&event("ControlLeft", KeyPhase::Down), &MatchContext::default());
    assert!(chord_is(&modifier_down.actions[0].action, &["AltLeft"]));

    let dispatch = engine.process(&event("K", KeyPhase::Down), &MatchContext::default());

    assert!(dispatch.suppress_original);
    assert_eq!(dispatch.actions.len(), 1);
    assert_eq!(dispatch.actions[0].phase, DispatchActionPhase::Invoke);
    assert_eq!(dispatch.actions[0].transient_release_inputs, vec!["altleft"]);
    assert!(chord_is(&dispatch.actions[0].action, &["F24"]));
}

#[test]
fn detects_duplicate_global_triggers() {
    let mut settings = settings_with_remap();
    let mut second = Profile::new("other");
    second.rules.push(Rule::key_remap("A", "C"));
    settings.profiles.push(second);
    assert!(matches!(
        CompiledRules::compile(&settings),
        Err(CompileError::Conflict { .. })
    ));
}

#[test]
fn pass_through_rule_does_not_consume_key_up() {
    let mut settings = settings_with_remap();
    settings.profiles[0].rules[0].options.pass_through_original = true;
    let rules = CompiledRules::compile(&settings).unwrap();
    let mut engine = RuntimeEngine::new(rules);
    let down = engine.process(&event("A", KeyPhase::Down), &MatchContext::default());
    let up = engine.process(&event("A", KeyPhase::Up), &MatchContext::default());
    assert!(!down.suppress_original);
    assert!(!up.suppress_original);
}

#[test]
fn failed_injection_can_cancel_key_up_consumption() {
    let rules = CompiledRules::compile(&settings_with_remap()).unwrap();
    let mut engine = RuntimeEngine::new(rules);
    engine.process(&event("A", KeyPhase::Down), &MatchContext::default());
    engine.cancel_consumed("A");
    let up = engine.process(&event("A", KeyPhase::Up), &MatchContext::default());
    assert!(!up.suppress_original);
}

#[test]
fn resume_after_emergency_stop_processes_rules_again() {
    let rules = CompiledRules::compile(&settings_with_remap()).unwrap();
    let mut engine = RuntimeEngine::new(rules);
    for key in ["Control", "Alt", "Pause"] {
        engine.process(&event(key, KeyPhase::Down), &MatchContext::default());
    }
    for key in ["Pause", "Alt", "Control"] {
        engine.process(&event(key, KeyPhase::Up), &MatchContext::default());
    }
    engine.set_paused(false);
    let dispatch = engine.process(&event("A", KeyPhase::Down), &MatchContext::default());
    assert!(dispatch.suppress_original);
}

#[test]
fn default_profile_is_global() {
    assert!(matches!(
        Settings::default().profiles[0].scope,
        ProfileScope::Global
    ));
}

#[test]
fn compiled_rules_report_revision_and_size() {
    let mut settings = settings_with_remap();
    settings.revision = 9;
    let compiled = CompiledRules::compile(&settings).unwrap();
    assert_eq!(compiled.revision(), 9);
    assert_eq!(compiled.len(), 1);
    assert!(!compiled.is_empty());
}

#[test]
fn hold_gesture_is_rejected_by_the_compiler() {
    let mut settings = settings_with_remap();
    let rule_id = settings.profiles[0].rules[0].id;
    settings.profiles[0].rules[0].trigger = Trigger::Keyboard {
        chord: vec!["A".into()],
        phase: TriggerPhase::Press,
        gesture: TriggerGesture::Hold,
    };
    assert!(matches!(
        CompiledRules::compile(&settings),
        Err(CompileError::UnsupportedGesture(id)) if id == rule_id
    ));
}

#[test]
fn disabled_rules_and_archived_profiles_are_not_compiled() {
    let mut settings = settings_with_remap();
    let mut archived = Profile::new("archived");
    archived.archived = true;
    archived.rules.push(Rule::key_remap("A", "C"));
    settings.profiles.push(archived);
    let mut disabled = Rule::key_remap("B", "C");
    disabled.enabled = false;
    settings.profiles[0].rules.push(disabled);
    let compiled = CompiledRules::compile(&settings).unwrap();
    assert_eq!(compiled.len(), 1);
}

#[test]
fn release_of_a_pressed_key_that_was_not_consumed_passes() {
    let rules = CompiledRules::compile(&settings_with_remap()).unwrap();
    let mut engine = RuntimeEngine::new(rules);
    let up = engine.process(&event("Z", KeyPhase::Up), &MatchContext::default());
    assert!(!up.suppress_original);
    assert!(up.actions.is_empty());
    assert!(!up.emergency_stop);
}

#[test]
fn paused_engine_swallows_only_the_release_of_a_consumed_key() {
    let rules = CompiledRules::compile(&settings_with_remap()).unwrap();
    let mut engine = RuntimeEngine::new(rules);
    let down = engine.process(&event("A", KeyPhase::Down), &MatchContext::default());
    assert!(down.suppress_original);
    let releases = engine.set_paused(true);
    assert_eq!(releases.len(), 1);
    assert_eq!(releases[0].phase, DispatchActionPhase::Up);
    assert!(engine.is_paused());
    let other = engine.process(&event("A", KeyPhase::Down), &MatchContext::default());
    assert!(other.actions.is_empty());
    let up = engine.process(&event("A", KeyPhase::Up), &MatchContext::default());
    assert!(up.suppress_original);
    assert!(up.actions.is_empty());
}
