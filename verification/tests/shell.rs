use keyforge::engine::{
    CompiledRules, DispatchActionPhase, EventOrigin, KeyEvent, KeyPhase, MatchContext, RuntimeEngine,
};
use keyforge::guard::{
    alt_space_fallback, alt_side_from_key_state, guard_message, is_alt_space_system_command,
    set_active, should_capture_system_key, should_end_capture_for_app_deactivation,
    should_swallow_message, AltSide, GuardAction, GuardState, SC_KEYMENU, WM_ACTIVATEAPP,
    WM_CONTEXTMENU, WM_MENUCHAR, WM_SYSCHAR, WM_SYSCOMMAND, WM_SYSKEYDOWN, WM_SYSKEYUP,
};
use keyforge::hook::{
    event_origin, hook_verdict, keyboard_message_phase, mouse_message_key, INPUT_MARKER,
    LLKHF_INJECTED_FLAG,
};
use keyforge::devices::{DeviceSelector, KeyboardDeviceInfo};
use keyforge::model::{Action, Profile, ProfileActivation, Rule, Settings};
use keyforge::repository::RepositoryError;
use keyforge::results::{ActionResult, ActionStatus, ActivityLog, Recovery, RecoveryAction, MAX_ACTIVITY};
use keyforge::service::{
    backup_result, compile_runtime_rules, pause_result, restore_result, runtime_state,
    save_result, startup_save_result, validate_runtime_profiles, EngineState,
    ServiceError,
};
use keyforge::shell::{
    command_error, effective_close_to_tray, tray_action, window_close_action, TrayAction,
    WindowCloseAction, MAIN_WINDOW_LABEL, TRAY_OPEN_ID, TRAY_QUIT_ID,
};
use keyforge::startup::{LaunchAtLoginError, LaunchAtLoginRegistration};
use keyforge::service::{next_save_step, SaveAction, SaveEvent, SaveStage};

#[test]
fn capture_blocks_and_records_system_key_messages_while_active() {
    assert!(should_capture_system_key(true, WM_SYSKEYDOWN));
    assert!(should_capture_system_key(true, WM_SYSKEYUP));
    assert!(!should_capture_system_key(false, WM_SYSKEYDOWN));
    assert!(should_end_capture_for_app_deactivation(WM_ACTIVATEAPP, 0));
    assert!(!should_end_capture_for_app_deactivation(WM_ACTIVATEAPP, 1));
    assert!(should_swallow_message(true, WM_SYSCOMMAND));
    assert!(should_swallow_message(true, WM_SYSCHAR));
    assert!(should_swallow_message(true, WM_MENUCHAR));
    assert!(should_swallow_message(true, WM_CONTEXTMENU));
    assert!(!should_swallow_message(true, WM_SYSKEYDOWN));
    assert!(!should_swallow_message(false, WM_SYSCOMMAND));
    assert!(is_alt_space_system_command(true, WM_SYSCOMMAND, SC_KEYMENU as usize, 0x20));
    assert!(!is_alt_space_system_command(false, WM_SYSCOMMAND, SC_KEYMENU as usize, 0x20));
    assert!(!is_alt_space_system_command(true, WM_SYSCOMMAND, SC_KEYMENU as usize, 'f' as isize));
}

#[test]
fn remembers_left_and_right_alt_side_from_system_messages() {
    let mut state = GuardState::new();
    guard_message(&mut state, WM_SYSKEYDOWN, 0x12, (0x38 << 16) as isize);
    assert_eq!(AltSide::from_cached(state.last_alt_side), Some(AltSide::Left));

    set_active(&mut state, false);
    guard_message(&mut state, WM_SYSKEYDOWN, 0x12, ((0x38 << 16) | (1 << 24)) as isize);
    assert_eq!(AltSide::from_cached(state.last_alt_side), Some(AltSide::Right));

    set_active(&mut state, false);
    assert_eq!(state.last_alt_side, 0);
}

#[test]
fn only_the_main_window_with_the_saved_preference_hides_to_tray() {
    assert_eq!(window_close_action(MAIN_WINDOW_LABEL, true), WindowCloseAction::HideToTray);
    assert_eq!(window_close_action(MAIN_WINDOW_LABEL, false), WindowCloseAction::AllowClose);
    assert_eq!(window_close_action("diagnostics", true), WindowCloseAction::AllowClose);
    assert!(effective_close_to_tray(None));
    assert!(effective_close_to_tray(Some(true)));
    assert!(!effective_close_to_tray(Some(false)));
}

#[test]
fn tray_menu_ids_have_explicit_actions() {
    assert_eq!(tray_action(TRAY_OPEN_ID), Some(TrayAction::Open));
    assert_eq!(tray_action(TRAY_QUIT_ID), Some(TrayAction::Quit));
    assert_eq!(tray_action("unknown"), None);
}

#[test]
fn guard_turns_translated_alt_space_into_the_full_chord() {
    let mut state = GuardState::new();
    set_active(&mut state, true);
    let action = guard_message(&mut state, WM_SYSKEYDOWN, 0xA5, 0);
    assert!(matches!(
        action,
        GuardAction::RecordSystemKey { virtual_key: 0xA5, key_down: true, .. }
    ));
    let action = guard_message(&mut state, WM_SYSCOMMAND, SC_KEYMENU as usize, 0x20);
    assert_eq!(action, GuardAction::RecordAltSpace { side: Some(AltSide::Right) });
    assert_eq!(state.last_alt_side, 0);
    assert_eq!(
        alt_space_fallback(AltSide::Right),
        vec![(0xA5, 0x38, true, true), (0x20, 0x39, false, true), (0x20, 0x39, false, false), (0xA5, 0x38, true, false)]
    );
    assert_eq!(alt_side_from_key_state(true, false), AltSide::Right);
    assert_eq!(alt_side_from_key_state(true, true), AltSide::Left);
    let action = guard_message(&mut state, WM_ACTIVATEAPP, 0, 0);
    assert_eq!(action, GuardAction::EndCapture);
    assert!(!state.capture_active);
    assert_eq!(guard_message(&mut state, WM_SYSCOMMAND, 0, 0), GuardAction::Default);
}

#[test]
fn guard_records_scan_code_and_extended_bit_of_system_keys() {
    let mut state = GuardState::new();
    set_active(&mut state, true);
    let action = guard_message(&mut state, WM_SYSKEYUP, 0x79, ((0x44 << 16) | (1 << 24)) as isize);
    assert_eq!(
        action,
        GuardAction::RecordSystemKey { virtual_key: 0x79, scan_code: 0x44, extended: true, key_down: false }
    );
    assert_eq!(guard_message(&mut state, WM_SYSCHAR, 0, 0), GuardAction::Swallow);
}

#[test]
fn hook_reads_origin_phase_and_mouse_buttons() {
    assert_eq!(event_origin(0, LLKHF_INJECTED_FLAG, 0), EventOrigin::Physical);
    assert_eq!(event_origin(0x10, LLKHF_INJECTED_FLAG, INPUT_MARKER), EventOrigin::InjectedSelf);
    assert_eq!(event_origin(0x10, LLKHF_INJECTED_FLAG, 7), EventOrigin::InjectedOther);
    assert_eq!(keyboard_message_phase(0x0104), Some(KeyPhase::Down));
    assert_eq!(keyboard_message_phase(0x0101), Some(KeyPhase::Up));
    assert_eq!(keyboard_message_phase(0x0200), None);
    assert_eq!(mouse_message_key(0x0201, 0), Some(("mouseleft", KeyPhase::Down)));
    assert_eq!(mouse_message_key(0x020C, 1 << 16), Some(("mousex1", KeyPhase::Up)));
    assert_eq!(mouse_message_key(0x020B, 2 << 16), Some(("mousex2", KeyPhase::Down)));
    assert_eq!(mouse_message_key(0x0200, 0), None);
}

#[test]
fn hook_swallows_only_what_it_could_replace() {
    let mut settings = Settings::default();
    let mut profile = Profile::new("remap");
    profile.rules.push(Rule::key_remap("A", "B"));
    settings.profiles = vec![profile];
    let mut engine = RuntimeEngine::new(CompiledRules::compile(&settings).unwrap());
    let down = engine.process(
        &KeyEvent { key: "A".into(), phase: KeyPhase::Down, origin: EventOrigin::Physical, repeat: false },
        &MatchContext::default(),
    );
    let ok = hook_verdict(&down, true, KeyPhase::Down);
    assert!(ok.swallow && !ok.cancel_consumed && !ok.pause);
    let failed = hook_verdict(&down, false, KeyPhase::Down);
    assert!(!failed.swallow && failed.cancel_consumed);
    let up = engine.process(
        &KeyEvent { key: "A".into(), phase: KeyPhase::Up, origin: EventOrigin::Physical, repeat: false },
        &MatchContext::default(),
    );
    assert_eq!(up.actions[0].phase, DispatchActionPhase::Up);
    let release = hook_verdict(&up, false, KeyPhase::Up);
    assert!(release.swallow && !release.cancel_consumed);
}

#[test]
fn runtime_rules_keep_the_first_profile_that_claims_a_trigger() {
    let mut settings = Settings::default();
    let mut first = Profile::new("first");
    first.rules.push(Rule::key_remap("CapsLock", "Escape"));
    let mut second = Profile::new("second");
    second.rules.push(Rule::key_remap("CapsLock", "Enter"));
    second.rules.push(Rule::key_remap("F1", "F2"));
    let mut archived = Profile::new("archived");
    archived.archived = true;
    settings.profiles = vec![first, second, archived];
    assert!(CompiledRules::compile(&settings).is_err());
    let (compiled, active) = compile_runtime_rules(&settings, &[]).unwrap();
    assert_eq!(active, 2);
    assert_eq!(compiled.len(), 2);
    assert!(validate_runtime_profiles(&settings).is_ok());

    settings.profiles[1].rules.push(Rule::key_remap("F1", "F3"));
    assert!(compile_runtime_rules(&settings, &[]).is_err());
    assert!(validate_runtime_profiles(&settings).is_err());
}

#[test]
fn runtime_state_reports_engine_and_capabilities() {
    let state = runtime_state(true, false, 3);
    assert_eq!(state.engine_state, EngineState::Running);
    assert_eq!(state.active_profile_count, 3);
    assert_eq!(state.capabilities.len(), 7);
    assert_eq!(state.capabilities[6], "connected_profile_activation");
    assert_eq!(runtime_state(true, true, 0).engine_state, EngineState::Paused);
    assert_eq!(runtime_state(false, true, 0).engine_state, EngineState::Error);
}

#[test]
fn activity_feed_keeps_the_newest_results() {
    let mut log = ActivityLog::new();
    let first = ActionResult::success("save_settings", "saved", Some(1));
    let first_id = first.action_id;
    log.push(first);
    for n in 0..MAX_ACTIVITY {
        log.push(ActionResult::success("save_settings", "saved", Some(n as u64 + 2)));
    }
    assert_eq!(log.len(), MAX_ACTIVITY);
    assert!(log.entries().iter().all(|r| r.action_id != first_id));
    let newest = log.entries()[0].clone();
    let mut updated = newest.clone();
    updated.message = "updated".into();
    log.replace(updated);
    assert_eq!(log.len(), MAX_ACTIVITY);
    assert_eq!(log.entries()[0].message, "updated");
    assert_eq!(log.entries()[0].action_id, newest.action_id);
}

#[test]
fn action_results_say_what_happened() {
    let saved = save_result(false, 4, Some("hook down".into()), "/tmp/settings.json");
    assert_eq!(saved.status, ActionStatus::Warning);
    assert_eq!(saved.revision, Some(4));
    assert_eq!(saved.recovery.as_ref().unwrap().actions, vec![RecoveryAction::Retry, RecoveryAction::OpenLogs]);
    assert_eq!(saved.details.as_ref().unwrap().stage.as_deref(), Some("verified"));

    let startup = startup_save_result(save_result(true, 5, None, "p"), true, "p");
    assert_eq!(startup.action_type, "set_launch_at_login");
    assert_eq!(startup.status, ActionStatus::Success);
    assert_eq!(startup.details.as_ref().unwrap().startup_registration_changed, Some(true));

    let restored = restore_result(save_result(true, 6, None, "p"), false, false, "p");
    assert_eq!(restored.action_type, "restore_backup");
    assert_eq!(restored.message, "백업을 복원하고 적용했습니다.");

    let paused = pause_result(true, true, 9, None);
    assert_eq!(paused.action_type, "pause_engine");
    assert_eq!(paused.revision, Some(9));
    let unavailable = pause_result(false, false, 9, Some("no hook".into()));
    assert_eq!(unavailable.status, ActionStatus::Error);
    assert_eq!(unavailable.action_type, "pause_engine");

    let backup = backup_result(Err(RepositoryError::NoBackup), 2);
    assert_eq!(backup.status, ActionStatus::Error);
    assert_eq!(
        backup.recovery.as_ref().unwrap().message.as_deref(),
        Some("no settings backup exists")
    );
    let made = backup_result(Ok("/tmp/settings.json.bak".into()), 2);
    assert_eq!(made.details.as_ref().unwrap().path.as_deref(), Some("/tmp/settings.json.bak"));

    let error = ActionResult::error(
        "x",
        "y",
        Recovery { attempted: false, succeeded: None, message: None, actions: Vec::new() },
    );
    assert_eq!(error.status, ActionStatus::Error);
    assert_ne!(error.action_id, 0);
}

#[test]
fn failed_commands_carry_a_code_and_the_service_message() {
    let error = command_error(
        "save_settings",
        "설정을 저장하지 못했습니다",
        ServiceError::Repository(RepositoryError::StaleRevision { expected: 1, current: 2 }),
    );
    assert_eq!(error.code, "stale_revision");
    assert_eq!(error.message, "stale revision: expected 1, current 2");
    assert_eq!(error.result.message, "설정을 저장하지 못했습니다");
    assert_eq!(
        error.result.recovery.as_ref().unwrap().actions,
        vec![RecoveryAction::Retry, RecoveryAction::RestoreBackup, RecoveryAction::OpenLogs]
    );

    let (_, action) = next_save_step(
        SaveStage::RollingBack { original: RepositoryError::VerificationFailed },
        SaveEvent::Restored(Err(LaunchAtLoginError::Registry("denied".into()))),
    );
    let SaveAction::Fail(rollback) = action else { panic!("a failed rollback fails the save") };
    let error = command_error("save_settings", "m", rollback);
    assert_eq!(error.code, "startup_registration_failed");
    assert_eq!(
        error.message,
        "settings were not saved and the previous Windows startup registration could not be restored: saved settings verification failed; rollback: Windows startup registry operation failed: denied"
    );
    let (_, action) = next_save_step(
        SaveStage::RollingBack { original: RepositoryError::NoBackup },
        SaveEvent::Restored(Ok(())),
    );
    assert!(matches!(action, SaveAction::Fail(ServiceError::Repository(RepositoryError::NoBackup))));
}

fn keyboard_with_ids(vendor_id: &str, product_id: &str, name: &str) -> KeyboardDeviceInfo {
    KeyboardDeviceInfo {
        id: format!("rawkbd-{vendor_id}{product_id}"),
        name: name.into(),
        device_path: format!(r"\\?\HID#VID_{vendor_id}&PID_{product_id}&MI_00#7&1234&0&0000"),
        manufacturer: Some("Example Devices".into()),
        instance_id: Some(format!(r"HID\VID_{vendor_id}&PID_{product_id}&MI_00\7&1234&0&0000")),
        container_id: Some(format!("{{{vendor_id}-{product_id}}}")),
        hardware_ids: vec!["HID_DEVICE_SYSTEM_KEYBOARD".into()],
        location_paths: vec![r"PCIROOT(0)#PCI(1400)#USBROOT(0)#USB(3)".into()],
        vendor_id: Some(vendor_id.into()),
        product_id: Some(product_id.into()),
        interface_id: Some("00".into()),
        keyboard_type: 4,
        keyboard_sub_type: 0,
        keyboard_mode: 1,
        function_key_count: 12,
        indicator_count: 3,
        total_key_count: 104,
        is_virtual: false,
        source: "raw_input".into(),
    }
}

fn profile_with_connected_keyboard_rule(name: &str, selector: DeviceSelector) -> Profile {
    let mut profile = Profile::new(name);
    profile.activation = ProfileActivation { connected_keyboards: vec![selector] };
    profile.rules.push(Rule::key_remap("CapsLock", "Escape"));
    profile
}

fn company_selector() -> DeviceSelector {
    DeviceSelector {
        vendor_id: Some("046D".into()),
        product_id: Some("C31C".into()),
        ..DeviceSelector::default()
    }
}

#[test]
fn connected_keyboard_profile_rules_override_global_conflicts() {
    let keyboard = keyboard_with_ids("046D", "C31C", "회사 키보드");
    let mut settings = Settings::default();
    let mut global = Profile::new("전역 프로필");
    global.rules.push(Rule::key_remap("CapsLock", "Escape"));
    let mut conditional = profile_with_connected_keyboard_rule("회사 프로필", company_selector());
    conditional.rules.clear();
    conditional.rules.push(Rule::key_remap("CapsLock", "Enter"));
    settings.profiles = vec![global, conditional];

    let (compiled, active_count) = compile_runtime_rules(&settings, &[keyboard]).unwrap();
    assert_eq!(active_count, 2);
    assert_eq!(compiled.len(), 1);

    let mut engine = RuntimeEngine::new(compiled);
    let dispatch = engine.process(
        &KeyEvent {
            key: "CapsLock".into(),
            phase: KeyPhase::Down,
            origin: EventOrigin::Physical,
            repeat: false,
        },
        &MatchContext::default(),
    );
    assert!(dispatch.suppress_original);
    assert!(matches!(
        &dispatch.actions[0].action,
        Action::SendKeys { chord } if chord == &vec!["Enter"]
    ));
}

#[test]
fn connected_keyboard_activation_needs_a_matching_keyboard() {
    let mut settings = Settings::default();
    settings.profiles.push(profile_with_connected_keyboard_rule("회사 프로필", company_selector()));
    let keyboard = keyboard_with_ids("046D", "C31C", "회사 키보드");
    let (compiled, active) = compile_runtime_rules(&settings, &[keyboard]).unwrap();
    assert_eq!((active, compiled.len()), (1, 1));
    let (compiled, active) = compile_runtime_rules(&settings, &[]).unwrap();
    assert_eq!((active, compiled.len()), (0, 0));
    let other = keyboard_with_ids("1234", "5678", "다른 키보드");
    assert_eq!(compile_runtime_rules(&settings, &[other]).unwrap().1, 0);
}

#[test]
fn selectorless_profiles_are_active_without_devices() {
    let mut settings = Settings::default();
    assert_eq!(compile_runtime_rules(&settings, &[]).unwrap().1, 0);
    settings.profiles.push(Profile::new("항상 활성"));
    assert_eq!(compile_runtime_rules(&settings, &[]).unwrap().1, 1);
}

#[test]
fn more_specific_keyboard_profiles_claim_triggers_first() {
    let keyboard = keyboard_with_ids("046D", "C31C", "회사 키보드");
    let mut broad = profile_with_connected_keyboard_rule(
        "제조사",
        DeviceSelector { vendor_id: Some("046d".into()), ..DeviceSelector::default() },
    );
    broad.rules.clear();
    broad.rules.push(Rule::key_remap("CapsLock", "Tab"));
    let mut exact = profile_with_connected_keyboard_rule("정확한 장치", company_selector());
    exact.rules.clear();
    exact.rules.push(Rule::key_remap("CapsLock", "Enter"));
    let mut settings = Settings::default();
    settings.profiles = vec![broad, exact];
    let (compiled, active) = compile_runtime_rules(&settings, &[keyboard]).unwrap();
    assert_eq!((active, compiled.len()), (2, 1));
    let mut engine = RuntimeEngine::new(compiled);
    let dispatch = engine.process(
        &KeyEvent { key: "CapsLock".into(), phase: KeyPhase::Down, origin: EventOrigin::Physical, repeat: false },
        &MatchContext::default(),
    );
    assert!(matches!(&dispatch.actions[0].action, Action::SendKeys { chord } if chord == &vec!["Enter"]));
}

#[test]
fn failed_save_puts_back_the_registration_it_read() {
    let read = LaunchAtLoginRegistration { command: Some("\"before.exe\"".into()), startup_approved: None };
    let (stage, action) =
        next_save_step(SaveStage::Start, SaveEvent::Begin { startup_changed: true, enable: true });
    assert!(matches!(action, SaveAction::TakeSnapshot));
    let (stage, action) = next_save_step(stage, SaveEvent::Snapshot(Ok(read.clone())));
    assert!(matches!(action, SaveAction::SetLaunchAtLogin(true)));
    let (stage, action) = next_save_step(stage, SaveEvent::Registered(Ok(())));
    assert!(matches!(action, SaveAction::Save));
    let stale = RepositoryError::StaleRevision { expected: 1, current: 2 };
    let (stage, action) = next_save_step(stage, SaveEvent::Saved(Err(stale)));
    assert!(matches!(&action, SaveAction::Restore(snapshot) if *snapshot == read));
    let (stage, action) = next_save_step(stage, SaveEvent::Restored(Ok(())));
    assert!(matches!(stage, SaveStage::Finished));
    assert!(matches!(
        action,
        SaveAction::Fail(ServiceError::Repository(RepositoryError::StaleRevision { expected: 1, current: 2 }))
    ));

    let (stage, action) =
        next_save_step(SaveStage::Start, SaveEvent::Begin { startup_changed: false, enable: false });
    assert!(matches!(action, SaveAction::Save));
    let (_, action) = next_save_step(stage, SaveEvent::Saved(Ok(())));
    assert!(matches!(action, SaveAction::Succeed));

    let (stage, _) = next_save_step(SaveStage::Start, SaveEvent::Begin { startup_changed: true, enable: true });
    let (_, action) = next_save_step(stage, SaveEvent::Snapshot(Err(LaunchAtLoginError::Unsupported)));
    assert!(matches!(action, SaveAction::Fail(ServiceError::Startup(LaunchAtLoginError::Unsupported))));
}

#[test]
fn active_guard_keeps_capturing_until_the_app_is_deactivated() {
    let mut state = GuardState::new();
    set_active(&mut state, true);
    for message in [WM_SYSKEYDOWN, WM_SYSCHAR, WM_SYSKEYUP, WM_MENUCHAR, WM_CONTEXTMENU, WM_SYSKEYDOWN] {
        let action = guard_message(&mut state, message, 0x12, 0);
        match message {
            WM_SYSKEYDOWN | WM_SYSKEYUP => assert!(matches!(action, GuardAction::RecordSystemKey { .. })),
            _ => assert!(matches!(action, GuardAction::Swallow)),
        }
        assert!(state.capture_active);
    }
    assert!(matches!(guard_message(&mut state, WM_ACTIVATEAPP, 0, 0), GuardAction::EndCapture));
    assert!(!state.capture_active);
}

#[test]
fn turned_off_guard_passes_every_message_on() {
    let mut state = GuardState::new();
    set_active(&mut state, true);
    assert!(matches!(
        guard_message(&mut state, WM_SYSKEYDOWN, 0x12, (0x38 << 16) as isize),
        GuardAction::RecordSystemKey { .. }
    ));
    assert_eq!(guard_message(&mut state, WM_SYSCHAR, 0x20, 0), GuardAction::Swallow);
    set_active(&mut state, false);
    assert_eq!(state.last_alt_side, 0);
    for message in [WM_SYSKEYDOWN, WM_SYSKEYUP, WM_SYSCHAR, WM_SYSCOMMAND, WM_MENUCHAR, WM_CONTEXTMENU] {
        assert_eq!(guard_message(&mut state, message, 0x12, (0x38 << 16) as isize), GuardAction::Default);
        assert!(!state.capture_active);
    }
    assert_eq!(guard_message(&mut state, WM_ACTIVATEAPP, 0, 0), GuardAction::EndCapture);
}
