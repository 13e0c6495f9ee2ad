use keyforge::capture::{
    force_end_active_capture, record_window_system_key, CaptureState, KeyCaptureEvent,
    CAPTURE_QUEUE_CAPACITY,
};
use keyforge::devices::{
    inventory_id, is_virtual_device_path, keyboard_device_info, keyboard_display_name,
    keyboard_matches_selector, list_connected_keyboards, path_component, DeviceInventoryError,
    DeviceSelector, KeyboardDeviceInfo, RawKeyboardInfo,
};
use keyforge::engine::{
    CompiledRules, DispatchActionPhase, EventOrigin, KeyEvent, KeyPhase, MatchContext,
    RuntimeEngine,
};
use keyforge::keymap::{
    chord_to_key_specs, mouse_button_input, name_to_key_spec, plan_key_events, vk_name, KeySpec,
    KEYEVENTF_KEYUP, LLKHF_EXTENDED_FLAG,
};
use keyforge::model::{Action, MouseButton, Profile, Rule, Settings};
use keyforge::pnp::{
    decode_guid_bytes, decode_multi_sz_bytes, decode_utf16_bytes, guid_property,
    normalize_device_path, preferred_display_name, string_list_property, string_property,
    PnpKeyboardMetadata, DEVPROP_TYPE_GUID, DEVPROP_TYPE_STRING, DEVPROP_TYPE_STRING_LIST,
};
use keyforge::startup::{
    decode_registry_string, registry_binary_value, registry_buffer_bytes, registry_read_step,
    registry_size_step, RegistryReadStep, ERROR_FILE_NOT_FOUND, ERROR_MORE_DATA,
    command_for_executable, quote_windows_command_argument, restore_launch_at_login,
    set_launch_at_login, snapshot_launch_at_login, LaunchAtLoginError,
    LaunchAtLoginRegistration, RegistryChange, StartupKey,
};

fn sample_keyboard() -> KeyboardDeviceInfo {
    KeyboardDeviceInfo {
        id: "rawkbd-0123456789abcdef".into(),
        name: "테스트 기계식 키보드".into(),
        device_path: r"\\?\HID#VID_046D&PID_C31C&MI_00#7&1234&0&0000".into(),
        manufacturer: Some("Example Devices".into()),
        instance_id: Some(r"HID\VID_046D&PID_C31C&MI_00\7&1234&0&0000".into()),
        container_id: Some("{01234567-89ab-cdef-0123-456789abcdef}".into()),
        hardware_ids: vec!["HID_DEVICE_SYSTEM_KEYBOARD".into()],
        location_paths: vec![r"PCIROOT(0)#PCI(1400)#USBROOT(0)#USB(3)".into()],
        vendor_id: Some("046d".into()),
        product_id: Some("c31c".into()),
        interface_id: Some("00".into()),
        keyboard_type: 4,
        keyboard_sub_type: 0,
        keyboard_mode: 1,
        function_key_count: 12,
        indicator_count: 3,
        total_key_count: 104,
        is_virtual: false,
        source: "raw_input".into(),
    }
}

fn wide_bytes(units: &[u16]) -> Vec<u8> {
    units.iter().flat_map(|unit| unit.to_le_bytes()).collect()
}

fn capture_event(session_id: u64, key: &str, phase: KeyPhase) -> KeyCaptureEvent {
    KeyCaptureEvent { session_id, key: key.into(), phase }
}

#[test]
fn canonical_selector_uses_stable_non_path_fields() {
    let selector = sample_keyboard().canonical_selector();
    assert_eq!(selector.vendor_id.as_deref(), Some("046D"));
    assert_eq!(selector.product_id.as_deref(), Some("C31C"));
    assert_eq!(selector.interface_id.as_deref(), Some("00"));
    assert_eq!(selector.manufacturer_contains.as_deref(), Some("Example Devices"));
    assert_eq!(selector.name_contains.as_deref(), Some("테스트 기계식 키보드"));
    assert_eq!(selector.is_virtual, Some(false));
}

#[test]
fn selector_matching_ignores_case_and_supports_partial_names() {
    let keyboard = sample_keyboard();
    assert!(keyboard_matches_selector(
        &keyboard,
        &DeviceSelector {
            vendor_id: Some("046D".into()),
            product_id: Some("C31C".into()),
            interface_id: Some("00".into()),
            manufacturer_contains: Some("example".into()),
            name_contains: Some("기계식".into()),
            is_virtual: Some(false),
        }
    ));
    assert!(!keyboard_matches_selector(
        &keyboard,
        &DeviceSelector {
            product_id: Some("FFFF".into()),
            ..DeviceSelector::default()
        }
    ));
}

#[test]
fn decodes_utf16_without_casting_unaligned_property_buffers() {
    let mut units = "기계식 키보드".encode_utf16().collect::<Vec<_>>();
    units.extend([0, b'X' as u16]);
    assert_eq!(decode_utf16_bytes(&wide_bytes(&units)).as_deref(), Some("기계식 키보드"));
    assert_eq!(decode_utf16_bytes(&[0x41]), None);
}

#[test]
fn decodes_multi_sz_and_stops_at_double_null() {
    let mut units = Vec::new();
    units.extend("HID\\VID_3554&PID_FA09".encode_utf16());
    units.push(0);
    units.extend("HID_DEVICE_SYSTEM_KEYBOARD".encode_utf16());
    units.extend([0, 0]);
    units.extend("ignored".encode_utf16());
    assert_eq!(
        decode_multi_sz_bytes(&wide_bytes(&units)),
        vec![
            "HID\\VID_3554&PID_FA09".to_string(),
            "HID_DEVICE_SYSTEM_KEYBOARD".to_string()
        ]
    );
}

#[test]
fn decodes_windows_guid_memory_layout() {
    let bytes = [
        0x06, 0xD2, 0x7E, 0x8C, 0x8A, 0x3F, 0x27, 0x48, 0xB3, 0xAB, 0xAE, 0x9E, 0x1F, 0xAE, 0xFC,
        0x6C,
    ];
    assert_eq!(
        decode_guid_bytes(&bytes).as_deref(),
        Some("8C7ED206-3F8A-4827-B3AB-AE9E1FAEFC6C")
    );
    assert_eq!(decode_guid_bytes(&bytes[..15]), None);
}

#[test]
fn chooses_display_name_in_requested_pnp_priority_order() {
    assert_eq!(
        preferred_display_name(&[
            Some("Bus name".into()),
            Some("Friendly name".into()),
            Some("Device description".into())
        ])
        .as_deref(),
        Some("Bus name")
    );
    assert_eq!(
        preferred_display_name(&[None, Some("Friendly name".into()), None]).as_deref(),
        Some("Friendly name")
    );
}

#[test]
fn normalizes_interface_paths_for_case_insensitive_matching() {
    assert_eq!(
        normalize_device_path(r"\\?\HID#VID_3554&PID_FA09"),
        normalize_device_path(r"\\?\hid#vid_3554&pid_fa09")
    );
}

#[test]
fn rejects_a_command_that_exceeds_the_windows_run_limit() {
    let path = format!("C:\\{}", "x".repeat(300));
    assert!(matches!(
        command_for_executable(&path),
        Err(LaunchAtLoginError::CommandTooLong { maximum: 260, .. })
    ));
}

#[test]
fn quotes_spaces_trailing_backslashes_and_quotes_for_windows() {
    assert_eq!(
        quote_windows_command_argument(r"C:\\Program Files\\KeyForge.exe"),
        r#""C:\\Program Files\\KeyForge.exe""#
    );
    assert_eq!(
        quote_windows_command_argument(r"C:\\portable\\"),
        r#""C:\\portable\\\\""#
    );
    assert_eq!(
        quote_windows_command_argument(r#"C:\\name\"quoted\".exe"#),
        r#""C:\\name\\\"quoted\\\".exe""#
    );
}

#[test]
fn preserves_unicode_paths_when_quoting() {
    assert_eq!(
        quote_windows_command_argument(r"C:\\사용자\\키포지.exe"),
        r#""C:\\사용자\\키포지.exe""#
    );
}

#[test]
fn maps_common_key_names() {
    assert_eq!(name_to_key_spec("A"), Some(KeySpec::vk(0x41)));
    assert_eq!(name_to_key_spec("Escape"), Some(KeySpec::vk(0x1B)));
    assert_eq!(name_to_key_spec("F24"), Some(KeySpec::vk(0x87)));
    assert_eq!(name_to_key_spec("ControlRight"), Some(KeySpec::extended(0xA3)));
    assert_eq!(name_to_key_spec("NumpadEnter"), Some(KeySpec::extended(0x0D)));
    assert_eq!(name_to_key_spec("MediaPlayPause"), Some(KeySpec::extended(0xB3)));
    assert_eq!(name_to_key_spec("IntlRo"), Some(KeySpec::scan(0x73)));
}

#[test]
fn unknown_key_is_not_injected() {
    assert_eq!(name_to_key_spec("definitely-not-a-key"), None);
}

#[test]
fn distinguishes_physical_key_locations() {
    assert_eq!(vk_name(0x11, 0x1D, 0), "ControlLeft");
    assert_eq!(vk_name(0x11, 0x1D, LLKHF_EXTENDED_FLAG), "ControlRight");
    assert_eq!(vk_name(0x0D, 0x1C, LLKHF_EXTENDED_FLAG), "NumpadEnter");
    assert_eq!(vk_name(0xE2, 0x73, 0), "IntlRo");
}

#[test]
fn capture_queue_preserves_alt_space_down_and_up_for_its_session() {
    let mut capture = CaptureState::new();
    capture.session_id = 7;
    capture.active = true;

    assert!(capture.enqueue("AltLeft".into(), KeyPhase::Down));
    assert!(capture.enqueue("Space".into(), KeyPhase::Down));
    assert!(capture.enqueue("Space".into(), KeyPhase::Up));
    assert!(capture.enqueue("AltLeft".into(), KeyPhase::Up));

    let drain = capture.drain(7);
    assert!(drain.active);
    assert!(!drain.overflowed);
    assert_eq!(
        drain.events,
        vec![
            capture_event(7, "AltLeft", KeyPhase::Down),
            capture_event(7, "Space", KeyPhase::Down),
            capture_event(7, "Space", KeyPhase::Up),
            capture_event(7, "AltLeft", KeyPhase::Up),
        ]
    );
}

#[test]
fn window_system_key_fallback_records_alt_space_when_the_hook_path_is_missing() {
    let mut capture = CaptureState::new();
    capture.session_id = 11;
    capture.active = true;

    assert!(capture.enqueue_window_system_key(0x12, 0x38, false, true));
    assert!(capture.enqueue_window_system_key(0x20, 0x39, false, true));
    assert!(capture.enqueue_window_system_key(0x20, 0x39, false, false));
    assert!(capture.enqueue_window_system_key(0x12, 0x38, false, false));

    assert_eq!(
        capture.drain(11).events,
        vec![
            capture_event(11, "AltLeft", KeyPhase::Down),
            capture_event(11, "Space", KeyPhase::Down),
            capture_event(11, "Space", KeyPhase::Up),
            capture_event(11, "AltLeft", KeyPhase::Up),
        ]
    );
}

#[test]
fn window_system_key_fallback_rejects_inactive_capture() {
    let mut capture = CaptureState::new();
    capture.session_id = 12;

    assert!(!capture.enqueue_window_system_key(0x20, 0x39, false, true));
    let drain = capture.drain(12);
    assert!(!drain.active);
    assert!(!drain.overflowed);
    assert!(drain.events.is_empty());
}

#[test]
fn capture_end_rejects_stale_sessions_and_clears_events() {
    let mut capture = CaptureState::new();
    capture.session_id = 4;
    capture.active = true;
    assert!(capture.enqueue("F10".into(), KeyPhase::Down));

    assert!(!capture.end(3));
    assert!(capture.end(4));
    let drain = capture.drain(4);
    assert!(!drain.active);
    assert!(drain.events.is_empty());
}

#[test]
fn capture_stays_active_without_a_per_key_foreground_query() {
    let mut capture = CaptureState::new();
    capture.active = true;

    assert!(capture.is_active());
    assert!(capture.enqueue("AltLeft".into(), KeyPhase::Down));
    assert!(capture.is_active());
}

#[test]
fn capture_begin_does_not_require_an_exact_foreground_window_handle() {
    let mut capture = CaptureState::new();
    capture.window_configured = true;

    let session = capture.begin().expect("configured capture should begin");

    assert_eq!(session.session_id, 1);
    assert!(capture.active);
}

#[test]
fn capture_begin_releases_runtime_before_the_first_ordinary_key() {
    let mut settings = Settings::default();
    let mut profile = Profile::new("capture release");
    profile.rules.push(Rule::key_remap("ControlLeft", "MetaLeft"));
    settings.profiles = vec![profile];
    let mut engine = RuntimeEngine::new(CompiledRules::compile(&settings).unwrap());
    let dispatch = engine.process(
        &KeyEvent {
            key: "ControlLeft".into(),
            phase: KeyPhase::Down,
            origin: EventOrigin::Physical,
            repeat: false,
        },
        &MatchContext::default(),
    );
    assert_eq!(dispatch.actions.len(), 1);

    let mut capture = CaptureState::new();
    capture.set_owner_window(1);
    let session = capture.begin().expect("configured capture should begin");

    assert!(capture.take_release_pending());
    let releases = engine.set_paused(true);
    assert_eq!(releases.len(), 1);
    assert_eq!(releases[0].phase, DispatchActionPhase::Up);
    assert!(matches!(
        &releases[0].action,
        Action::SendKeys { chord } if chord == &vec!["MetaLeft"]
    ));

    assert!(capture.enqueue("A".into(), KeyPhase::Down));
    assert!(capture.enqueue("A".into(), KeyPhase::Up));
    assert_eq!(
        capture.drain(session.session_id).events,
        vec![
            capture_event(session.session_id, "A", KeyPhase::Down),
            capture_event(session.session_id, "A", KeyPhase::Up),
        ]
    );
}

#[test]
fn delayed_capture_release_preserves_the_first_ordinary_key_pair() {
    let mut capture = CaptureState::new();
    capture.set_owner_window(1);

    let session = capture.begin().expect("configured capture should begin");
    assert!(capture.enqueue("A".into(), KeyPhase::Down));
    assert!(capture.take_release_pending());
    assert!(!capture.take_release_pending());
    assert!(capture.enqueue("A".into(), KeyPhase::Up));

    assert_eq!(
        capture.drain(session.session_id).events,
        vec![
            capture_event(session.session_id, "A", KeyPhase::Down),
            capture_event(session.session_id, "A", KeyPhase::Up),
        ]
    );
}

#[test]
fn stale_capture_drain_does_not_consume_the_current_session_queue() {
    let mut capture = CaptureState::new();
    capture.session_id = 9;
    capture.active = true;
    assert!(capture.enqueue("F10".into(), KeyPhase::Down));

    let stale = capture.drain(8);
    assert_eq!(stale.session_id, 9);
    assert!(!stale.active);
    assert!(stale.events.is_empty());

    let current = capture.drain(9);
    assert!(current.active);
    assert_eq!(current.events, vec![capture_event(9, "F10", KeyPhase::Down)]);
}

#[test]
fn parses_raw_input_keyboard_identity_components() {
    let path = r"\\?\HID#VID_046D&PID_C31C&MI_00#7&1234&0&0000";
    assert_eq!(path_component(path, "VID_", 4).as_deref(), Some("046D"));
    assert_eq!(path_component(path, "PID_", 4).as_deref(), Some("C31C"));
    assert_eq!(path_component(path, "MI_", 2).as_deref(), Some("00"));
    assert!(!is_virtual_device_path(path));
    assert_eq!(
        keyboard_display_name(&Some("046D".into()), &Some("C31C".into()), false),
        "HID 키보드 · VID_046D / PID_C31C"
    );
}

#[test]
fn classifies_virtual_keyboards_and_builds_deterministic_inventory_ids() {
    let path = r"\\?\ROOT#RDP_KBD#0000";
    assert!(is_virtual_device_path(path));
    assert_eq!(keyboard_display_name(&None, &None, true), "가상 또는 원격 키보드");
    assert_eq!(inventory_id(path), inventory_id(path));
    assert_ne!(inventory_id(path), inventory_id("another-device"));
}

#[test]
fn plans_modifier_remap_down_and_up_as_separate_batches() {
    let meta = name_to_key_spec("MetaLeft").unwrap();
    assert_eq!(meta, KeySpec::extended(0x5B));

    assert_eq!(plan_key_events(&[meta], DispatchActionPhase::Down), vec![(meta, 0)]);
    assert_eq!(
        plan_key_events(&[meta], DispatchActionPhase::Up),
        vec![(meta, KEYEVENTF_KEYUP)]
    );
    assert_eq!(
        plan_key_events(&[meta], DispatchActionPhase::Invoke),
        vec![(meta, 0), (meta, KEYEVENTF_KEYUP)]
    );
}

#[test]
fn key_names_cover_digits_numpad_function_and_raw_codes() {
    assert_eq!(name_to_key_spec(" q "), Some(KeySpec::vk(0x51)));
    assert_eq!(name_to_key_spec("7"), Some(KeySpec::vk(0x37)));
    assert_eq!(name_to_key_spec("Numpad3"), Some(KeySpec::vk(0x63)));
    assert_eq!(name_to_key_spec("numpad-x"), None);
    assert_eq!(name_to_key_spec("F1"), Some(KeySpec::vk(0x70)));
    assert_eq!(name_to_key_spec("f+12"), Some(KeySpec::vk(0x7B)));
    assert_eq!(name_to_key_spec("F25"), None);
    assert_eq!(name_to_key_spec("F0"), None);
    assert_eq!(name_to_key_spec("vk_1f"), Some(KeySpec::vk(0x1F)));
    assert_eq!(name_to_key_spec("VK_100"), None);
    assert_eq!(name_to_key_spec("Page Up"), Some(KeySpec::extended(0x21)));
    assert_eq!(name_to_key_spec("ctrl"), Some(KeySpec::vk(0x11)));
    assert_eq!(name_to_key_spec("IntlYen"), Some(KeySpec::scan(0x7D)));
}

#[test]
fn hook_key_names_cover_ranges_and_unknown_codes() {
    assert_eq!(vk_name(0x41, 0, 0), "A");
    assert_eq!(vk_name(0x35, 0, 0), "5");
    assert_eq!(vk_name(0x64, 0, 0), "Numpad4");
    assert_eq!(vk_name(0x7B, 0, 0), "F12");
    assert_eq!(vk_name(0x87, 0, 0), "F24");
    assert_eq!(vk_name(0x10, 0x36, 0), "ShiftRight");
    assert_eq!(vk_name(0xDC, 0x7D, 0), "IntlYen");
    assert_eq!(vk_name(0x07, 0, 0), "VK_07");
    assert_eq!(vk_name(0x1FF, 0, 0), "VK_1FF");
}

#[test]
fn every_key_of_a_chord_must_name_a_key() {
    let specs = chord_to_key_specs(&vec!["ControlLeft".to_string(), "C".to_string()]).unwrap();
    assert_eq!(specs, vec![KeySpec::vk(0xA2), KeySpec::vk(0x43)]);
    assert_eq!(chord_to_key_specs(&vec!["C".to_string(), "nonsense".to_string()]), None);
    let two = [KeySpec::vk(0xA2), KeySpec::vk(0x43)];
    assert_eq!(
        plan_key_events(&two, DispatchActionPhase::Invoke),
        vec![
            (two[0], 0),
            (two[1], 0),
            (two[1], KEYEVENTF_KEYUP),
            (two[0], KEYEVENTF_KEYUP)
        ]
    );
    assert_eq!(mouse_button_input(MouseButton::X2), (0x0080, 0x0100, 2));
    assert_eq!(mouse_button_input(MouseButton::Left), (0x0002, 0x0004, 0));
}

#[test]
fn full_capture_queue_reports_overflow_and_keeps_older_events() {
    let mut capture = CaptureState::new();
    capture.session_id = 2;
    capture.active = true;
    for _ in 0..CAPTURE_QUEUE_CAPACITY {
        assert!(capture.enqueue("A".into(), KeyPhase::Down));
    }
    assert!(capture.enqueue("B".into(), KeyPhase::Down));
    let drain = capture.drain(2);
    assert!(drain.overflowed);
    assert_eq!(drain.events.len(), CAPTURE_QUEUE_CAPACITY);
    assert!(drain.events.iter().all(|e| e.key == "A"));
    assert!(!capture.drain(2).overflowed);
}

#[test]
fn begin_numbers_sessions_and_drops_events_of_older_ones() {
    let mut capture = CaptureState::new();
    assert!(capture.begin().is_err());
    capture.set_owner_window(5);
    let first = capture.begin().unwrap();
    assert!(capture.enqueue("X".into(), KeyPhase::Down));
    let second = capture.begin().unwrap();
    assert_eq!(second.session_id, first.session_id + 1);
    assert!(capture.enqueue("Y".into(), KeyPhase::Down));
    assert_eq!(capture.drain(second.session_id).events, vec![capture_event(2, "Y", KeyPhase::Down)]);
    assert!(capture.drain(first.session_id).events.is_empty());
}

#[test]
fn window_system_key_and_forced_end_through_free_functions() {
    let mut capture = CaptureState::new();
    capture.session_id = 3;
    capture.active = true;
    assert!(record_window_system_key(&mut capture, 0x12, 0x38, true, true));
    force_end_active_capture(&mut capture);
    assert!(!capture.active);
    assert!(!record_window_system_key(&mut capture, 0x12, 0x38, true, false));
    assert_eq!(capture.session_id, 3);
    assert!(capture.queue.is_empty());
}

#[test]
fn raw_input_endpoint_reads_its_identity_from_the_path() {
    let path: Vec<u16> = r"\\?\HID#VID_046D&PID_C31C&MI_00#7&1234&0&0000"
        .encode_utf16()
        .chain([0, 0x41])
        .collect();
    let info = keyboard_device_info(
        &path,
        path.len(),
        Some(RawKeyboardInfo {
            keyboard_type: 4,
            sub_type: 0,
            keyboard_mode: 1,
            function_key_count: 12,
            indicator_count: 3,
            total_key_count: 104,
        }),
    );
    assert_eq!(info.device_path, r"\\?\HID#VID_046D&PID_C31C&MI_00#7&1234&0&0000");
    assert_eq!(info.vendor_id.as_deref(), Some("046D"));
    assert_eq!(info.interface_id.as_deref(), Some("00"));
    assert_eq!(info.name, "HID 키보드 · VID_046D / PID_C31C");
    assert_eq!(info.total_key_count, 104);
    assert_eq!(info.source, "raw_input");
    assert!(info.id.starts_with("rawkbd-"));
    assert_eq!(info.id.len(), "rawkbd-".len() + 16);

    let unreported = keyboard_device_info(&[0x52, 0x44], 2, None);
    assert_eq!(unreported.device_path, "RD");
    assert_eq!(unreported.keyboard_type, 0);
    assert_eq!(unreported.name, "Windows 키보드");
}

#[test]
fn inventory_id_is_the_fnv1a_hash_of_the_path() {
    assert_eq!(inventory_id(""), "rawkbd-cbf29ce484222325");
    assert_eq!(inventory_id("a"), "rawkbd-af63dc4c8601ec8c");
}

#[test]
fn inventory_merges_metadata_sorts_and_lists_each_interface_once() {
    let mut first = sample_keyboard();
    first.name = "Zeta".into();
    first.device_path = r"\\?\HID#B".into();
    first.manufacturer = None;
    let mut second = sample_keyboard();
    second.name = "Alpha".into();
    second.device_path = r"\\?\HID#A".into();
    let mut duplicate = sample_keyboard();
    duplicate.name = "Alpha".into();
    duplicate.device_path = r"\\?\hid#a".into();
    let metadata = vec![(
        r"\\?\hid#b".to_string(),
        PnpKeyboardMetadata {
            display_name: Some("Beta".into()),
            manufacturer: Some("Maker".into()),
            instance_id: None,
            container_id: None,
            hardware_ids: vec!["HID_DEVICE".into()],
            location_paths: Vec::new(),
        },
    )];
    let listed = list_connected_keyboards(Ok(vec![first, second, duplicate]), metadata).unwrap();
    assert_eq!(listed.len(), 2);
    assert_eq!(listed[0].name, "Alpha");
    assert_eq!(listed[0].device_path, r"\\?\HID#A");
    assert_eq!(listed[1].name, "Beta");
    assert_eq!(listed[1].manufacturer.as_deref(), Some("Maker"));
    assert_eq!(listed[1].hardware_ids, vec!["HID_DEVICE".to_string()]);

    assert_eq!(
        list_connected_keyboards(Err(DeviceInventoryError::Unsupported), Vec::new()),
        Err(DeviceInventoryError::Unsupported)
    );
    assert_eq!(
        DeviceInventoryError::Unsupported.message(),
        "connected keyboard inventory is only available on Windows"
    );
}

#[test]
fn property_types_decide_how_a_buffer_is_read() {
    let mut units = "Logitech".encode_utf16().collect::<Vec<_>>();
    units.push(0);
    let bytes = wide_bytes(&units);
    assert_eq!(string_property(DEVPROP_TYPE_STRING, &bytes).as_deref(), Some("Logitech"));
    assert_eq!(string_property(DEVPROP_TYPE_GUID, &bytes), None);
    assert_eq!(string_list_property(DEVPROP_TYPE_STRING, &bytes), vec!["Logitech".to_string()]);
    assert_eq!(string_list_property(DEVPROP_TYPE_STRING_LIST, &bytes), vec!["Logitech".to_string()]);
    assert!(string_list_property(DEVPROP_TYPE_GUID, &bytes).is_empty());
    assert_eq!(guid_property(DEVPROP_TYPE_STRING, &[0u8; 16]), None);
    assert_eq!(
        guid_property(DEVPROP_TYPE_GUID, &[0u8; 16]).as_deref(),
        Some("00000000-0000-0000-0000-000000000000")
    );
    let blank: Vec<u8> = wide_bytes(&[0x20, 0x20, 0]);
    assert_eq!(decode_utf16_bytes(&blank), None);
    assert_eq!(decode_utf16_bytes(&wide_bytes(&[0xD800, 0x41])).as_deref(), Some("\u{FFFD}A"));
}

#[test]
fn launch_at_login_writes_and_restores_both_values() {
    let plan = set_launch_at_login(true, Ok(r"C:\Program Files\KeyForge\KeyForge.exe".into())).unwrap();
    assert_eq!(plan.len(), 2);
    assert!(matches!(
        &plan[0],
        RegistryChange::SetString { key: StartupKey::Run, text }
            if text == r#""C:\Program Files\KeyForge\KeyForge.exe""#
    ));
    assert!(matches!(
        &plan[1],
        RegistryChange::SetBinary { key: StartupKey::StartupApproved, bytes }
            if bytes == &vec![2u8, 0, 0, 0, 0, 0, 0, 0, 0, 0, 0, 0]
    ));

    let off = set_launch_at_login(false, Err("unused".into())).unwrap();
    assert!(matches!(&off[0], RegistryChange::Delete { key: StartupKey::Run }));
    assert!(matches!(&off[1], RegistryChange::Delete { key: StartupKey::StartupApproved }));

    assert!(matches!(
        set_launch_at_login(true, Err("no path".into())),
        Err(LaunchAtLoginError::ExecutablePath(m)) if m == "no path"
    ));

    let snapshot = snapshot_launch_at_login(Ok(Some("\"old.exe\"".into())), Ok(None)).unwrap();
    assert_eq!(
        snapshot,
        LaunchAtLoginRegistration { command: Some("\"old.exe\"".into()), startup_approved: None }
    );
    let restore = restore_launch_at_login(&snapshot);
    assert!(matches!(
        &restore[0],
        RegistryChange::SetString { key: StartupKey::Run, text } if text == "\"old.exe\""
    ));
    assert!(matches!(&restore[1], RegistryChange::Delete { key: StartupKey::StartupApproved }));

    assert!(matches!(
        snapshot_launch_at_login(Ok(None), Err(LaunchAtLoginError::Registry("denied".into()))),
        Err(LaunchAtLoginError::Registry(m)) if m == "denied"
    ));
    assert_eq!(
        LaunchAtLoginError::CommandTooLong { length: 305, maximum: 260 }.message(),
        "the KeyForge startup command is too long for the Windows Run key (305 UTF-16 characters; maximum is 260)"
    );
}

#[derive(Debug, Clone, PartialEq)]
enum Value {
    Text(String),
    Binary(Vec<u8>),
}

fn apply(values: &mut Vec<(StartupKey, Value)>, changes: Vec<RegistryChange>) {
    for change in changes {
        let (key, value) = match change {
            RegistryChange::SetString { key, text } => (key, Some(Value::Text(text))),
            RegistryChange::SetBinary { key, bytes } => (key, Some(Value::Binary(bytes))),
            RegistryChange::Delete { key } => (key, None),
        };
        values.retain(|(k, _)| *k != key);
        if let Some(value) = value {
            values.push((key, value));
        }
    }
    values.sort_by_key(|(k, _)| *k == StartupKey::StartupApproved);
}

#[test]
fn restoring_a_snapshot_undoes_enabling_launch_at_login() {
    let before = vec![
        (StartupKey::Run, Value::Text("\"before.exe\"".into())),
        (StartupKey::StartupApproved, Value::Binary(vec![3, 0, 0, 0, 1])),
    ];
    let snapshot =
        snapshot_launch_at_login(Ok(Some("\"before.exe\"".into())), Ok(Some(vec![3, 0, 0, 0, 1]))).unwrap();
    let mut values = before.clone();
    apply(&mut values, set_launch_at_login(true, Ok(r"C:\KeyForge\KeyForge.exe".into())).unwrap());
    assert_eq!(values[0], (StartupKey::Run, Value::Text(r#""C:\KeyForge\KeyForge.exe""#.into())));
    apply(&mut values, restore_launch_at_login(&snapshot));
    assert_eq!(values, before);

    let mut empty = Vec::new();
    let snapshot = snapshot_launch_at_login(Ok(None), Ok(None)).unwrap();
    apply(&mut empty, set_launch_at_login(true, Ok(r"C:\KeyForge\KeyForge.exe".into())).unwrap());
    assert_eq!(empty.len(), 2);
    apply(&mut empty, restore_launch_at_login(&snapshot));
    assert!(empty.is_empty());
}

#[test]
fn enabling_launch_at_login_marks_startup_as_explicitly_enabled() {
    let command = "\"C:\\Program Files\\KeyForge\\KeyForge.exe\"";
    let disabled = vec![0x03, 0x00, 0x00, 0x00, 0xAA, 0xBB, 0xCC, 0xDD];
    let mut values = vec![(StartupKey::StartupApproved, Value::Binary(disabled))];

    let plan = set_launch_at_login(true, Ok(r"C:\Program Files\KeyForge\KeyForge.exe".into())).unwrap();
    apply(&mut values, plan);

    assert_eq!(values[0], (StartupKey::Run, Value::Text(command.into())));
    assert_eq!(
        values[1],
        (StartupKey::StartupApproved, Value::Binary(vec![0x02, 0, 0, 0, 0, 0, 0, 0, 0, 0, 0, 0]))
    );
}

fn utf16_z(text: &str) -> Vec<u16> {
    text.encode_utf16().chain(std::iter::once(0)).collect()
}

#[test]
fn connected_keyboard_inventory_returns_well_formed_entries() {
    let info = RawKeyboardInfo {
        keyboard_type: 4,
        sub_type: 0,
        keyboard_mode: 1,
        function_key_count: 12,
        indicator_count: 3,
        total_key_count: 104,
    };
    let paths = [
        r"\\?\HID#VID_046D&PID_C31C&MI_00#7&1234&0&0000#{884b96c3-56ef-11d1-bc8c-00a0c91405dd}",
        r"\\?\hid#vid_046d&pid_c31c&mi_00#7&1234&0&0000#{884b96c3-56ef-11d1-bc8c-00a0c91405dd}",
        r"\\?\Root#RDP_KBD#0000#{884b96c3-56ef-11d1-bc8c-00a0c91405dd}",
    ];
    let endpoints: Vec<KeyboardDeviceInfo> = paths
        .iter()
        .map(|path| {
            let units = utf16_z(path);
            keyboard_device_info(&units, units.len() - 1, Some(info))
        })
        .collect();
    let hardware_ids = wide_bytes(&utf16_z("HID\\VID_046D&PID_C31C\0HID_DEVICE_SYSTEM_KEYBOARD\0"));
    let metadata = vec![(
        normalize_device_path(paths[2]),
        PnpKeyboardMetadata {
            display_name: preferred_display_name(&[
                decode_utf16_bytes(&wide_bytes(&utf16_z("   "))),
                decode_utf16_bytes(&wide_bytes(&utf16_z("USB Keyboard"))),
            ]),
            manufacturer: string_property(DEVPROP_TYPE_STRING, &wide_bytes(&utf16_z(" Logitech "))),
            instance_id: string_property(DEVPROP_TYPE_STRING, &wide_bytes(&utf16_z(""))),
            container_id: None,
            hardware_ids: string_list_property(DEVPROP_TYPE_STRING_LIST, &hardware_ids),
            location_paths: Vec::new(),
        },
    )];
    let keyboards = list_connected_keyboards(Ok(endpoints), metadata).unwrap();
    assert_eq!(keyboards.len(), 2);
    for keyboard in &keyboards {
        assert!(!keyboard.id.is_empty());
        assert!(!keyboard.name.is_empty());
        assert!(!keyboard.device_path.is_empty());
        assert_eq!(keyboard.source, "raw_input");
        assert!(keyboard.manufacturer.as_ref().is_none_or(|value| !value.trim().is_empty()));
        assert!(keyboard.instance_id.as_ref().is_none_or(|value| !value.trim().is_empty()));
        assert!(keyboard.container_id.as_ref().is_none_or(|value| !value.trim().is_empty()));
        assert!(keyboard.hardware_ids.iter().all(|value| !value.trim().is_empty()));
        assert!(keyboard.location_paths.iter().all(|value| !value.trim().is_empty()));
    }
    for (index, keyboard) in keyboards.iter().enumerate() {
        assert!(!keyboards[index + 1..]
            .iter()
            .any(|other| keyboard.device_path.eq_ignore_ascii_case(&other.device_path)));
    }
    let named = keyboards.iter().find(|k| k.name == "USB Keyboard").unwrap();
    assert_eq!(named.manufacturer.as_deref(), Some("Logitech"));
    assert_eq!(named.hardware_ids.len(), 2);
}

/// Reads one quoted command-line argument the way Windows does.
fn read_quoted_argument(text: &str) -> Option<String> {
    let chars: Vec<char> = text.chars().collect();
    if chars.first() != Some(&'"') {
        return None;
    }
    let mut out = String::new();
    let mut pending = 0usize;
    for (i, &c) in chars.iter().enumerate().skip(1) {
        match c {
            '\\' => pending += 1,
            '"' if pending % 2 == 1 => {
                out.push_str(&"\\".repeat(pending / 2));
                out.push('"');
                pending = 0;
            }
            '"' => {
                out.push_str(&"\\".repeat(pending / 2));
                return (i == chars.len() - 1).then_some(out);
            }
            other => {
                out.push_str(&"\\".repeat(pending));
                out.push(other);
                pending = 0;
            }
        }
    }
    None
}

#[test]
fn quoted_arguments_read_back_unchanged() {
    for argument in [
        r"C:\Program Files\KeyForge.exe",
        r"C:\portable\",
        r#"C:\name\"quoted\".exe"#,
        r#"a\\"b"#,
        r"C:\사용자\키포지.exe",
        "",
        r"\\\",
    ] {
        let quoted = quote_windows_command_argument(argument);
        assert_eq!(read_quoted_argument(&quoted).as_deref(), Some(argument), "{quoted}");
    }
}

#[test]
fn registry_reads_grow_the_buffer_and_decode_strictly() {
    assert_eq!(registry_size_step(ERROR_FILE_NOT_FOUND, 0, true), RegistryReadStep::Absent);
    assert_eq!(registry_size_step(5, 0, true), RegistryReadStep::Fail { status: 5 });
    assert_eq!(registry_size_step(0, 7, true), RegistryReadStep::Grow { len: 5 });
    assert_eq!(registry_size_step(0, 12, false), RegistryReadStep::Grow { len: 12 });
    assert_eq!(registry_read_step(ERROR_MORE_DATA, 40, 5, true), RegistryReadStep::Grow { len: 21 });
    assert_eq!(registry_read_step(ERROR_MORE_DATA, 4, 5, true), RegistryReadStep::Grow { len: 11 });
    assert_eq!(registry_read_step(ERROR_MORE_DATA, 30, 12, false), RegistryReadStep::Grow { len: 30 });
    assert_eq!(registry_read_step(ERROR_FILE_NOT_FOUND, 0, 5, true), RegistryReadStep::Absent);
    assert_eq!(registry_read_step(0, 10, 5, true), RegistryReadStep::Read);
    assert_eq!(registry_read_step(87, 10, 5, true), RegistryReadStep::Fail { status: 87 });
    assert_eq!(registry_buffer_bytes(5, true).unwrap(), 10);
    assert!(matches!(
        registry_buffer_bytes(3_000_000_000, true),
        Err(LaunchAtLoginError::Registry(m)) if m == "startup registration value is too large"
    ));

    let units: Vec<u16> = "\"C:\\KeyForge.exe\"".encode_utf16().chain([0, 0x41]).collect();
    assert_eq!(decode_registry_string(&units).unwrap(), "\"C:\\KeyForge.exe\"");
    assert!(matches!(
        decode_registry_string(&[0x41, 0xD800, 0x42]),
        Err(LaunchAtLoginError::Registry(m)) if m.starts_with("startup registration has invalid UTF-16: ")
    ));
    assert_eq!(registry_binary_value(vec![2, 0, 0, 0, 9, 9], 4), vec![2, 0, 0, 0]);
    assert_eq!(registry_binary_value(vec![2, 0], 4), vec![2, 0]);
}

#[test]
fn every_reported_key_name_is_injectable() {
    for vk in 0u32..=0xFF {
        for scan in [0u32, 0x36, 0x73, 0x7D] {
            for flags in [0u32, 1] {
                let name = vk_name(vk, scan, flags);
                assert!(name_to_key_spec(&name).is_some(), "{name} ({vk:#04x})");
            }
        }
    }
    assert_eq!(vk_name(0xFF, 0, 0), "VK_FF");
    assert_eq!(name_to_key_spec("VK_FF"), Some(KeySpec::vk(0xFF)));
    assert_eq!(name_to_key_spec("definitely-not-a-key"), None);
}

#[test]
fn window_system_key_is_the_last_event_of_the_next_poll() {
    let mut capture = CaptureState::new();
    capture.set_owner_window(9);
    let session = capture.begin().unwrap();
    assert!(capture.enqueue("KeyA".into(), KeyPhase::Down));
    assert!(record_window_system_key(&mut capture, 0x12, 0x38, true, true));
    let poll = capture.drain(session.session_id);
    assert!(poll.active);
    assert!(!poll.overflowed);
    assert_eq!(poll.events.last(), Some(&capture_event(session.session_id, "AltRight", KeyPhase::Down)));

    for _ in 0..CAPTURE_QUEUE_CAPACITY {
        assert!(capture.enqueue("KeyB".into(), KeyPhase::Up));
    }
    assert!(record_window_system_key(&mut capture, 0x79, 0x44, false, false));
    let full = capture.drain(session.session_id);
    assert!(full.overflowed);
    assert_eq!(full.events.len(), CAPTURE_QUEUE_CAPACITY);

    force_end_active_capture(&mut capture);
    assert!(!record_window_system_key(&mut capture, 0x79, 0x44, false, true));
    let ended = capture.drain(session.session_id);
    assert_eq!(ended.session_id, session.session_id);
    assert!(!ended.active && !ended.overflowed && ended.events.is_empty());
}
