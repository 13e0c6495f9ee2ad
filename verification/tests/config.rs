use keyforge::json::{migrate_settings_value, schema_version, JsonValue};
use keyforge::model::{
    ConditionGroup, ConditionOperator, MatchCondition, Profile, ProfileScope, Rule, Settings,
    TextOperator, CURRENT_SCHEMA_VERSION,
};
use keyforge::repository::{
    decide_load, prepare_restore, prepare_save, LoadDecision, ReadOutcome, RepositoryError,
};
use keyforge::model::{DeviceSelector, Timestamp};
use keyforge::validation::{validate, ValidationError};

fn text(s: &str) -> JsonValue {
    JsonValue::Text(s.to_string())
}

fn num(n: u64) -> JsonValue {
    JsonValue::Number { text: n.to_string(), unsigned: Some(n) }
}

fn obj(members: Vec<(&str, JsonValue)>) -> JsonValue {
    JsonValue::Object(members.into_iter().map(|(k, v)| (k.to_string(), v)).collect())
}

fn member<'a>(v: &'a JsonValue, key: &str) -> Option<&'a JsonValue> {
    match v {
        JsonValue::Object(members) => members.iter().find(|(k, _)| k == key).map(|(_, v)| v),
        _ => None,
    }
}

fn items(v: &JsonValue) -> &Vec<JsonValue> {
    match v {
        JsonValue::Array(items) => items,
        other => panic!("not an array: {other:?}"),
    }
}

fn rule_json(id: &str, kind: &str, chord: Option<&str>) -> JsonValue {
    let mut action = vec![("kind", text(kind))];
    if let Some(key) = chord {
        action.push(("chord", JsonValue::Array(vec![text(key)])));
    }
    obj(vec![
        ("id", text(id)),
        ("order", num(0)),
        ("enabled", JsonValue::Bool(true)),
        (
            "trigger",
            obj(vec![
                ("kind", text("keyboard")),
                ("chord", JsonValue::Array(vec![text("C")])),
                ("phase", text("press")),
                ("gesture", text("single")),
            ]),
        ),
        ("action", obj(action)),
    ])
}

fn document(schema: u64, scope: JsonValue, rules: Vec<JsonValue>) -> JsonValue {
    obj(vec![
        ("schemaVersion", num(schema)),
        ("revision", num(0)),
        (
            "profiles",
            JsonValue::Array(vec![obj(vec![
                ("name", text("기본 프로필")),
                ("scope", scope),
                ("rules", JsonValue::Array(rules)),
            ])]),
        ),
    ])
}

#[test]
fn empty_emergency_chord_is_rejected() {
    let mut settings = Settings::default();
    settings.engine.emergency_stop.clear();
    assert_eq!(validate(&settings), Err(ValidationError::InvalidEmergencyStop));
}

#[test]
fn empty_condition_is_rejected() {
    let mut settings = Settings::default();
    let mut profile = Profile::new("Scoped");
    profile.scope = ProfileScope::Application {
        conditions: ConditionGroup {
            operator: ConditionOperator::And,
            conditions: vec![MatchCondition::ProcessName {
                operator: TextOperator::Equals,
                value: String::new(),
            }],
        },
    };
    settings.profiles.push(profile);
    assert!(validate(&settings).is_err());
}

#[test]
fn removed_action_rules_are_migrated_without_losing_supported_rules() {
    let mut rules = vec![rule_json("kept", "send_keys", Some("D"))];
    for (index, kind) in [
        "macro",
        "send_text",
        "auto_click",
        "launch",
        "clipboard_slot",
        "window",
        "switch_profile",
    ]
    .into_iter()
    .enumerate()
    {
        rules.push(rule_json(&format!("removed-{index}"), kind, None));
    }
    let mut value = document(2, obj(vec![("kind", text("global"))]), rules);

    migrate_settings_value(&mut value);

    assert_eq!(schema_version(&value), CURRENT_SCHEMA_VERSION as u64);
    let profiles = items(member(&value, "profiles").unwrap());
    let rules = items(member(&profiles[0], "rules").unwrap());
    assert_eq!(rules.len(), 1);
    let action = member(&rules[0], "action").unwrap();
    assert!(matches!(member(action, "kind"), Some(JsonValue::Text(kind)) if kind == "send_keys"));
    let chord = items(member(action, "chord").unwrap());
    assert!(matches!(&chord[..], [JsonValue::Text(key)] if key == "D"));
}

#[test]
fn version_one_conditional_scope_migrates_to_global() {
    let scope = obj(vec![
        ("kind", text("device")),
        (
            "conditions",
            obj(vec![
                ("operator", text("and")),
                (
                    "conditions",
                    JsonValue::Array(vec![obj(vec![
                        ("kind", text("device_id")),
                        ("operator", text("contains")),
                        ("value", text("VID_3434&PID_01A0")),
                    ])]),
                ),
            ]),
        ),
    ]);
    let mut value = document(1, scope, Vec::new());

    migrate_settings_value(&mut value);

    assert_eq!(schema_version(&value), CURRENT_SCHEMA_VERSION as u64);
    let profiles = items(member(&value, "profiles").unwrap());
    let scope = member(&profiles[0], "scope").unwrap();
    match scope {
        JsonValue::Object(members) => {
            assert_eq!(members.len(), 1);
            assert_eq!(members[0].0, "kind");
            assert!(matches!(&members[0].1, JsonValue::Text(kind) if kind == "global"));
        }
        other => panic!("scope is not an object: {other:?}"),
    }
}

#[test]
fn rejects_stale_writer() {
    let first = prepare_save(Settings::default(), 0, 0, ts(1_700_000_000, 0)).unwrap();
    assert_eq!(first.revision, 1);
    let error = prepare_save(Settings::default(), first.revision, 0, ts(1_700_000_000, 1_000_000)).unwrap_err();
    assert!(matches!(error, RepositoryError::StaleRevision { expected: 0, current: 1 }));
}

#[test]
fn prepared_save_takes_the_next_revision_and_time() {
    let mut draft = Settings::default();
    draft.revision = 41;
    let saved = prepare_save(draft, 41, 41, ts(1, 234_000_007)).unwrap();
    assert_eq!(saved.revision, 42);
    assert_eq!(saved.updated_at, ts(1, 234_000_007));
    let again = prepare_save(saved, 42, 42, ts(1, 235_000_000)).unwrap();
    assert_eq!(again.revision, 43);
}

#[test]
fn prepared_save_refuses_an_invalid_draft_before_the_revision() {
    let mut draft = Settings::default();
    draft.schema_version = 1;
    let error = prepare_save(draft, 5, 0, ts(0, 0)).unwrap_err();
    assert!(matches!(error, RepositoryError::Validation(ValidationError::Schema(1))));
}

#[test]
fn unusable_primary_file_recovers_from_backup() {
    let backup = prepare_save(Settings::default(), 0, 0, ts(0, 7)).unwrap();
    let decision = decide_load(
        ReadOutcome::Failed(RepositoryError::Json("expected value".into())),
        ReadOutcome::Loaded(backup),
    );
    assert!(matches!(decision, LoadDecision::RecoverFromBackup(s) if s.revision == 1));

    let decision = decide_load(
        ReadOutcome::Failed(RepositoryError::Json("expected value".into())),
        ReadOutcome::Missing,
    );
    assert!(matches!(decision, LoadDecision::Fail(RepositoryError::Json(m)) if m == "expected value"));

    assert!(matches!(
        decide_load(ReadOutcome::Missing, ReadOutcome::Missing),
        LoadDecision::UseDefaults
    ));
}

#[test]
fn restored_backup_is_saved_at_the_expected_revision() {
    let mut backup = Settings::default();
    backup.revision = 3;
    let restored = prepare_restore(backup, 8);
    assert_eq!(restored.revision, 8);
    let saved = prepare_save(restored, 8, 8, ts(0, 0)).unwrap();
    assert_eq!(saved.revision, 9);
}

#[test]
fn current_documents_keep_their_profiles_scope() {
    let scope = obj(vec![("kind", text("device"))]);
    let mut value = document(3, scope, vec![rule_json("r", "macro", None)]);
    migrate_settings_value(&mut value);
    let profiles = items(member(&value, "profiles").unwrap());
    let scope = member(&profiles[0], "scope").unwrap();
    assert!(matches!(member(scope, "kind"), Some(JsonValue::Text(kind)) if kind == "device"));
    assert!(items(member(&profiles[0], "rules").unwrap()).is_empty());
    assert_eq!(schema_version(&value), 3);
}

#[test]
fn document_without_profiles_only_gets_the_schema_version() {
    let mut value = obj(vec![("revision", num(4))]);
    migrate_settings_value(&mut value);
    match &value {
        JsonValue::Object(members) => {
            assert_eq!(members.len(), 2);
            assert_eq!(members[1].0, "schemaVersion");
        }
        other => panic!("not an object: {other:?}"),
    }
    assert_eq!(schema_version(&value), 3);
}

#[test]
fn validation_messages_name_the_offending_item() {
    let id = 0x0123_4567_89ab_cdef_0123_4567_89ab_cdefu128;
    assert_eq!(
        ValidationError::EmptyChord(id).message(),
        "rule 01234567-89ab-cdef-0123-456789abcdef has an empty keyboard chord"
    );
    assert_eq!(ValidationError::Schema(7).message(), "unsupported schema version 7");
    assert_eq!(
        RepositoryError::StaleRevision { expected: 2, current: 10 }.message(),
        "stale revision: expected 2, current 10"
    );
}

#[test]
fn key_remap_rule_is_valid_in_the_default_settings() {
    let mut settings = Settings::default();
    settings.profiles[0].rules.push(Rule::key_remap("CapsLock", "Escape"));
    assert_eq!(validate(&settings), Ok(()));
}

#[test]
fn migrating_a_migrated_document_changes_nothing() {
    let scope = obj(vec![("kind", text("device"))]);
    let rules = vec![rule_json("kept", "send_keys", Some("D")), rule_json("gone", "launch", None)];
    let mut value = document(1, scope, rules);
    migrate_settings_value(&mut value);
    let once = format!("{value:?}");
    migrate_settings_value(&mut value);
    assert_eq!(format!("{value:?}"), once);
    assert_eq!(schema_version(&value), 3);
}

#[test]
fn keyboard_activation_requires_a_stable_identifier() {
    let mut settings = Settings::default();
    let profile = settings.profiles.first_mut().unwrap();
    let profile_id = profile.id;
    profile.activation.connected_keyboards.push(DeviceSelector {
        vendor_id: None,
        product_id: None,
        interface_id: None,
        manufacturer_contains: None,
        name_contains: None,
        is_virtual: Some(false),
    });

    assert_eq!(validate(&settings), Err(ValidationError::UnsafeKeyboardActivation(profile_id)));
}

#[test]
fn keyboard_activation_with_an_identifier_is_accepted() {
    let mut settings = Settings::default();
    let profile = settings.profiles.first_mut().unwrap();
    profile.activation.connected_keyboards.push(DeviceSelector {
        name_contains: Some("  ".into()),
        ..DeviceSelector::default()
    });
    assert!(validate(&settings).is_err());
    settings.profiles[0].activation.connected_keyboards[0].product_id = Some("C31C".into());
    assert_eq!(validate(&settings), Ok(()));
    assert!(ValidationError::UnsafeKeyboardActivation(1)
        .message()
        .ends_with("activates on a connected keyboard without a stable identifier"));
}

fn ts(seconds: i64, nanos: u32) -> Timestamp {
    Timestamp { seconds, nanos }
}
