//! A JSON document as the settings file holds it before it is read into
//! settings, and the migration that brings documents of older schema
//! versions up to the current one.
use vstd::prelude::*;
use crate::model::CURRENT_SCHEMA_VERSION;
use crate::text::str_eq;

verus! {

/// A JSON value. Object members keep their order; a key occurs once.
#[derive(Debug)]
pub enum JsonValue {
    Null,
    Bool(bool),
    /// A number as written, with its value when it is an integer that fits
    /// in 64 bits without sign.
    Number { text: String, unsigned: Option<u64> },
    Text(String),
    Array(Vec<JsonValue>),
    Object(Vec<(String, JsonValue)>),
}

pub enum JsonView {
    Null,
    Bool(bool),
    Number { text: Seq<char>, unsigned: Option<u64> },
    Text(Seq<char>),
    Array(Seq<JsonView>),
    Object(Seq<(Seq<char>, JsonView)>),
}

pub open spec fn json_view(v: JsonValue) -> JsonView
    decreases v,
{
    match v {
        JsonValue::Null => JsonView::Null,
        JsonValue::Bool(b) => JsonView::Bool(b),
        JsonValue::Number { text, unsigned } => JsonView::Number { text: text@, unsigned },
        JsonValue::Text(s) => JsonView::Text(s@),
        JsonValue::Array(items) => JsonView::Array(
            Seq::new(
                items@.len(),
                |i: int|
                    if 0 <= i < items@.len() {
                        json_view(items@[i])
                    } else {
                        JsonView::Null
                    },
            ),
        ),
        JsonValue::Object(entries) => JsonView::Object(
            Seq::new(
                entries@.len(),
                |i: int|
                    if 0 <= i < entries@.len() {
                        (entries@[i].0@, json_view(entries@[i].1))
                    } else {
                        (Seq::empty(), JsonView::Null)
                    },
            ),
        ),
    }
}

pub open spec fn items_view(items: Seq<JsonValue>) -> Seq<JsonView> {
    Seq::new(items.len(), |i: int| json_view(items[i]))
}

pub open spec fn entries_view(entries: Seq<(String, JsonValue)>) -> Seq<(Seq<char>, JsonView)> {
    Seq::new(entries.len(), |i: int| (entries[i].0@, json_view(entries[i].1)))
}

proof fn lemma_array_view(items: Vec<JsonValue>)
    ensures
        json_view(JsonValue::Array(items)) == JsonView::Array(items_view(items@)),
{
    match json_view(JsonValue::Array(items)) {
        JsonView::Array(s) => {
            assert(s.len() == items@.len());
            assert forall|i: int| 0 <= i < s.len() implies s[i] == items_view(items@)[i] by {}
            assert(s =~= items_view(items@));
        },
        _ => {},
    }
}

proof fn lemma_object_view(entries: Vec<(String, JsonValue)>)
    ensures
        json_view(JsonValue::Object(entries)) == JsonView::Object(entries_view(entries@)),
{
    match json_view(JsonValue::Object(entries)) {
        JsonView::Object(s) => {
            assert(s.len() == entries@.len());
            assert forall|i: int| 0 <= i < s.len() implies s[i] == entries_view(entries@)[i] by {}
            assert(s =~= entries_view(entries@));
        },
        _ => {},
    }
}

/// The index of the first member at or after `i` named `key`.
pub open spec fn key_index(e: Seq<(Seq<char>, JsonView)>, key: Seq<char>, i: int) -> Option<int>
    decreases e.len() - i,
{
    if i < 0 || i >= e.len() {
        None
    } else if e[i].0 == key {
        Some(i)
    } else {
        key_index(e, key, i + 1)
    }
}

pub(crate) proof fn lemma_key_index_bounds(e: Seq<(Seq<char>, JsonView)>, key: Seq<char>, i: int)
    requires
        0 <= i,
    ensures
        key_index(e, key, i) matches Some(j) ==> i <= j < e.len() && e[j].0 == key,
    decreases e.len() - i,
{
    if i < e.len() && e[i].0 != key {
        lemma_key_index_bounds(e, key, i + 1);
    }
}

/// The member `key` of an object.
pub open spec fn member(v: JsonView, key: Seq<char>) -> Option<JsonView> {
    match v {
        JsonView::Object(e) => match key_index(e, key, 0) {
            Some(i) => Some(e[i].1),
            None => None,
        },
        _ => None,
    }
}

/// `value[key] = x`: replaces the member of an object, or adds it at the
/// end; `null` becomes an object with that one member. (Any other value
/// cannot be assigned to: the operation panics.)
pub open spec fn assign(v: JsonView, key: Seq<char>, x: JsonView) -> JsonView {
    match v {
        JsonView::Object(e) => JsonView::Object(
            match key_index(e, key, 0) {
                Some(i) => e.update(i, (key, x)),
                None => e.push((key, x)),
            },
        ),
        JsonView::Null => JsonView::Object(seq![(key, x)]),
        _ => v,
    }
}

pub open spec fn assignable(v: JsonView) -> bool {
    v is Object || v is Null
}

/// The schema version a document declares; `1` when it declares none.
pub open spec fn schema_version_of(v: JsonView) -> u64 {
    match member(v, "schemaVersion"@) {
        Some(JsonView::Number { unsigned: Some(n), .. }) => n,
        _ => 1,
    }
}

/// The kinds of action that no longer exist.
pub open spec fn is_removed_action(kind: Seq<char>) -> bool {
    ||| kind == "macro"@
    ||| kind == "send_text"@
    ||| kind == "auto_click"@
    ||| kind == "launch"@
    ||| kind == "clipboard_slot"@
    ||| kind == "window"@
    ||| kind == "switch_profile"@
}

/// A rule stays unless its `action.kind` is a removed kind.
pub open spec fn keeps_rule(rule: JsonView) -> bool {
    match member(rule, "action"@) {
        Some(action) => match member(action, "kind"@) {
            Some(JsonView::Text(kind)) => !is_removed_action(kind),
            _ => true,
        },
        None => true,
    }
}

pub open spec fn kept_rules(rules: Seq<JsonView>) -> Seq<JsonView>
    decreases rules.len(),
{
    if rules.len() == 0 {
        rules
    } else {
        let kept = kept_rules(rules.drop_last());
        if keeps_rule(rules.last()) {
            kept.push(rules.last())
        } else {
            kept
        }
    }
}

/// `{"kind": "global"}`.
pub open spec fn global_scope() -> JsonView {
    JsonView::Object(seq![("kind"@, JsonView::Text("global"@))])
}

/// The current schema version, as a JSON number.
pub open spec fn current_version() -> JsonView {
    JsonView::Number { text: "3"@, unsigned: Some(CURRENT_SCHEMA_VERSION as u64) }
}

/// A profile with the rules of removed kinds dropped, and, coming from an
/// older schema, with its scope reset to global.
pub open spec fn migrated_profile(p: JsonView, legacy: bool) -> JsonView {
    let filtered = match p {
        JsonView::Object(e) => match key_index(e, "rules"@, 0) {
            Some(i) => match e[i].1 {
                JsonView::Array(rules) => JsonView::Object(
                    e.update(i, (e[i].0, JsonView::Array(kept_rules(rules)))),
                ),
                _ => p,
            },
            None => p,
        },
        _ => p,
    };
    if legacy {
        assign(filtered, "scope"@, global_scope())
    } else {
        filtered
    }
}

/// The document brought up to the current schema: every profile migrated,
/// and an older schema version replaced by the current one.
pub open spec fn migrated(v: JsonView) -> JsonView {
    let legacy = schema_version_of(v) < CURRENT_SCHEMA_VERSION;
    let with_profiles = match v {
        JsonView::Object(e) => match key_index(e, "profiles"@, 0) {
            Some(i) => match e[i].1 {
                JsonView::Array(ps) => JsonView::Object(
                    e.update(
                        i,
                        (
                            e[i].0,
                            JsonView::Array(
                                ps.map_values(|p: JsonView| migrated_profile(p, legacy)),
                            ),
                        ),
                    ),
                ),
                _ => v,
            },
            None => v,
        },
        _ => v,
    };
    if legacy {
        assign(with_profiles, "schemaVersion"@, current_version())
    } else {
        with_profiles
    }
}

/// The documents the migration can handle: from an older schema, the
/// document and each of its profiles must be objects (or `null`) so that
/// the members the migration sets can be set.
pub open spec fn migratable(v: JsonView) -> bool {
    schema_version_of(v) < CURRENT_SCHEMA_VERSION ==> {
        &&& assignable(v)
        &&& match member(v, "profiles"@) {
            Some(JsonView::Array(ps)) => forall|k: int| 0 <= k < ps.len() ==> assignable(#[trigger] ps[k]),
            _ => true,
        }
    }
}

fn find_key(entries: &Vec<(String, JsonValue)>, key: &str) -> (r: Option<usize>)
    ensures
        match r {
            Some(i) => key_index(entries_view(entries@), key@, 0) == Some(i as int),
            None => key_index(entries_view(entries@), key@, 0) is None,
        },
{
    let ghost e = entries_view(entries@);
    let n = entries.len();
    let mut i: usize = 0;
    while i < n
        invariant
            n == entries@.len(),
            e == entries_view(entries@),
            i <= n,
            key_index(e, key@, 0) == key_index(e, key@, i as int),
        decreases n - i,
    {
        if str_eq(entries[i].0.as_str(), key) {
            return Some(i);
        }
        i = i + 1;
    }
    None
}

/// The member `key` of an object value.
fn member_of<'a>(v: &'a JsonValue, key: &str) -> (r: Option<&'a JsonValue>)
    ensures
        match r {
            Some(m) => member(json_view(*v), key@) == Some(json_view(*m)),
            None => member(json_view(*v), key@) is None,
        },
{
    match v {
        JsonValue::Object(entries) => {
            proof {
                lemma_object_view(*entries);
                lemma_key_index_bounds(entries_view(entries@), key@, 0);
            }
            match find_key(entries, key) {
                Some(i) => Some(&entries[i].1),
                None => None,
            }
        },
        _ => None,
    }
}

pub fn schema_version(v: &JsonValue) -> (r: u64)
    ensures
        r == schema_version_of(json_view(*v)),
{
    match member_of(v, "schemaVersion") {
        Some(JsonValue::Number { unsigned: Some(n), .. }) => *n,
        _ => 1,
    }
}

fn is_removed_action_exec(kind: &str) -> (r: bool)
    ensures
        r == is_removed_action(kind@),
{
    str_eq(kind, "macro") || str_eq(kind, "send_text") || str_eq(kind, "auto_click") || str_eq(
        kind,
        "launch",
    ) || str_eq(kind, "clipboard_slot") || str_eq(kind, "window") || str_eq(kind, "switch_profile")
}

fn keeps_rule_exec(rule: &JsonValue) -> (r: bool)
    ensures
        r == keeps_rule(json_view(*rule)),
{
    match member_of(rule, "action") {
        Some(action) => match member_of(action, "kind") {
            Some(JsonValue::Text(kind)) => !is_removed_action_exec(kind.as_str()),
            _ => true,
        },
        None => true,
    }
}

fn retain_rules(rules: Vec<JsonValue>) -> (r: Vec<JsonValue>)
    ensures
        items_view(r@) == kept_rules(items_view(rules@)),
{
    let ghost all = items_view(rules@);
    let n = rules.len();
    let mut rest = rules;
    let mut out: Vec<JsonValue> = Vec::new();
    let mut i: usize = 0;
    assert(all.subrange(0, 0) =~= Seq::<JsonView>::empty());
    assert(items_view(out@) =~= Seq::<JsonView>::empty());
    while i < n
        invariant
            n == all.len(),
            i <= n,
            rest@.len() == n - i,
            items_view(rest@) == all.subrange(i as int, n as int),
            items_view(out@) == kept_rules(all.subrange(0, i as int)),
        decreases n - i,
    {
        let ghost before = rest@;
        let rule = rest.remove(0);
        assert(items_view(rest@) =~= all.subrange(i + 1, n as int)) by {
            assert(rest@ =~= before.drop_first());
            assert(items_view(rest@) =~= items_view(before).drop_first());
            assert(all.subrange(i + 1, n as int) =~= all.subrange(i as int, n as int).drop_first());
        }
        let ghost prefix = all.subrange(0, i + 1);
        assert(prefix.drop_last() =~= all.subrange(0, i as int));
        assert(prefix.last() == json_view(rule)) by {
            assert(items_view(before)[0] == json_view(rule));
            assert(items_view(before)[0] == all[i as int]);
        }
        let ghost prev = items_view(out@);
        if keeps_rule_exec(&rule) {
            out.push(rule);
            assert(items_view(out@) =~= prev.push(prefix.last()));
        }
        i = i + 1;
    }
    assert(all.subrange(0, n as int) =~= all);
    out
}

/// Replaces member `i` of an object's members by `x`, keeping its name.
proof fn lemma_entries_update(entries: Seq<(String, JsonValue)>, i: int, name: String, x: JsonValue)
    requires
        0 <= i < entries.len(),
        name@ == entries[i].0@,
    ensures
        entries_view(entries.update(i, (name, x))) == entries_view(entries).update(
            i,
            (entries_view(entries)[i].0, json_view(x)),
        ),
{
    assert(entries_view(entries.update(i, (name, x))) =~= entries_view(entries).update(
        i,
        (entries_view(entries)[i].0, json_view(x)),
    ));
}

/// `value[key] = x` on an object or `null`.
fn assign_member(v: JsonValue, key: &str, x: JsonValue) -> (r: JsonValue)
    requires
        assignable(json_view(v)),
    ensures
        json_view(r) == assign(json_view(v), key@, json_view(x)),
{
    match v {
        JsonValue::Object(entries) => {
            proof {
                lemma_object_view(entries);
                lemma_key_index_bounds(entries_view(entries@), key@, 0);
            }
            let mut entries = entries;
            let ghost old_entries = entries@;
            match find_key(&entries, key) {
                Some(i) => {
                    let ghost xv = json_view(x);
                    entries.set(i, (key.to_owned(), x));
                    proof {
                        assert(entries_view(entries@) =~= entries_view(old_entries).update(
                            i as int,
                            (key@, xv),
                        ));
                        lemma_object_view(entries);
                    }
                    JsonValue::Object(entries)
                },
                None => {
                    let ghost xv = json_view(x);
                    entries.push((key.to_owned(), x));
                    proof {
                        assert(entries_view(entries@) =~= entries_view(old_entries).push((key@, xv)));
                        lemma_object_view(entries);
                    }
                    JsonValue::Object(entries)
                },
            }
        },
        _ => {
            let ghost xv = json_view(x);
            let entries = vec![(key.to_owned(), x)];
            proof {
                assert(entries_view(entries@) =~= seq![(key@, xv)]);
                lemma_object_view(entries);
            }
            JsonValue::Object(entries)
        },
    }
}

fn global_scope_value() -> (r: JsonValue)
    ensures
        json_view(r) == global_scope(),
{
    let entries = vec![("kind".to_owned(), JsonValue::Text("global".to_owned()))];
    proof {
        assert(entries_view(entries@) =~= seq![("kind"@, JsonView::Text("global"@))]);
        lemma_object_view(entries);
    }
    JsonValue::Object(entries)
}

fn current_version_value() -> (r: JsonValue)
    ensures
        json_view(r) == current_version(),
{
    JsonValue::Number { text: "3".to_owned(), unsigned: Some(CURRENT_SCHEMA_VERSION as u64) }
}

fn migrate_profile(p: JsonValue, legacy: bool) -> (r: JsonValue)
    requires
        legacy ==> assignable(json_view(p)),
    ensures
        json_view(r) == migrated_profile(json_view(p), legacy),
{
    let ghost pv = json_view(p);
    let filtered = match p {
        JsonValue::Object(entries) => {
            proof {
                lemma_object_view(entries);
                lemma_key_index_bounds(entries_view(entries@), "rules"@, 0);
            }
            let mut entries = entries;
            match find_key(&entries, "rules") {
                Some(i) => {
                    let ghost old_entries = entries@;
                    let (name, value) = entries.remove(i);
                    match value {
                        JsonValue::Array(rules) => {
                            proof {
                                lemma_array_view(rules);
                            }
                            let kept = retain_rules(rules);
                            let ghost kv = JsonValue::Array(kept);
                            proof {
                                lemma_array_view(kept);
                            }
                            entries.insert(i, (name, JsonValue::Array(kept)));
                            proof {
                                assert(entries@ =~= old_entries.update(i as int, (name, kv)));
                                lemma_entries_update(old_entries, i as int, name, kv);
                                lemma_object_view(entries);
                            }
                            JsonValue::Object(entries)
                        },
                        other => {
                            entries.insert(i, (name, other));
                            proof {
                                assert(entries@ =~= old_entries);
                            }
                            JsonValue::Object(entries)
                        },
                    }
                },
                None => JsonValue::Object(entries),
            }
        },
        other => other,
    };
    assert(json_view(filtered) is Object || json_view(filtered) == pv);
    if legacy {
        assign_member(filtered, "scope", global_scope_value())
    } else {
        filtered
    }
}

fn migrate_profiles(profiles: Vec<JsonValue>, legacy: bool) -> (r: Vec<JsonValue>)
    requires
        legacy ==> forall|k: int|
            0 <= k < profiles@.len() ==> assignable(#[trigger] json_view(profiles@[k])),
    ensures
        items_view(r@) == items_view(profiles@).map_values(|p: JsonView| migrated_profile(p, legacy)),
{
    let ghost all = items_view(profiles@);
    let n = profiles.len();
    let mut rest = profiles;
    let mut out: Vec<JsonValue> = Vec::new();
    let mut i: usize = 0;
    while i < n
        invariant
            n == all.len(),
            i <= n,
            rest@.len() == n - i,
            items_view(rest@) == all.subrange(i as int, n as int),
            legacy ==> forall|k: int| 0 <= k < n ==> assignable(#[trigger] all[k]),
            items_view(out@) =~= all.subrange(0, i as int).map_values(
                |p: JsonView| migrated_profile(p, legacy),
            ),
        decreases n - i,
    {
        let ghost before = rest@;
        let p = rest.remove(0);
        assert(items_view(rest@) =~= all.subrange(i + 1, n as int)) by {
            assert(rest@ =~= before.drop_first());
            assert(items_view(rest@) =~= items_view(before).drop_first());
            assert(all.subrange(i + 1, n as int) =~= all.subrange(i as int, n as int).drop_first());
        }
        assert(json_view(p) == all[i as int]) by {
            assert(items_view(before)[0] == json_view(p));
            assert(items_view(before)[0] == all[i as int]);
        }
        let ghost prev = items_view(out@);
        let m = migrate_profile(p, legacy);
        out.push(m);
        assert(items_view(out@) =~= prev.push(migrated_profile(all[i as int], legacy)));
        i = i + 1;
    }
    assert(all.subrange(0, n as int) =~= all);
    out
}

/// Brings a settings document of an older schema up to the current one:
/// rules whose action kind was removed are dropped (at any version), and a
/// document older than the current schema gets every profile's scope reset
/// to global and the current schema version.
pub fn migrate_settings_value(value: &mut JsonValue)
    requires
        migratable(json_view(*old(value))),
    ensures
        json_view(*final(value)) == migrated(json_view(*old(value))),
{
    let mut v = JsonValue::Null;
    std::mem::swap(&mut v, value);
    let ghost vv = json_view(v);
    let legacy = schema_version(&v) < CURRENT_SCHEMA_VERSION as u64;
    let with_profiles = match v {
        JsonValue::Object(entries) => {
            proof {
                lemma_object_view(entries);
                lemma_key_index_bounds(entries_view(entries@), "profiles"@, 0);
            }
            let mut entries = entries;
            match find_key(&entries, "profiles") {
                Some(i) => {
                    let ghost old_entries = entries@;
                    let (name, list) = entries.remove(i);
                    match list {
                        JsonValue::Array(profiles) => {
                            proof {
                                lemma_array_view(profiles);
                                assert forall|k: int|
                                    legacy && 0 <= k < profiles@.len() implies assignable(
                                    #[trigger] json_view(profiles@[k]),
                                ) by {
                                    assert(items_view(profiles@)[k] == json_view(profiles@[k]));
                                }
                            }
                            let migrated_list = migrate_profiles(profiles, legacy);
                            let ghost mv = JsonValue::Array(migrated_list);
                            proof {
                                lemma_array_view(migrated_list);
                            }
                            entries.insert(i, (name, JsonValue::Array(migrated_list)));
                            proof {
                                assert(entries@ =~= old_entries.update(i as int, (name, mv)));
                                lemma_entries_update(old_entries, i as int, name, mv);
                                lemma_object_view(entries);
                            }
                            JsonValue::Object(entries)
                        },
                        other => {
                            entries.insert(i, (name, other));
                            proof {
                                assert(entries@ =~= old_entries);
                            }
                            JsonValue::Object(entries)
                        },
                    }
                },
                None => JsonValue::Object(entries),
            }
        },
        other => other,
    };
    let result = if legacy {
        assign_member(with_profiles, "schemaVersion", current_version_value())
    } else {
        with_profiles
    };
    *value = result;
}

} // verus!
