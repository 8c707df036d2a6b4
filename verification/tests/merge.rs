use oas_common::json::{Entry, JsonValue};
use oas_common::record::{EncodingError, UntypedRecord};

fn entry(key: &str, value: JsonValue) -> Entry {
    Entry { key: key.to_string(), value }
}

fn obj(entries: Vec<Entry>) -> JsonValue {
    JsonValue::Obj(entries)
}

fn num(x: i64) -> JsonValue {
    JsonValue::Num(x)
}

fn record_with(payload: Vec<Entry>) -> UntypedRecord {
    UntypedRecord::with_typ_id_value("media", "1", JsonValue::Obj(payload)).unwrap()
}

#[test]
fn merge_semantics() {
    // {"a":1,"b":2} patched with {"b":null,"c":3} is {"a":1,"c":3}.
    let mut r = record_with(vec![entry("a", num(1)), entry("b", num(2))]);
    let patch = obj(vec![entry("b", JsonValue::Null), entry("c", num(3))]);
    r.merge_json_value(&patch).unwrap();
    assert_eq!(r.value, vec![entry("a", num(1)), entry("c", num(3))]);
}

#[test]
fn merge_nested_objects_recursively() {
    let mut r = record_with(vec![
        entry("o", obj(vec![entry("x", num(1)), entry("y", num(2))])),
        entry("k", num(1)),
    ]);
    let patch = obj(vec![entry("o", obj(vec![entry("y", JsonValue::Null), entry("z", num(3))]))]);
    r.merge_json_value(&patch).unwrap();
    assert_eq!(
        r.value,
        vec![entry("o", obj(vec![entry("x", num(1)), entry("z", num(3))])), entry("k", num(1))]
    );
}

#[test]
fn merge_replaces_non_object_values_wholesale() {
    let mut r = record_with(vec![entry("a", num(1))]);
    let patch = obj(vec![entry("a", obj(vec![entry("b", num(2))]))]);
    r.merge_json_value(&patch).unwrap();
    assert_eq!(r.value, vec![entry("a", obj(vec![entry("b", num(2))]))]);

    let patch2 = obj(vec![entry("a", num(9))]);
    r.merge_json_value(&patch2).unwrap();
    assert_eq!(r.value, vec![entry("a", num(9))]);
}

#[test]
fn merge_adds_missing_keys() {
    let mut r = record_with(vec![]);
    let patch = obj(vec![entry("a", num(1))]);
    r.merge_json_value(&patch).unwrap();
    assert_eq!(r.value, vec![entry("a", num(1))]);
}

#[test]
fn merge_delete_absent_key_is_noop() {
    let mut r = record_with(vec![entry("a", num(1))]);
    let patch = obj(vec![entry("b", JsonValue::Null)]);
    r.merge_json_value(&patch).unwrap();
    assert_eq!(r.value, vec![entry("a", num(1))]);
}

#[test]
fn merge_rejects_non_object_patch() {
    let mut r = record_with(vec![entry("a", num(1))]);
    let before = r.clone();
    let e = r.merge_json_value(&num(5)).unwrap_err();
    assert_eq!(e, EncodingError::NotAnObject);
    assert_eq!(r, before);
}

#[test]
fn merge_keeps_envelope() {
    let mut r = record_with(vec![entry("a", num(1))]);
    let patch = obj(vec![entry("a", num(2))]);
    r.merge_json_value(&patch).unwrap();
    assert_eq!(r.typ(), "media");
    assert_eq!(r.id(), "1");
}
