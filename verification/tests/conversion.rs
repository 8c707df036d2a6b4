use oas_common::json::{Entry, JsonValue};
use oas_common::record::{DecodingError, RecordMeta, TypedRecord, TypedValue, UntypedRecord};
use oas_common::types::{AnyRecord, DispatchError, Feed, Media, upgrade_known};

fn entry(key: &str, value: JsonValue) -> Entry {
    Entry { key: key.to_string(), value }
}

fn obj(entries: Vec<Entry>) -> JsonValue {
    JsonValue::Obj(entries)
}

fn string(x: &str) -> JsonValue {
    JsonValue::Str(x.to_string())
}

fn media_meta(id: &str) -> RecordMeta {
    RecordMeta {
        guid: format!("media_{}", id),
        typ: "media".to_string(),
        id: id.to_string(),
        source: "rss".to_string(),
        seq: 1,
        version: 1,
        timestamp: 100,
    }
}

#[test]
fn guid_invariant_from_id_and_value() {
    let r = TypedRecord::<Media>::from_id_and_value("42", Media { title: None });
    assert_eq!(r.guid(), "media_42");
    assert_eq!(r.typ(), "media");
    assert_eq!(r.id(), "42");
    assert_eq!(r.meta.source, "");
    assert_eq!(r.meta.seq, 0);
    assert_eq!(r.meta.version, 0);
    assert_eq!(r.meta.timestamp, 0);
}

#[test]
fn guid_helper_format() {
    assert_eq!(<Media as TypedValue>::guid("7"), "media_7");
    assert_eq!(<Feed as TypedValue>::guid("abc"), "feed_abc");
}

#[test]
fn default_meta_is_empty() {
    let m = RecordMeta::default();
    assert_eq!(m.guid, "");
    assert_eq!(m.typ, "");
    assert_eq!(m.id, "");
    assert_eq!(m.source, "");
    assert_eq!(m.seq, 0);
    assert_eq!(m.version, 0);
    assert_eq!(m.timestamp, 0);
}

#[test]
fn label_defaults_to_none() {
    let m = Media { title: Some("X".to_string()) };
    assert!(m.label().is_none());
}

#[test]
fn shape_rejection_string() {
    let r = UntypedRecord::with_typ_id_value("media", "1", string("hi"));
    assert_eq!(r.unwrap_err(), DecodingError::NotAnObject);
}

#[test]
fn shape_rejection_array() {
    let r = UntypedRecord::with_typ_id_value("media", "1", JsonValue::Arr(vec![string("hi")]));
    assert_eq!(r.unwrap_err(), DecodingError::NotAnObject);
}

#[test]
fn with_typ_id_value_object_ok() {
    let r = UntypedRecord::with_typ_id_value("media", "1", obj(vec![entry("title", string("X"))]))
        .unwrap();
    assert_eq!(r.typ(), "media");
    assert_eq!(r.id(), "1");
    assert_eq!(r.guid(), "");
    assert_eq!(r.value, vec![entry("title", string("X"))]);
}

#[test]
fn type_mismatch_detection() {
    let u = UntypedRecord::with_typ_id_value("media", "42", obj(vec![entry("title", string("X"))]))
        .unwrap();
    match u.into_typed_record::<Feed>() {
        Err(DecodingError::TypeMismatch(expected, actual)) => {
            assert_eq!(expected, "feed");
            assert_eq!(actual, "media");
        },
        other => panic!("expected a type mismatch, got {:?}", other),
    }
}

#[test]
fn deserialization_failure_on_bad_field() {
    let u = UntypedRecord::with_typ_id_value("media", "42", obj(vec![entry("title", JsonValue::Num(3))]))
        .unwrap();
    let r = u.into_typed_record::<Media>();
    assert_eq!(r.unwrap_err(), DecodingError::Deserialization);
}

#[test]
fn scenario_media_upgrade() {
    let u = UntypedRecord {
        meta: media_meta("42"),
        value: vec![entry("title", string("X"))],
    };
    let t = u.into_typed_record::<Media>().unwrap();
    assert_eq!(t.value.title, Some("X".to_string()));
    assert_eq!(t.guid(), "media_42");

    let u2 = UntypedRecord {
        meta: media_meta("42"),
        value: vec![entry("title", string("X"))],
    };
    match u2.into_typed_record::<Feed>() {
        Err(DecodingError::TypeMismatch(expected, actual)) => {
            assert_eq!(expected, "feed");
            assert_eq!(actual, "media");
        },
        other => panic!("expected a type mismatch, got {:?}", other),
    }
}

#[test]
fn round_trip_is_lossless() {
    let r1 = TypedRecord::<Media>::from_id_and_value("42", Media { title: Some("X".to_string()) });
    let d1 = r1.into_untyped_record().unwrap();
    let d1_copy = d1.clone();
    let r2 = d1.into_typed_record::<Media>().unwrap();
    let d2 = r2.into_untyped_record().unwrap();
    assert_eq!(d2, d1_copy);
}

#[test]
fn round_trip_none_title() {
    let r1 = TypedRecord::<Media>::from_id_and_value("9", Media { title: None });
    let d1 = r1.into_untyped_record().unwrap();
    let d1_copy = d1.clone();
    let r2 = d1.into_typed_record::<Media>().unwrap();
    let d2 = r2.into_untyped_record().unwrap();
    assert_eq!(d2, d1_copy);
    assert_eq!(d2.value, vec![]);
}

#[test]
fn wire_object_shape() {
    let u = UntypedRecord {
        meta: media_meta("42"),
        value: vec![entry("title", string("X"))],
    };
    let o = u.into_json_object().unwrap();
    assert_eq!(o.len(), 2);
    assert_eq!(o[0].key, "$meta");
    match &o[0].value {
        JsonValue::Obj(meta) => {
            assert_eq!(meta[0], entry("guid", string("media_42")));
            assert_eq!(meta[1], entry("type", string("media")));
            assert_eq!(meta[2], entry("id", string("42")));
            assert_eq!(meta[3], entry("source", string("rss")));
            assert_eq!(meta[4], entry("seq", JsonValue::Num(1)));
            assert_eq!(meta[5], entry("version", JsonValue::Num(1)));
            assert_eq!(meta[6], entry("timestamp", JsonValue::Num(100)));
        },
        other => panic!("expected the envelope object, got {:?}", other),
    }
    assert_eq!(o[1], entry("title", string("X")));
}

#[test]
fn typed_wire_object_shape() {
    let r = TypedRecord::<Media>::from_id_and_value("42", Media { title: Some("X".to_string()) });
    let o = r.into_json_object().unwrap();
    assert_eq!(o.len(), 2);
    assert_eq!(o[0].key, "$meta");
    assert_eq!(o[1], entry("title", string("X")));
}

#[test]
fn dispatch_unknown_type() {
    let u = UntypedRecord::with_typ_id_value("zzz", "1", obj(vec![])).unwrap();
    match upgrade_known(u) {
        Err(DispatchError::UnknownType(t)) => assert_eq!(t, "zzz"),
        other => panic!("expected an unknown-type error, got {:?}", other),
    }
}

#[test]
fn dispatch_media() {
    let u = UntypedRecord::with_typ_id_value("media", "1", obj(vec![entry("title", string("X"))]))
        .unwrap();
    match upgrade_known(u) {
        Ok(AnyRecord::Media(t)) => assert_eq!(t.value.title, Some("X".to_string())),
        other => panic!("expected a media record, got {:?}", other),
    }
}

#[test]
fn dispatch_feed() {
    let u = UntypedRecord::with_typ_id_value("feed", "1", obj(vec![entry("url", string("u"))]))
        .unwrap();
    match upgrade_known(u) {
        Ok(AnyRecord::Feed(t)) => assert_eq!(t.value.url, Some("u".to_string())),
        other => panic!("expected a feed record, got {:?}", other),
    }
}

#[test]
fn upgrade_keeps_extra_payload_keys_out_of_value() {
    // Unknown payload fields are ignored by parsing, and the typed value
    // re-serializes without them.
    let u = UntypedRecord::with_typ_id_value(
        "media",
        "1",
        obj(vec![entry("title", string("X")), entry("extra", JsonValue::Num(1))]),
    )
    .unwrap();
    let t = u.into_typed_record::<Media>().unwrap();
    let d = t.into_untyped_record().unwrap();
    assert_eq!(d.value, vec![entry("title", string("X"))]);
}

#[test]
fn wire_object_parses_back() {
    let u = UntypedRecord {
        meta: media_meta("42"),
        value: vec![entry("title", string("X")), entry("extra", JsonValue::Num(1))],
    };
    let u_copy = u.clone();
    let o = u.into_json_object().unwrap();
    let parsed = UntypedRecord::from_json_object(JsonValue::Obj(o)).unwrap();
    assert_eq!(parsed, u_copy);
}

#[test]
fn from_json_object_rejects_non_object() {
    let r = UntypedRecord::from_json_object(string("hi"));
    assert_eq!(r.unwrap_err(), DecodingError::NotAnObject);
}

#[test]
fn from_json_object_requires_envelope() {
    let r = UntypedRecord::from_json_object(obj(vec![entry("title", string("X"))]));
    assert_eq!(r.unwrap_err(), DecodingError::Deserialization);
}

#[test]
fn from_json_object_rejects_bad_envelope_field() {
    let meta = obj(vec![
        entry("guid", string("media_1")),
        entry("type", string("media")),
        entry("id", string("1")),
        entry("source", string("")),
        entry("seq", string("not a number")),
        entry("version", JsonValue::Num(0)),
        entry("timestamp", JsonValue::Num(0)),
    ]);
    let r = UntypedRecord::from_json_object(obj(vec![entry("$meta", meta)]));
    assert_eq!(r.unwrap_err(), DecodingError::Deserialization);
}

#[test]
fn from_json_object_reads_envelope() {
    let meta = obj(vec![
        entry("guid", string("media_1")),
        entry("type", string("media")),
        entry("id", string("1")),
        entry("source", string("import")),
        entry("seq", JsonValue::Num(7)),
        entry("version", JsonValue::Num(2)),
        entry("timestamp", JsonValue::Num(99)),
    ]);
    let u = UntypedRecord::from_json_object(obj(vec![
        entry("$meta", meta),
        entry("title", string("X")),
    ]))
    .unwrap();
    assert_eq!(u.guid(), "media_1");
    assert_eq!(u.typ(), "media");
    assert_eq!(u.id(), "1");
    assert_eq!(u.meta.source, "import");
    assert_eq!(u.meta.seq, 7);
    assert_eq!(u.meta.version, 2);
    assert_eq!(u.meta.timestamp, 99);
    assert_eq!(u.value, vec![entry("title", string("X"))]);
}
