use oas_common::json::{Entry, JsonValue};
use oas_common::record::{RecordMeta, TypedRecord, UntypedRecord};
use oas_common::resolve::{Reference, Resolver};
use oas_common::types::Post;

fn entry(key: &str, value: JsonValue) -> Entry {
    Entry { key: key.to_string(), value }
}

fn string(x: &str) -> JsonValue {
    JsonValue::Str(x.to_string())
}

fn media_record(id: &str) -> UntypedRecord {
    UntypedRecord {
        meta: RecordMeta {
            guid: format!("media_{}", id),
            typ: "media".to_string(),
            id: id.to_string(),
            source: "".to_string(),
            seq: 0,
            version: 0,
            timestamp: 0,
        },
        value: vec![entry("title", string("T"))],
    }
}

/// A resolver over a fixed set of known identifiers.
struct FixedResolver {
    known: Vec<String>,
}

impl Resolver for FixedResolver {
    fn lookup(&self, id: &str) -> Option<UntypedRecord> {
        if self.known.iter().any(|k| k == id) {
            Some(media_record(id))
        } else {
            None
        }
    }
}

fn post_record(ids: &[&str]) -> TypedRecord<Post> {
    let media = ids.iter().map(|i| Reference::Id(i.to_string())).collect();
    TypedRecord::from_id_and_value("p1", Post { title: Some("P".to_string()), media })
}

#[test]
fn resolve_then_extract_returns_hydrated_records() {
    let mut r = post_record(&["m1", "m2"]);
    let resolver = FixedResolver { known: vec!["m1".to_string(), "m2".to_string()] };
    r.resolve_refs(&resolver).unwrap();
    assert!(matches!(r.value.media[0], Reference::Resolved(_)));
    assert!(matches!(r.value.media[1], Reference::Resolved(_)));

    let extracted = r.extract_refs();
    assert_eq!(extracted, vec![media_record("m1"), media_record("m2")]);
    // The payload holds only identifier references afterwards.
    assert_eq!(
        r.value.media,
        vec![Reference::Id("m1".to_string()), Reference::Id("m2".to_string())]
    );
    // The envelope is untouched.
    assert_eq!(r.guid(), "post_p1");
}

#[test]
fn extract_twice_returns_nothing() {
    let mut r = post_record(&["m1"]);
    let resolver = FixedResolver { known: vec!["m1".to_string()] };
    r.resolve_refs(&resolver).unwrap();
    let first = r.extract_refs();
    assert_eq!(first.len(), 1);
    let second = r.extract_refs();
    assert_eq!(second, vec![]);
    assert_eq!(r.value.media, vec![Reference::Id("m1".to_string())]);
}

#[test]
fn resolve_reports_every_missing_reference() {
    let mut r = post_record(&["m1", "m2", "m3"]);
    let resolver = FixedResolver { known: vec!["m2".to_string()] };
    let e = r.resolve_refs(&resolver).unwrap_err();
    assert_eq!(e.missing, vec!["m1".to_string(), "m3".to_string()]);
    // The reference the resolver knew is hydrated, the others stay pending.
    assert!(matches!(r.value.media[0], Reference::Id(_)));
    assert!(matches!(r.value.media[1], Reference::Resolved(_)));
    assert!(matches!(r.value.media[2], Reference::Id(_)));
}

#[test]
fn resolve_without_references_succeeds() {
    let mut r = post_record(&[]);
    let resolver = FixedResolver { known: vec![] };
    r.resolve_refs(&resolver).unwrap();
    assert_eq!(r.extract_refs(), vec![]);
}

#[test]
fn post_serializes_references_as_ids() {
    let mut r = post_record(&["m1"]);
    let resolver = FixedResolver { known: vec!["m1".to_string()] };
    r.resolve_refs(&resolver).unwrap();
    // Even with a resolved reference, the wire form holds the id string.
    let o = r.into_json_object().unwrap();
    assert_eq!(o[1], entry("title", string("P")));
    assert_eq!(o[2], entry("media", JsonValue::Arr(vec![string("m1")])));
}

#[test]
fn post_round_trip() {
    let r1 = post_record(&["m1", "m2"]);
    let d1 = r1.into_untyped_record().unwrap();
    let d1_copy = d1.clone();
    let r2 = d1.into_typed_record::<Post>().unwrap();
    assert_eq!(
        r2.value.media,
        vec![Reference::Id("m1".to_string()), Reference::Id("m2".to_string())]
    );
    let d2 = r2.into_untyped_record().unwrap();
    assert_eq!(d2, d1_copy);
}

#[test]
fn dispatch_post() {
    let media = JsonValue::Arr(vec![string("m1"), string("m2")]);
    let u = oas_common::record::UntypedRecord::with_typ_id_value(
        "post",
        "p1",
        JsonValue::Obj(vec![entry("title", string("P")), entry("media", media)]),
    )
    .unwrap();
    match oas_common::types::upgrade_known(u) {
        Ok(oas_common::types::AnyRecord::Post(t)) => {
            assert_eq!(t.value.title, Some("P".to_string()));
            assert_eq!(
                t.value.media,
                vec![Reference::Id("m1".to_string()), Reference::Id("m2".to_string())]
            );
        },
        other => panic!("expected a post record, got {:?}", other),
    }
}

#[test]
fn post_rejects_non_string_media_element() {
    let media = JsonValue::Arr(vec![string("m1"), JsonValue::Num(3)]);
    let u = oas_common::record::UntypedRecord::with_typ_id_value(
        "post",
        "p1",
        JsonValue::Obj(vec![entry("media", media)]),
    )
    .unwrap();
    let r = u.into_typed_record::<Post>();
    assert!(matches!(
        r,
        Err(oas_common::record::DecodingError::Deserialization)
    ));
}
