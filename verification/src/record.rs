//! Records: a metadata envelope plus a payload, in an untyped form (a JSON
//! object, the wire and storage shape) or a typed form (a domain value).
//!
//! The two forms convert into each other: upgrading an untyped record checks
//! the type tag and parses the payload, downgrading a typed record serializes
//! the payload back to a JSON object. Both directions keep the envelope.

use vstd::prelude::*;

use crate::json::{
    deep_clone, distinct_keys, entries_view, lemma_get_none_when_no_key, lemma_remove_absent_noop,
    lemma_set_absent_appends, merge_value, obj_get, obj_remove, obj_set, spec_merge_entries,
    spec_obj_get, spec_obj_remove, spec_obj_set, Entry, EntryV, JsonV, JsonValue,
};

verus! {

broadcast use vstd::std_specs::vec::group_vec_axioms, vstd::string::group_string_axioms;

/// An error that occurs while encoding a record.
#[derive(Debug, Clone, PartialEq)]
pub enum EncodingError {
    /// The payload could not be serialized at all.
    Serialization,
    /// Serialization did not return an object. For a well-formed payload
    /// type this never happens; it signals a bug in that type.
    NotAnObject,
}

/// An error that occurs while decoding a record.
#[derive(Debug, Clone, PartialEq)]
pub enum DecodingError {
    /// The payload object does not parse as the requested type.
    Deserialization,
    /// The record's type tag does not equal the requested type's name;
    /// carries the expected and the actual name.
    TypeMismatch(String, String),
    /// The given JSON value is not an object.
    NotAnObject,
}

/// Record metadata: the bookkeeping fields attached to every record.
#[derive(Debug, Clone, PartialEq)]
pub struct RecordMeta {
    /// Globally unique identifier, canonically `{type}_{id}`.
    pub guid: String,
    /// Domain type tag; must equal the payload's declared type name.
    pub typ: String,
    /// Record identifier, unique within its type.
    pub id: String,
    /// Provenance tag.
    pub source: String,
    /// Sequence counter from the originating store.
    pub seq: u32,
    /// Payload schema revision.
    pub version: u32,
    /// Last-modified time, in epoch seconds.
    pub timestamp: u32,
}

/// The mathematical model of the metadata envelope.
#[verifier::ext_equal]
pub struct MetaV {
    pub guid: Seq<char>,
    pub typ: Seq<char>,
    pub id: Seq<char>,
    pub source: Seq<char>,
    pub seq: u32,
    pub version: u32,
    pub timestamp: u32,
}

impl View for RecordMeta {
    type V = MetaV;

    open spec fn view(&self) -> MetaV {
        MetaV {
            guid: self.guid@,
            typ: self.typ@,
            id: self.id@,
            source: self.source@,
            seq: self.seq,
            version: self.version,
            timestamp: self.timestamp,
        }
    }
}

impl RecordMeta {
    /// The model of a default envelope: empty strings, zero counters.
    pub open spec fn spec_default() -> MetaV {
        MetaV {
            guid: Seq::empty(),
            typ: Seq::empty(),
            id: Seq::empty(),
            source: Seq::empty(),
            seq: 0,
            version: 0,
            timestamp: 0,
        }
    }
}

impl Default for RecordMeta {
    /// All fields empty or zero; in particular no guid is fabricated.
    fn default() -> (r: Self)
        ensures
            r@ == RecordMeta::spec_default(),
    {
        RecordMeta {
            guid: String::new(),
            typ: String::new(),
            id: String::new(),
            source: String::new(),
            seq: 0,
            version: 0,
            timestamp: 0,
        }
    }
}

/// The JSON form of a metadata envelope, as it appears under the `$meta`
/// key of a record's wire object.
pub open spec fn meta_jv(m: MetaV) -> JsonV {
    JsonV::Obj(
        seq![
            EntryV { key: "guid"@, value: JsonV::Str(m.guid) },
            EntryV { key: "type"@, value: JsonV::Str(m.typ) },
            EntryV { key: "id"@, value: JsonV::Str(m.id) },
            EntryV { key: "source"@, value: JsonV::Str(m.source) },
            EntryV { key: "seq"@, value: JsonV::Num(m.seq as int) },
            EntryV { key: "version"@, value: JsonV::Num(m.version as int) },
            EntryV { key: "timestamp"@, value: JsonV::Num(m.timestamp as int) },
        ],
    )
}

/// Serialize a metadata envelope to its JSON form.
fn meta_to_json(meta: &RecordMeta) -> (r: JsonValue)
    ensures
        r.jv() == meta_jv(meta@),
{
    let mut out: Vec<Entry> = Vec::new();
    out.push(Entry { key: "guid".to_string(), value: JsonValue::Str(meta.guid.clone()) });
    out.push(Entry { key: "type".to_string(), value: JsonValue::Str(meta.typ.clone()) });
    out.push(Entry { key: "id".to_string(), value: JsonValue::Str(meta.id.clone()) });
    out.push(Entry { key: "source".to_string(), value: JsonValue::Str(meta.source.clone()) });
    out.push(Entry { key: "seq".to_string(), value: JsonValue::Num(meta.seq as i64) });
    out.push(Entry { key: "version".to_string(), value: JsonValue::Num(meta.version as i64) });
    out.push(Entry { key: "timestamp".to_string(), value: JsonValue::Num(meta.timestamp as i64) });
    let r = JsonValue::Obj(out);
    proof {
        let ev = entries_view(out@);
        let mv = meta_jv(meta@)->Obj_0;
        assert(ev[0] == mv[0]);
        assert(ev[1] == mv[1]);
        assert(ev[2] == mv[2]);
        assert(ev[3] == mv[3]);
        assert(ev[4] == mv[4]);
        assert(ev[5] == mv[5]);
        assert(ev[6] == mv[6]);
        assert(ev =~= mv);
    }
    r
}

/// The entry list after each of the first `n` entries of `payload` has been
/// bound in `base`, in order.
pub open spec fn spec_set_all(base: Seq<EntryV>, payload: Seq<EntryV>, n: int) -> Seq<EntryV>
    decreases n,
{
    if n <= 0 || n > payload.len() {
        base
    } else {
        let prev = spec_set_all(base, payload, n - 1);
        spec_obj_set(prev, payload[n - 1].key, payload[n - 1].value)
    }
}

/// A record's wire object: the envelope under the `$meta` key, the payload
/// fields flattened beside it at top level. A payload field named `$meta`
/// replaces the envelope entry, as flattening would have it.
pub open spec fn spec_record_object(meta: MetaV, payload: Seq<EntryV>) -> Seq<EntryV> {
    spec_set_all(
        seq![EntryV { key: "$meta"@, value: meta_jv(meta) }],
        payload,
        payload.len() as int,
    )
}

/// Build the wire object of a record from its envelope and payload.
#[verifier::loop_isolation(false)]
fn record_object(meta: &RecordMeta, payload: &Vec<Entry>) -> (r: Vec<Entry>)
    ensures
        entries_view(r@) == spec_record_object(meta@, entries_view(payload@)),
{
    let ghost pv = entries_view(payload@);
    let mut out: Vec<Entry> = Vec::new();
    out.push(Entry { key: "$meta".to_string(), value: meta_to_json(meta) });
    let ghost base = entries_view(out@);
    proof {
        assert(base =~= seq![EntryV { key: "$meta"@, value: meta_jv(meta@) }]);
    }
    let mut i: usize = 0;
    while i < payload.len()
        invariant
            i <= payload@.len(),
            entries_view(out@) == spec_set_all(base, pv, i as int),
        decreases payload@.len() - i,
    {
        let e = &payload[i];
        proof {
            assert(pv[i as int] == EntryV { key: e.key@, value: e.value.jv() });
        }
        obj_set(&mut out, e.key.clone(), deep_clone(&e.value));
        i += 1;
    }
    out
}

/// A string field of the envelope's JSON form.
pub open spec fn spec_meta_str(m: Seq<EntryV>, key: Seq<char>) -> Option<Seq<char>> {
    match spec_obj_get(m, key) {
        Some(JsonV::Str(s)) => Some(s),
        _ => None,
    }
}

/// A counter field of the envelope's JSON form: a number in `u32` range.
pub open spec fn spec_meta_num(m: Seq<EntryV>, key: Seq<char>) -> Option<u32> {
    match spec_obj_get(m, key) {
        Some(JsonV::Num(n)) => if 0 <= n <= u32::MAX {
            Some(n as u32)
        } else {
            None
        },
        _ => None,
    }
}

/// Parse an envelope from its JSON form: every field must be present with
/// its proper type.
pub open spec fn spec_meta_parse(j: JsonV) -> Option<MetaV> {
    match j {
        JsonV::Obj(m) => {
            if {
                &&& spec_meta_str(m, "guid"@) is Some
                &&& spec_meta_str(m, "type"@) is Some
                &&& spec_meta_str(m, "id"@) is Some
                &&& spec_meta_str(m, "source"@) is Some
                &&& spec_meta_num(m, "seq"@) is Some
                &&& spec_meta_num(m, "version"@) is Some
                &&& spec_meta_num(m, "timestamp"@) is Some
            } {
                Some(
                    MetaV {
                        guid: spec_meta_str(m, "guid"@)->Some_0,
                        typ: spec_meta_str(m, "type"@)->Some_0,
                        id: spec_meta_str(m, "id"@)->Some_0,
                        source: spec_meta_str(m, "source"@)->Some_0,
                        seq: spec_meta_num(m, "seq"@)->Some_0,
                        version: spec_meta_num(m, "version"@)->Some_0,
                        timestamp: spec_meta_num(m, "timestamp"@)->Some_0,
                    },
                )
            } else {
                None
            }
        },
        _ => None,
    }
}

/// Parse a record from the entries of its wire object: the envelope from
/// the `$meta` entry, the payload from everything else.
pub open spec fn spec_record_parse(entries: Seq<EntryV>) -> Option<URecV> {
    match spec_obj_get(entries, "$meta"@) {
        Some(mj) => match spec_meta_parse(mj) {
            Some(m) => Some(URecV { meta: m, value: spec_obj_remove(entries, "$meta"@) }),
            None => None,
        },
        None => None,
    }
}

/// Read one string field of the envelope.
fn meta_str_field(m: &Vec<Entry>, key: &String) -> (r: Option<String>)
    ensures
        (r matches Some(s) ==> spec_meta_str(entries_view(m@), key@) == Some(s@)),
        r is Some <==> spec_meta_str(entries_view(m@), key@) is Some,
{
    match obj_get(m, key) {
        Some(v) => match v {
            JsonValue::Str(s) => Some(s.clone()),
            _ => None,
        },
        None => None,
    }
}

/// Read one counter field of the envelope.
fn meta_num_field(m: &Vec<Entry>, key: &String) -> (r: Option<u32>)
    ensures
        (r matches Some(n) ==> spec_meta_num(entries_view(m@), key@) == Some(n)),
        r is Some <==> spec_meta_num(entries_view(m@), key@) is Some,
{
    match obj_get(m, key) {
        Some(v) => match v {
            JsonValue::Num(n) => if 0 <= *n && *n <= u32::MAX as i64 {
                Some(*n as u32)
            } else {
                None
            },
            _ => None,
        },
        None => None,
    }
}

/// Parse an envelope from its JSON form.
fn meta_from_json(j: &JsonValue) -> (r: Option<RecordMeta>)
    ensures
        (r matches Some(meta) ==> spec_meta_parse(j.jv()) == Some(meta@)),
        r is Some <==> spec_meta_parse(j.jv()) is Some,
{
    let m = match j {
        JsonValue::Obj(m) => m,
        _ => {
            return None;
        },
    };
    let guid = match meta_str_field(m, &"guid".to_string()) {
        Some(s) => s,
        None => {
            return None;
        },
    };
    let typ = match meta_str_field(m, &"type".to_string()) {
        Some(s) => s,
        None => {
            return None;
        },
    };
    let id = match meta_str_field(m, &"id".to_string()) {
        Some(s) => s,
        None => {
            return None;
        },
    };
    let source = match meta_str_field(m, &"source".to_string()) {
        Some(s) => s,
        None => {
            return None;
        },
    };
    let seq = match meta_num_field(m, &"seq".to_string()) {
        Some(n) => n,
        None => {
            return None;
        },
    };
    let version = match meta_num_field(m, &"version".to_string()) {
        Some(n) => n,
        None => {
            return None;
        },
    };
    let timestamp = match meta_num_field(m, &"timestamp".to_string()) {
        Some(n) => n,
        None => {
            return None;
        },
    };
    Some(RecordMeta { guid, typ, id, source, seq, version, timestamp })
}

/// The contract a domain payload type satisfies to be wrapped in a typed
/// record: a constant type name, a JSON form, and a parse of that form.
pub trait TypedValue: Sized {
    /// The type's unique name tag.
    spec fn spec_name() -> Seq<char>;

    /// The JSON form this value serializes to.
    spec fn spec_json(&self) -> JsonV;

    /// Which JSON values parse successfully as this type.
    spec fn parse_ok(j: JsonV) -> bool;

    /// The JSON form of the value that `j` parses to (meaningful only when
    /// `parse_ok(j)` holds): parsing may drop unknown fields, and this is
    /// the canonical form that survives.
    spec fn parsed_json(j: JsonV) -> JsonV;

    /// The type's unique name tag.
    fn name() -> (r: String)
        ensures
            r@ == Self::spec_name(),
    ;

    /// Serialize this value to JSON.
    fn to_json(&self) -> (r: JsonValue)
        ensures
            r.jv() == self.spec_json(),
    ;

    /// Parse a value of this type from JSON.
    fn from_json(v: &JsonValue) -> (r: Result<Self, DecodingError>)
        ensures
            r is Ok <==> Self::parse_ok(v.jv()),
            (r matches Ok(t) ==> t.spec_json() == Self::parsed_json(v.jv())),
            (r matches Err(e) ==> e == DecodingError::Deserialization),
    ;

    /// A value's own JSON form always parses, and parsing it is lossless.
    proof fn lemma_canonical(&self)
        ensures
            Self::parse_ok(self.spec_json()),
            Self::parsed_json(self.spec_json()) == self.spec_json(),
    ;

    /// A human-readable label for this value, when it has one.
    fn label(&self) -> (r: Option<&str>) {
        None
    }

    /// The guid for this type and an id: `{name}_{id}`.
    fn guid(id: &str) -> (r: String)
        ensures
            r@ == Self::spec_name() + "_"@ + id@,
    {
        let mut g = Self::name();
        g.append("_");
        g.append(id);
        g
    }
}

/// A record without static typing: the payload is a free-form JSON object.
#[derive(Debug, Clone, PartialEq)]
pub struct UntypedRecord {
    /// The metadata envelope.
    pub meta: RecordMeta,
    /// The payload object's entries.
    pub value: Vec<Entry>,
}

/// The mathematical model of an untyped record.
#[verifier::ext_equal]
pub struct URecV {
    pub meta: MetaV,
    pub value: Seq<EntryV>,
}

impl View for UntypedRecord {
    type V = URecV;

    open spec fn view(&self) -> URecV {
        URecV { meta: self.meta@, value: entries_view(self.value@) }
    }
}

impl UntypedRecord {
    /// Create an untyped record from type and id strings and a JSON value.
    ///
    /// Succeeds exactly when the value is an object; the envelope gets the
    /// given type and id and every other field defaults.
    pub fn with_typ_id_value(typ: &str, id: &str, value: JsonValue) -> (r: Result<
        Self,
        DecodingError,
    >)
        ensures
            (value.jv() matches JsonV::Obj(o) ==> r matches Ok(u) && u@ == URecV {
                meta: MetaV { typ: typ@, id: id@, ..RecordMeta::spec_default() },
                value: o,
            }),
            !(value.jv() is Obj) ==> (r matches Err(e) && e == DecodingError::NotAnObject),
    {
        match value {
            JsonValue::Obj(entries) => {
                let meta = RecordMeta {
                    typ: typ.to_string(),
                    id: id.to_string(),
                    ..Default::default()
                };
                Ok(UntypedRecord { meta, value: entries })
            },
            _ => Err(DecodingError::NotAnObject),
        }
    }

    /// Convert this untyped record into a typed record.
    ///
    /// Fails with a type mismatch when the envelope's type tag is not `T`'s
    /// name; otherwise parses the payload object as a `T`.
    pub fn into_typed_record<T: TypedValue>(self) -> (r: Result<TypedRecord<T>, DecodingError>)
        ensures
            self@.meta.typ != T::spec_name() ==> (r matches Err(
                DecodingError::TypeMismatch(expected, actual),
            ) && expected@ == T::spec_name() && actual@ == self@.meta.typ),
            self@.meta.typ == T::spec_name() ==> {
                &&& r is Ok <==> T::parse_ok(JsonV::Obj(self@.value))
                &&& (r matches Ok(t) ==> t.meta@ == self@.meta && t.value.spec_json()
                    == T::parsed_json(JsonV::Obj(self@.value)))
                &&& (r matches Err(e) ==> e == DecodingError::Deserialization)
            },
    {
        let name = T::name();
        if self.meta.typ == name {
            let payload = JsonValue::Obj(self.value);
            match T::from_json(&payload) {
                Ok(value) => Ok(TypedRecord { meta: self.meta, value }),
                Err(e) => Err(e),
            }
        } else {
            Err(DecodingError::TypeMismatch(name, self.meta.typ))
        }
    }

    /// Convert this record into its wire JSON object: the envelope under
    /// `$meta`, the payload fields flattened beside it.
    pub fn into_json_object(self) -> (r: Result<Vec<Entry>, EncodingError>)
        ensures
            r matches Ok(o) && entries_view(o@) == spec_record_object(self@.meta, self@.value),
    {
        Ok(record_object(&self.meta, &self.value))
    }

    /// Parse a record from its wire JSON object: the envelope is read from
    /// the `$meta` entry, every other top-level entry becomes payload.
    ///
    /// Fails with a shape error when the value is not an object, and with a
    /// decoding error when the envelope is missing, malformed or incomplete.
    pub fn from_json_object(value: JsonValue) -> (r: Result<Self, DecodingError>)
        ensures
            (value.jv() matches JsonV::Obj(entries) ==> {
                &&& r is Ok <==> spec_record_parse(entries) is Some
                &&& (r matches Ok(u) ==> Some(u@) == spec_record_parse(entries))
                &&& (r matches Err(e) ==> e == DecodingError::Deserialization)
            }),
            !(value.jv() is Obj) ==> (r matches Err(e) && e == DecodingError::NotAnObject),
    {
        let mut entries = match value {
            JsonValue::Obj(entries) => entries,
            _ => {
                return Err(DecodingError::NotAnObject);
            },
        };
        let meta = match obj_get(&entries, &"$meta".to_string()) {
            Some(mj) => match meta_from_json(mj) {
                Some(meta) => meta,
                None => {
                    return Err(DecodingError::Deserialization);
                },
            },
            None => {
                return Err(DecodingError::Deserialization);
            },
        };
        obj_remove(&mut entries, &"$meta".to_string());
        Ok(UntypedRecord { meta, value: entries })
    }

    /// The guid of the record.
    pub fn guid(&self) -> (r: &str)
        ensures
            r@ == self@.meta.guid,
    {
        self.meta.guid.as_str()
    }

    /// The id of the record.
    pub fn id(&self) -> (r: &str)
        ensures
            r@ == self@.meta.id,
    {
        self.meta.id.as_str()
    }

    /// The type tag of the record.
    pub fn typ(&self) -> (r: &str)
        ensures
            r@ == self@.meta.typ,
    {
        self.meta.typ.as_str()
    }

    /// Merge a JSON merge-patch into this record's payload, in place.
    ///
    /// An object patch always merges; any other patch would replace the
    /// payload with a non-object, so it is rejected and the record is left
    /// unchanged.
    pub fn merge_json_value(&mut self, patch: &JsonValue) -> (r: Result<(), EncodingError>)
        ensures
            (patch.jv() matches JsonV::Obj(pe) ==> r is Ok && final(self)@ == URecV {
                meta: old(self)@.meta,
                value: spec_merge_entries(old(self)@.value, pe),
            }),
            !(patch.jv() is Obj) ==> (r matches Err(e) && e == EncodingError::NotAnObject
                && *final(self) == *old(self)),
    {
        let is_obj = match patch {
            JsonValue::Obj(_) => true,
            _ => false,
        };
        if !is_obj {
            return Err(EncodingError::NotAnObject);
        }
        let mut taken: Vec<Entry> = Vec::new();
        core::mem::swap(&mut self.value, &mut taken);
        let merged = merge_value(JsonValue::Obj(taken), patch);
        match merged {
            JsonValue::Obj(entries) => {
                self.value = entries;
                Ok(())
            },
            _ => {
                proof {
                    assert(false);
                }
                Err(EncodingError::NotAnObject)
            },
        }
    }
}

/// A record with a strongly typed payload value.
#[derive(Debug, Clone, PartialEq)]
pub struct TypedRecord<T> {
    /// The metadata envelope.
    pub meta: RecordMeta,
    /// The typed payload.
    pub value: T,
}

impl<T: TypedValue> TypedRecord<T> {
    /// The guid of the record.
    pub fn guid(&self) -> (r: &str)
        ensures
            r@ == self.meta@.guid,
    {
        self.meta.guid.as_str()
    }

    /// The id of the record.
    pub fn id(&self) -> (r: &str)
        ensures
            r@ == self.meta@.id,
    {
        self.meta.id.as_str()
    }

    /// The type tag of the record.
    pub fn typ(&self) -> (r: &str)
        ensures
            r@ == self.meta@.typ,
    {
        self.meta.typ.as_str()
    }

    /// Create a record from an id and a value. The envelope is synthesized:
    /// the type tag is `T`'s name, the guid is `{type}_{id}`, and the
    /// remaining fields default.
    pub fn from_id_and_value(id: &str, value: T) -> (r: Self)
        ensures
            r.meta@ == (MetaV {
                guid: T::spec_name() + "_"@ + id@,
                typ: T::spec_name(),
                id: id@,
                ..RecordMeta::spec_default()
            }),
            r.value == value,
    {
        let guid = T::guid(id);
        let meta = RecordMeta {
            guid,
            typ: T::name(),
            id: id.to_string(),
            ..Default::default()
        };
        TypedRecord { meta, value }
    }

    /// Convert this record into an untyped record by serializing the
    /// payload. Fails only when the payload does not serialize to an
    /// object, which signals a bug in the payload type.
    pub fn into_untyped_record(self) -> (r: Result<UntypedRecord, EncodingError>)
        ensures
            (self.value.spec_json() matches JsonV::Obj(o) ==> r matches Ok(u) && u@ == URecV {
                meta: self.meta@,
                value: o,
            }),
            !(self.value.spec_json() is Obj) ==> (r matches Err(e) && e
                == EncodingError::NotAnObject),
    {
        let json = self.value.to_json();
        match json {
            JsonValue::Obj(entries) => Ok(UntypedRecord { meta: self.meta, value: entries }),
            _ => Err(EncodingError::NotAnObject),
        }
    }

    /// Convert this record into its wire JSON object: the envelope under
    /// `$meta`, the serialized payload's fields flattened beside it. Fails
    /// only when the payload does not serialize to an object.
    pub fn into_json_object(self) -> (r: Result<Vec<Entry>, EncodingError>)
        ensures
            (self.value.spec_json() matches JsonV::Obj(o) ==> r matches Ok(out) && entries_view(
                out@,
            ) == spec_record_object(self.meta@, o)),
            !(self.value.spec_json() is Obj) ==> (r matches Err(e) && e
                == EncodingError::NotAnObject),
    {
        let json = self.value.to_json();
        match json {
            JsonValue::Obj(entries) => Ok(record_object(&self.meta, &entries)),
            _ => Err(EncodingError::NotAnObject),
        }
    }
}

/// Parsing the JSON form of an envelope recovers the envelope exactly.
proof fn lemma_meta_parse_exact(m: MetaV)
    ensures
        spec_meta_parse(meta_jv(m)) == Some(m),
{
    reveal_strlit("guid");
    reveal_strlit("type");
    reveal_strlit("id");
    reveal_strlit("source");
    reveal_strlit("seq");
    reveal_strlit("version");
    reveal_strlit("timestamp");
    assert("guid"@.len() == 4 && "type"@.len() == 4 && "id"@.len() == 2 && "source"@.len() == 6
        && "seq"@.len() == 3 && "version"@.len() == 7 && "timestamp"@.len() == 9);
    assert("guid"@[0] == 'g' && "type"@[0] == 't');
    let s0 = meta_jv(m)->Obj_0;
    let s1 = s0.drop_first();
    let s2 = s1.drop_first();
    let s3 = s2.drop_first();
    let s4 = s3.drop_first();
    let s5 = s4.drop_first();
    let s6 = s5.drop_first();
    assert(s1 =~= s0.subrange(1, 7));
    assert(s2 =~= s0.subrange(2, 7));
    assert(s3 =~= s0.subrange(3, 7));
    assert(s4 =~= s0.subrange(4, 7));
    assert(s5 =~= s0.subrange(5, 7));
    assert(s6 =~= s0.subrange(6, 7));
    assert(spec_obj_get(s0, "guid"@) == Some(JsonV::Str(m.guid)));
    assert(spec_obj_get(s1, "type"@) == Some(JsonV::Str(m.typ)));
    assert(spec_obj_get(s0, "type"@) == Some(JsonV::Str(m.typ)));
    assert(spec_obj_get(s2, "id"@) == Some(JsonV::Str(m.id)));
    assert(spec_obj_get(s1, "id"@) == Some(JsonV::Str(m.id)));
    assert(spec_obj_get(s0, "id"@) == Some(JsonV::Str(m.id)));
    assert(spec_obj_get(s3, "source"@) == Some(JsonV::Str(m.source)));
    assert(spec_obj_get(s2, "source"@) == Some(JsonV::Str(m.source)));
    assert(spec_obj_get(s1, "source"@) == Some(JsonV::Str(m.source)));
    assert(spec_obj_get(s0, "source"@) == Some(JsonV::Str(m.source)));
    assert(spec_obj_get(s4, "seq"@) == Some(JsonV::Num(m.seq as int)));
    assert(spec_obj_get(s3, "seq"@) == Some(JsonV::Num(m.seq as int)));
    assert(spec_obj_get(s2, "seq"@) == Some(JsonV::Num(m.seq as int)));
    assert(spec_obj_get(s1, "seq"@) == Some(JsonV::Num(m.seq as int)));
    assert(spec_obj_get(s0, "seq"@) == Some(JsonV::Num(m.seq as int)));
    assert(spec_obj_get(s5, "version"@) == Some(JsonV::Num(m.version as int)));
    assert(spec_obj_get(s4, "version"@) == Some(JsonV::Num(m.version as int)));
    assert(spec_obj_get(s3, "version"@) == Some(JsonV::Num(m.version as int)));
    assert(spec_obj_get(s2, "version"@) == Some(JsonV::Num(m.version as int)));
    assert(spec_obj_get(s1, "version"@) == Some(JsonV::Num(m.version as int)));
    assert(spec_obj_get(s0, "version"@) == Some(JsonV::Num(m.version as int)));
    assert(spec_obj_get(s6, "timestamp"@) == Some(JsonV::Num(m.timestamp as int)));
    assert(spec_obj_get(s5, "timestamp"@) == Some(JsonV::Num(m.timestamp as int)));
    assert(spec_obj_get(s4, "timestamp"@) == Some(JsonV::Num(m.timestamp as int)));
    assert(spec_obj_get(s3, "timestamp"@) == Some(JsonV::Num(m.timestamp as int)));
    assert(spec_obj_get(s2, "timestamp"@) == Some(JsonV::Num(m.timestamp as int)));
    assert(spec_obj_get(s1, "timestamp"@) == Some(JsonV::Num(m.timestamp as int)));
    assert(spec_obj_get(s0, "timestamp"@) == Some(JsonV::Num(m.timestamp as int)));
    assert(spec_meta_parse(meta_jv(m))->Some_0 =~= m);
}

/// Binding pairwise-distinct fresh keys one after the other appends their
/// entries in order.
proof fn lemma_set_all_appends(base: Seq<EntryV>, payload: Seq<EntryV>, n: int)
    requires
        0 <= n <= payload.len(),
        distinct_keys(payload),
        forall|i: int, j: int|
            0 <= i < base.len() && 0 <= j < payload.len() ==> base[i].key != payload[j].key,
    ensures
        spec_set_all(base, payload, n) =~= base + payload.take(n),
    decreases n,
{
    if n <= 0 {
        assert(base + payload.take(0) =~= base);
    } else {
        lemma_set_all_appends(base, payload, n - 1);
        let prev = spec_set_all(base, payload, n - 1);
        let e = payload[n - 1];
        assert forall|i: int| 0 <= i < prev.len() implies prev[i].key != e.key by {
            assert(prev =~= base + payload.take(n - 1));
            if i < base.len() {
                assert(prev[i] == base[i]);
            } else {
                assert(prev[i] == payload[i - base.len()]);
            }
        }
        lemma_get_none_when_no_key(prev, e.key);
        lemma_set_absent_appends(prev, e.key, e.value);
        assert((base + payload.take(n - 1)) + seq![e] =~= base + payload.take(n));
    }
}

/// Law: the wire form is lossless. A record's wire object — the envelope
/// under `$meta`, the payload flattened beside it — parses back to exactly
/// the same record, whenever the payload carries no `$meta` entry and no
/// duplicate keys.
pub proof fn lemma_wire_round_trip(meta: MetaV, payload: Seq<EntryV>)
    requires
        distinct_keys(payload),
        forall|i: int| 0 <= i < payload.len() ==> payload[i].key != "$meta"@,
    ensures
        spec_record_parse(spec_record_object(meta, payload)) == Some(
            URecV { meta, value: payload },
        ),
{
    let me = EntryV { key: "$meta"@, value: meta_jv(meta) };
    let base = seq![me];
    lemma_set_all_appends(base, payload, payload.len() as int);
    let wire = spec_record_object(meta, payload);
    assert(wire =~= base + payload);
    assert(wire[0] == me);
    assert(spec_obj_get(wire, "$meta"@) == Some(meta_jv(meta)));
    lemma_meta_parse_exact(meta);
    assert(wire.drop_first() =~= payload);
    lemma_get_none_when_no_key(payload, "$meta"@);
    lemma_remove_absent_noop(payload, "$meta"@);
    assert(spec_obj_remove(wire, "$meta"@) =~= payload);
    assert(spec_record_parse(wire)->Some_0 =~= URecV { meta, value: payload });
}

/// The downgrade relation: `u` is what serializing `r` yields — the
/// payload's JSON object under the same envelope.
pub open spec fn downgrades_to<T: TypedValue>(r: TypedRecord<T>, u: UntypedRecord) -> bool {
    r.value.spec_json() == JsonV::Obj(u@.value) && u@.meta == r.meta@
}

/// The upgrade relation: `r` is what parsing `u` yields — the type tag
/// matches, the payload parses, and the envelope is carried over.
pub open spec fn upgrades_to<T: TypedValue>(u: UntypedRecord, r: TypedRecord<T>) -> bool {
    &&& u@.meta.typ == T::spec_name()
    &&& T::parse_ok(JsonV::Obj(u@.value))
    &&& r.meta@ == u@.meta
    &&& r.value.spec_json() == T::parsed_json(JsonV::Obj(u@.value))
}

/// Law: round-tripping is idempotent and lossless. For any well-formed
/// typed record, downgrading it, upgrading the result, and downgrading
/// again yields the same untyped record as the first downgrade — every
/// field of the envelope and of the payload object survives.
pub proof fn lemma_round_trip<T: TypedValue>(
    r1: TypedRecord<T>,
    d1: UntypedRecord,
    r2: TypedRecord<T>,
    d2: UntypedRecord,
)
    requires
        downgrades_to(r1, d1),
        upgrades_to(d1, r2),
        downgrades_to(r2, d2),
    ensures
        d2@ == d1@,
{
    r1.value.lemma_canonical();
    assert(r2.value.spec_json() == r1.value.spec_json());
    assert(JsonV::Obj(d2@.value) == JsonV::Obj(d1@.value));
    assert(d2@ =~= d1@);
}

} // verus!
