//! The known domain payload types, and the dispatch that upgrades an
//! untyped record against them by its type tag.
//!
//! Each type serializes to a JSON object and parses back from one; parsing
//! accepts a missing or null optional field as absent and ignores unknown
//! fields. `Post` embeds references to media records and so also implements
//! the resolution capability.

use vstd::prelude::*;

use crate::json::{entries_view, obj_get, spec_obj_get, Entry, EntryV, JsonV, JsonValue};
use crate::record::{DecodingError, TypedRecord, TypedValue, UntypedRecord};
use crate::resolve::{
    loaded_records_prefix, pending_ids, MissingRefsError, Reference, Resolvable, Resolver,
};

verus! {

broadcast use vstd::std_specs::vec::group_vec_axioms, vstd::string::group_string_axioms;

/// A media item: an audio or video asset with an optional title.
#[derive(Debug, Clone, PartialEq)]
pub struct Media {
    /// The item's title, when known.
    pub title: Option<String>,
}

impl TypedValue for Media {
    open spec fn spec_name() -> Seq<char> {
        "media"@
    }

    open spec fn spec_json(&self) -> JsonV {
        JsonV::Obj(
            match self.title {
                Some(t) => seq![EntryV { key: "title"@, value: JsonV::Str(t@) }],
                None => Seq::empty(),
            },
        )
    }

    open spec fn parse_ok(j: JsonV) -> bool {
        match j {
            JsonV::Obj(entries) => match spec_obj_get(entries, "title"@) {
                None => true,
                Some(JsonV::Str(_)) => true,
                Some(JsonV::Null) => true,
                Some(_) => false,
            },
            _ => false,
        }
    }

    open spec fn parsed_json(j: JsonV) -> JsonV {
        match j {
            JsonV::Obj(entries) => JsonV::Obj(
                match spec_obj_get(entries, "title"@) {
                    Some(JsonV::Str(t)) => seq![EntryV { key: "title"@, value: JsonV::Str(t) }],
                    _ => Seq::empty(),
                },
            ),
            _ => j,
        }
    }

    fn name() -> (r: String) {
        "media".to_string()
    }

    fn to_json(&self) -> (r: JsonValue) {
        let mut entries: Vec<Entry> = Vec::new();
        match &self.title {
            Some(t) => {
                entries.push(Entry { key: "title".to_string(), value: JsonValue::Str(t.clone()) });
            },
            None => {},
        }
        let r = JsonValue::Obj(entries);
        proof {
            assert(entries_view(entries@) =~= self.spec_json()->Obj_0);
        }
        r
    }

    fn from_json(v: &JsonValue) -> (r: Result<Self, DecodingError>) {
        match v {
            JsonValue::Obj(entries) => {
                match obj_get(entries, &"title".to_string()) {
                    None => {
                        let m = Media { title: None };
                        proof {
                            assert(m.spec_json() =~~= Self::parsed_json(v.jv()));
                        }
                        Ok(m)
                    },
                    Some(t) => match t {
                        JsonValue::Str(s) => {
                            let m = Media { title: Some(s.clone()) };
                            proof {
                                assert(m.spec_json() =~~= Self::parsed_json(v.jv()));
                            }
                            Ok(m)
                        },
                        JsonValue::Null => {
                            let m = Media { title: None };
                            proof {
                                assert(m.spec_json() =~~= Self::parsed_json(v.jv()));
                            }
                            Ok(m)
                        },
                        _ => Err(DecodingError::Deserialization),
                    },
                }
            },
            _ => Err(DecodingError::Deserialization),
        }
    }

    proof fn lemma_canonical(&self) {
        match self.title {
            Some(t) => {
                let entries = seq![EntryV { key: "title"@, value: JsonV::Str(t@) }];
                assert(spec_obj_get(entries, "title"@) == Some(JsonV::Str(t@)));
                assert(Self::parsed_json(self.spec_json()) =~~= self.spec_json());
            },
            None => {
                assert(spec_obj_get(Seq::<EntryV>::empty(), "title"@) is None);
                assert(Self::parsed_json(self.spec_json()) =~~= self.spec_json());
            },
        }
    }
}

/// A feed: a subscription source with an optional url.
#[derive(Debug, Clone, PartialEq)]
pub struct Feed {
    /// The feed's url, when known.
    pub url: Option<String>,
}

impl TypedValue for Feed {
    open spec fn spec_name() -> Seq<char> {
        "feed"@
    }

    open spec fn spec_json(&self) -> JsonV {
        JsonV::Obj(
            match self.url {
                Some(u) => seq![EntryV { key: "url"@, value: JsonV::Str(u@) }],
                None => Seq::empty(),
            },
        )
    }

    open spec fn parse_ok(j: JsonV) -> bool {
        match j {
            JsonV::Obj(entries) => match spec_obj_get(entries, "url"@) {
                None => true,
                Some(JsonV::Str(_)) => true,
                Some(JsonV::Null) => true,
                Some(_) => false,
            },
            _ => false,
        }
    }

    open spec fn parsed_json(j: JsonV) -> JsonV {
        match j {
            JsonV::Obj(entries) => JsonV::Obj(
                match spec_obj_get(entries, "url"@) {
                    Some(JsonV::Str(u)) => seq![EntryV { key: "url"@, value: JsonV::Str(u) }],
                    _ => Seq::empty(),
                },
            ),
            _ => j,
        }
    }

    fn name() -> (r: String) {
        "feed".to_string()
    }

    fn to_json(&self) -> (r: JsonValue) {
        let mut entries: Vec<Entry> = Vec::new();
        match &self.url {
            Some(u) => {
                entries.push(Entry { key: "url".to_string(), value: JsonValue::Str(u.clone()) });
            },
            None => {},
        }
        let r = JsonValue::Obj(entries);
        proof {
            assert(entries_view(entries@) =~= self.spec_json()->Obj_0);
        }
        r
    }

    fn from_json(v: &JsonValue) -> (r: Result<Self, DecodingError>) {
        match v {
            JsonValue::Obj(entries) => {
                match obj_get(entries, &"url".to_string()) {
                    None => {
                        let f = Feed { url: None };
                        proof {
                            assert(f.spec_json() =~~= Self::parsed_json(v.jv()));
                        }
                        Ok(f)
                    },
                    Some(t) => match t {
                        JsonValue::Str(s) => {
                            let f = Feed { url: Some(s.clone()) };
                            proof {
                                assert(f.spec_json() =~~= Self::parsed_json(v.jv()));
                            }
                            Ok(f)
                        },
                        JsonValue::Null => {
                            let f = Feed { url: None };
                            proof {
                                assert(f.spec_json() =~~= Self::parsed_json(v.jv()));
                            }
                            Ok(f)
                        },
                        _ => Err(DecodingError::Deserialization),
                    },
                }
            },
            _ => Err(DecodingError::Deserialization),
        }
    }

    proof fn lemma_canonical(&self) {
        match self.url {
            Some(u) => {
                let entries = seq![EntryV { key: "url"@, value: JsonV::Str(u@) }];
                assert(spec_obj_get(entries, "url"@) == Some(JsonV::Str(u@)));
                assert(Self::parsed_json(self.spec_json()) =~~= self.spec_json());
            },
            None => {
                assert(spec_obj_get(Seq::<EntryV>::empty(), "url"@) is None);
                assert(Self::parsed_json(self.spec_json()) =~~= self.spec_json());
            },
        }
    }
}

/// The JSON array of a reference list: one id string per reference.
pub open spec fn refs_jv(refs: Seq<Reference>) -> Seq<JsonV> {
    Seq::new(
        refs.len(),
        |i: int|
            if 0 <= i < refs.len() {
                JsonV::Str(refs[i].spec_id())
            } else {
                JsonV::Null
            },
    )
}

/// Every element of a JSON array is a string.
pub open spec fn all_strings(a: Seq<JsonV>) -> bool {
    forall|i: int| 0 <= i < a.len() ==> a[i] is Str
}

/// The media array of a post's JSON object: the value under the `media`
/// key when it is an array, empty when the key is absent.
pub open spec fn post_media_arr(entries: Seq<EntryV>) -> Seq<JsonV> {
    match spec_obj_get(entries, "media"@) {
        Some(JsonV::Arr(a)) => a,
        _ => Seq::empty(),
    }
}

/// The title entries of a post's JSON object: one entry when a string
/// title is present, none otherwise.
pub open spec fn post_title_part(entries: Seq<EntryV>) -> Seq<EntryV> {
    match spec_obj_get(entries, "title"@) {
        Some(JsonV::Str(t)) => seq![EntryV { key: "title"@, value: JsonV::Str(t) }],
        _ => Seq::empty(),
    }
}

/// A post: an editorial item with an optional title and a list of
/// references to the media records it embeds.
#[derive(Debug, Clone, PartialEq)]
pub struct Post {
    /// The post's title, when known.
    pub title: Option<String>,
    /// References to the post's media records. On the wire each reference
    /// is its id string; in memory a reference may hold a resolved record.
    pub media: Vec<Reference>,
}

impl TypedValue for Post {
    open spec fn spec_name() -> Seq<char> {
        "post"@
    }

    open spec fn spec_json(&self) -> JsonV {
        JsonV::Obj(
            (match self.title {
                Some(t) => seq![EntryV { key: "title"@, value: JsonV::Str(t@) }],
                None => Seq::empty(),
            }) + seq![EntryV { key: "media"@, value: JsonV::Arr(refs_jv(self.media@)) }],
        )
    }

    open spec fn parse_ok(j: JsonV) -> bool {
        match j {
            JsonV::Obj(entries) => {
                &&& match spec_obj_get(entries, "title"@) {
                    None => true,
                    Some(JsonV::Str(_)) => true,
                    Some(JsonV::Null) => true,
                    Some(_) => false,
                }
                &&& match spec_obj_get(entries, "media"@) {
                    None => true,
                    Some(JsonV::Arr(a)) => all_strings(a),
                    Some(_) => false,
                }
            },
            _ => false,
        }
    }

    open spec fn parsed_json(j: JsonV) -> JsonV {
        match j {
            JsonV::Obj(entries) => JsonV::Obj(
                post_title_part(entries) + seq![
                    EntryV { key: "media"@, value: JsonV::Arr(post_media_arr(entries)) },
                ],
            ),
            _ => j,
        }
    }

    fn name() -> (r: String) {
        "post".to_string()
    }

    #[verifier::loop_isolation(false)]
    fn to_json(&self) -> (r: JsonValue) {
        let mut entries: Vec<Entry> = Vec::new();
        match &self.title {
            Some(t) => {
                entries.push(Entry { key: "title".to_string(), value: JsonValue::Str(t.clone()) });
            },
            None => {},
        }
        let mut arr: Vec<JsonValue> = Vec::new();
        let mut i: usize = 0;
        while i < self.media.len()
            invariant
                i <= self.media@.len(),
                arr@.len() == i,
                forall|j: int| 0 <= j < i ==> arr@[j].jv() == JsonV::Str(self.media@[j].spec_id()),
            decreases self.media@.len() - i,
        {
            match &self.media[i] {
                Reference::Id(s) => {
                    arr.push(JsonValue::Str(s.clone()));
                },
                Reference::Resolved(rec) => {
                    arr.push(JsonValue::Str(rec.meta.id.clone()));
                },
            }
            i += 1;
        }
        let media_value = JsonValue::Arr(arr);
        proof {
            assert(media_value.jv() matches JsonV::Arr(a) && a =~= refs_jv(self.media@));
        }
        entries.push(Entry { key: "media".to_string(), value: media_value });
        let r = JsonValue::Obj(entries);
        proof {
            assert(entries_view(entries@) =~= self.spec_json()->Obj_0);
        }
        r
    }

    #[verifier::loop_isolation(false)]
    fn from_json(v: &JsonValue) -> (r: Result<Self, DecodingError>) {
        match v {
            JsonValue::Obj(entries) => {
                let title: Option<String> = match obj_get(entries, &"title".to_string()) {
                    None => None,
                    Some(t) => match t {
                        JsonValue::Str(s) => Some(s.clone()),
                        JsonValue::Null => None,
                        _ => {
                            return Err(DecodingError::Deserialization);
                        },
                    },
                };
                let media: Vec<Reference> = match obj_get(entries, &"media".to_string()) {
                    None => Vec::new(),
                    Some(m) => match m {
                        JsonValue::Arr(items) => {
                            let ghost a = m.jv()->Arr_0;
                            let mut out: Vec<Reference> = Vec::new();
                            let mut i: usize = 0;
                            while i < items.len()
                                invariant
                                    i <= items@.len(),
                                    out@.len() == i,
                                    forall|j: int|
                                        0 <= j < i ==> (a[j] is Str && out@[j] is Id
                                            && out@[j].spec_id() == a[j]->Str_0),
                                decreases items@.len() - i,
                            {
                                proof {
                                    assert(a[i as int] == items@[i as int].jv());
                                }
                                match &items[i] {
                                    JsonValue::Str(s) => {
                                        out.push(Reference::Id(s.clone()));
                                    },
                                    _ => {
                                        proof {
                                            assert(!(a[i as int] is Str));
                                        }
                                        return Err(DecodingError::Deserialization);
                                    },
                                }
                                i += 1;
                            }
                            out
                        },
                        _ => {
                            return Err(DecodingError::Deserialization);
                        },
                    },
                };
                let p = Post { title, media };
                proof {
                    let entries_v = v.jv()->Obj_0;
                    assert(refs_jv(p.media@) =~= post_media_arr(entries_v));
                    assert(p.spec_json()->Obj_0 =~= Self::parsed_json(v.jv())->Obj_0);
                    assert(p.spec_json() == Self::parsed_json(v.jv()));
                }
                Ok(p)
            },
            _ => Err(DecodingError::Deserialization),
        }
    }

    proof fn lemma_canonical(&self) {
        let ov = self.spec_json()->Obj_0;
        reveal_strlit("title");
        reveal_strlit("media");
        match self.title {
            Some(t) => {
                assert(ov[0] == EntryV { key: "title"@, value: JsonV::Str(t@) });
                assert(ov[1] == EntryV { key: "media"@, value: JsonV::Arr(refs_jv(self.media@)) });
                assert("title"@ != "media"@) by {
                    assert("title"@[0] == 't' && "media"@[0] == 'm');
                }
                assert(spec_obj_get(ov, "title"@) == Some(JsonV::Str(t@)));
                assert(ov.drop_first() =~= seq![
                    EntryV { key: "media"@, value: JsonV::Arr(refs_jv(self.media@)) },
                ]);
                assert(spec_obj_get(ov.drop_first(), "media"@) == Some(
                    JsonV::Arr(refs_jv(self.media@)),
                ));
                assert(spec_obj_get(ov, "media"@) == Some(JsonV::Arr(refs_jv(self.media@))));
                assert(all_strings(refs_jv(self.media@)));
                assert(Self::parsed_json(self.spec_json()) =~~= self.spec_json());
            },
            None => {
                assert(ov[0] == EntryV { key: "media"@, value: JsonV::Arr(refs_jv(self.media@)) });
                assert("media"@ != "title"@) by {
                    assert("title"@[0] == 't' && "media"@[0] == 'm');
                }
                assert(spec_obj_get(ov, "media"@) == Some(JsonV::Arr(refs_jv(self.media@))));
                assert(ov.drop_first() =~= Seq::<EntryV>::empty());
                assert(spec_obj_get(ov.drop_first(), "title"@) is None);
                assert(spec_obj_get(ov, "title"@) is None);
                assert(all_strings(refs_jv(self.media@)));
                assert(Self::parsed_json(self.spec_json()) =~~= self.spec_json());
            },
        }
    }
}

impl Resolvable for Post {
    open spec fn refs(&self) -> Seq<Reference> {
        self.media@
    }

    #[verifier::loop_isolation(false)]
    fn resolve_refs<R: Resolver>(&mut self, resolver: &R) -> (r: Result<(), MissingRefsError>) {
        let mut missing: Vec<String> = Vec::new();
        let mut i: usize = 0;
        while i < self.media.len()
            invariant
                i <= self.media@.len(),
                self.media@.len() == old(self).media@.len(),
                forall|j: int| i <= j < self.media@.len() ==> self.media@[j] == old(self).media@[j],
                forall|j: int|
                    0 <= j < i ==> (self.media@[j] == old(self).media@[j] || (old(self).media@[j]
                        is Id && self.media@[j] is Resolved)),
                missing@.map_values(|s: String| s@) =~= pending_ids(self.media@.take(i as int)),
            decreases self.media@.len() - i,
        {
            let ghost pre = self.media@;
            let id_opt: Option<String> = match &self.media[i] {
                Reference::Id(s) => Some(s.clone()),
                Reference::Resolved(_) => None,
            };
            match id_opt {
                Some(id) => {
                    match resolver.lookup(id.as_str()) {
                        Some(rec) => {
                            let _ = self.media.remove(i);
                            self.media.insert(i, Reference::Resolved(rec));
                            proof {
                                assert(self.media@ =~= pre.update(i as int, self.media@[i as int]));
                            }
                        },
                        None => {
                            missing.push(id);
                        },
                    }
                },
                None => {},
            }
            proof {
                assert(self.media@.take(i as int) =~= pre.take(i as int));
                assert(self.media@.take(i as int + 1).drop_last() =~= self.media@.take(i as int));
                assert(missing@.map_values(|s: String| s@) =~= pending_ids(
                    self.media@.take(i as int + 1),
                ));
            }
            i += 1;
        }
        proof {
            assert(self.media@.take(self.media@.len() as int) =~= self.media@);
        }
        if missing.len() == 0 {
            proof {
                assert(pending_ids(self.media@) =~= Seq::<Seq<char>>::empty());
            }
            Ok(())
        } else {
            Err(MissingRefsError { missing })
        }
    }

    #[verifier::loop_isolation(false)]
    fn extract_refs(&mut self) -> (r: Vec<UntypedRecord>) {
        let mut out: Vec<UntypedRecord> = Vec::new();
        let mut i: usize = 0;
        while i < self.media.len()
            invariant
                i <= self.media@.len(),
                self.media@.len() == old(self).media@.len(),
                forall|j: int| i <= j < self.media@.len() ==> self.media@[j] == old(self).media@[j],
                forall|j: int|
                    0 <= j < i ==> (self.media@[j] is Id && self.media@[j].spec_id() == old(
                        self,
                    ).media@[j].spec_id()),
                out@ =~= loaded_records_prefix(old(self).media@, i as int),
            decreases self.media@.len() - i,
        {
            let ghost pre = self.media@;
            let slot = self.media.remove(i);
            match slot {
                Reference::Resolved(rec) => {
                    let id = rec.meta.id.clone();
                    self.media.insert(i, Reference::Id(id));
                    out.push(rec);
                },
                Reference::Id(s) => {
                    self.media.insert(i, Reference::Id(s));
                },
            }
            proof {
                let o = old(self).media@;
                assert(self.media@ =~= pre.update(i as int, self.media@[i as int]));
                assert(o.take(i as int + 1).drop_last() =~= o.take(i as int));
                assert(o.take(i as int + 1).last() == o[i as int]);
                assert(out@ =~= loaded_records_prefix(o, i as int + 1));
            }
            i += 1;
        }
        proof {
            assert(old(self).media@.take(old(self).media@.len() as int) =~= old(self).media@);
        }
        out
    }
}

/// A typed record of one of the known domain types: the closed sum the
/// posting endpoint dispatches into.
#[derive(Debug, Clone, PartialEq)]
pub enum AnyRecord {
    Media(TypedRecord<Media>),
    Feed(TypedRecord<Feed>),
    Post(TypedRecord<Post>),
}

/// An error of the type-tag dispatch.
#[derive(Debug, Clone, PartialEq)]
pub enum DispatchError {
    /// The record's type tag names no known domain type.
    UnknownType(String),
    /// The tag matched but the payload did not decode.
    Decoding(DecodingError),
}

/// Whether a type tag names a known domain type.
pub open spec fn spec_known_type(t: Seq<char>) -> bool {
    t == "media"@ || t == "feed"@ || t == "post"@
}

/// Upgrade an untyped record by dispatching on its type tag against the
/// known domain types; an unknown tag is rejected.
pub fn upgrade_known(record: UntypedRecord) -> (r: Result<AnyRecord, DispatchError>)
    ensures
        !spec_known_type(record@.meta.typ) ==> (r matches Err(DispatchError::UnknownType(t))
            && t@ == record@.meta.typ),
        record@.meta.typ == "media"@ ==> {
            &&& (r is Ok <==> Media::parse_ok(JsonV::Obj(record@.value)))
            &&& (r matches Ok(a) ==> a matches AnyRecord::Media(t) && t.meta@ == record@.meta
                && t.value.spec_json() == Media::parsed_json(JsonV::Obj(record@.value)))
            &&& (r matches Err(e) ==> e == DispatchError::Decoding(DecodingError::Deserialization))
        },
        record@.meta.typ == "feed"@ ==> {
            &&& (r is Ok <==> Feed::parse_ok(JsonV::Obj(record@.value)))
            &&& (r matches Ok(a) ==> a matches AnyRecord::Feed(t) && t.meta@ == record@.meta
                && t.value.spec_json() == Feed::parsed_json(JsonV::Obj(record@.value)))
            &&& (r matches Err(e) ==> e == DispatchError::Decoding(DecodingError::Deserialization))
        },
        record@.meta.typ == "post"@ ==> {
            &&& (r is Ok <==> Post::parse_ok(JsonV::Obj(record@.value)))
            &&& (r matches Ok(a) ==> a matches AnyRecord::Post(t) && t.meta@ == record@.meta
                && t.value.spec_json() == Post::parsed_json(JsonV::Obj(record@.value)))
            &&& (r matches Err(e) ==> e == DispatchError::Decoding(DecodingError::Deserialization))
        },
{
    proof {
        reveal_strlit("media");
        reveal_strlit("feed");
        reveal_strlit("post");
        assert("media"@.len() == 5 && "feed"@.len() == 4 && "post"@.len() == 4);
        assert("feed"@[0] == 'f' && "post"@[0] == 'p');
        assert("feed"@ != "post"@ && "media"@ != "feed"@ && "media"@ != "post"@);
    }
    if record.meta.typ == Media::name() {
        match record.into_typed_record::<Media>() {
            Ok(t) => Ok(AnyRecord::Media(t)),
            Err(e) => Err(DispatchError::Decoding(e)),
        }
    } else if record.meta.typ == Feed::name() {
        match record.into_typed_record::<Feed>() {
            Ok(t) => Ok(AnyRecord::Feed(t)),
            Err(e) => Err(DispatchError::Decoding(e)),
        }
    } else if record.meta.typ == Post::name() {
        match record.into_typed_record::<Post>() {
            Ok(t) => Ok(AnyRecord::Post(t)),
            Err(e) => Err(DispatchError::Decoding(e)),
        }
    } else {
        Err(DispatchError::UnknownType(record.meta.typ))
    }
}

} // verus!
