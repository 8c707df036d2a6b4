//! The JSON data model that record payloads are made of.
//!
//! A value is one of: null, a boolean, an integer number, a string, an array,
//! or an object. An object is an ordered association list of key/value
//! entries; lookups take the first entry with a matching key, so in the
//! degenerate case of duplicate keys the earliest entry wins.

use vstd::prelude::*;

verus! {

broadcast use vstd::std_specs::vec::group_vec_axioms;

/// An executable JSON value.
#[derive(Debug, PartialEq)]
pub enum JsonValue {
    Null,
    Bool(bool),
    Num(i64),
    Str(String),
    Arr(Vec<JsonValue>),
    Obj(Vec<Entry>),
}

/// One key/value entry of a JSON object.
#[derive(Debug, PartialEq)]
pub struct Entry {
    pub key: String,
    pub value: JsonValue,
}

/// The mathematical model of a JSON value.
#[verifier::ext_equal]
pub enum JsonV {
    Null,
    Bool(bool),
    Num(int),
    Str(Seq<char>),
    Arr(Seq<JsonV>),
    Obj(Seq<EntryV>),
}

/// The mathematical model of one object entry.
#[verifier::ext_equal]
pub struct EntryV {
    pub key: Seq<char>,
    pub value: JsonV,
}

impl JsonValue {
    /// The model of this value.
    pub open spec fn jv(self) -> JsonV
        decreases self,
    {
        match self {
            JsonValue::Null => JsonV::Null,
            JsonValue::Bool(b) => JsonV::Bool(b),
            JsonValue::Num(n) => JsonV::Num(n as int),
            JsonValue::Str(s) => JsonV::Str(s@),
            JsonValue::Arr(items) => JsonV::Arr(
                Seq::new(
                    items@.len(),
                    |i: int|
                        if 0 <= i < items@.len() {
                            items@[i].jv()
                        } else {
                            JsonV::Null
                        },
                ),
            ),
            JsonValue::Obj(entries) => JsonV::Obj(entries_view(entries@)),
        }
    }
}

/// The model of an object's entry list.
pub open spec fn entries_view(entries: Seq<Entry>) -> Seq<EntryV>
    decreases entries,
{
    Seq::new(
        entries.len(),
        |i: int|
            if 0 <= i < entries.len() {
                EntryV { key: entries[i].key@, value: entries[i].value.jv() }
            } else {
                EntryV { key: Seq::empty(), value: JsonV::Null }
            },
    )
}

impl View for JsonValue {
    type V = JsonV;

    open spec fn view(&self) -> JsonV {
        self.jv()
    }
}

impl View for Entry {
    type V = EntryV;

    open spec fn view(&self) -> EntryV {
        EntryV { key: self.key@, value: self.value.jv() }
    }
}

/// Look up `key` in an entry list: the first entry with that key wins.
pub open spec fn spec_obj_get(s: Seq<EntryV>, key: Seq<char>) -> Option<JsonV>
    decreases s.len(),
{
    if s.len() == 0 {
        None
    } else if s[0].key == key {
        Some(s[0].value)
    } else {
        spec_obj_get(s.drop_first(), key)
    }
}

/// Remove every entry whose key is `key`, keeping the order of the rest.
pub open spec fn spec_obj_remove(s: Seq<EntryV>, key: Seq<char>) -> Seq<EntryV>
    decreases s.len(),
{
    if s.len() == 0 {
        Seq::empty()
    } else if s[0].key == key {
        spec_obj_remove(s.drop_first(), key)
    } else {
        seq![s[0]] + spec_obj_remove(s.drop_first(), key)
    }
}

/// Bind `key` to `value`: the first entry with that key is replaced in
/// place; if there is none, the new entry is appended at the end.
pub open spec fn spec_obj_set(s: Seq<EntryV>, key: Seq<char>, value: JsonV) -> Seq<EntryV>
    decreases s.len(),
{
    if s.len() == 0 {
        seq![EntryV { key, value }]
    } else if s[0].key == key {
        seq![EntryV { key, value }] + s.drop_first()
    } else {
        seq![s[0]] + spec_obj_set(s.drop_first(), key, value)
    }
}

/// The value bound to `key`, or null when the key is absent.
pub open spec fn spec_obj_get_or_null(s: Seq<EntryV>, key: Seq<char>) -> JsonV {
    match spec_obj_get(s, key) {
        Some(v) => v,
        None => JsonV::Null,
    }
}

/// RFC 7386 merge-patch: an object patch is applied key by key (null
/// deletes, objects merge recursively, anything else replaces); a non-object
/// patch replaces the target wholesale.
pub open spec fn spec_merge(target: JsonV, patch: JsonV) -> JsonV
    decreases patch, 0int,
{
    match patch {
        JsonV::Obj(pe) => {
            let base = match target {
                JsonV::Obj(te) => te,
                _ => Seq::empty(),
            };
            JsonV::Obj(spec_merge_upto(base, pe, pe.len() as int))
        },
        _ => patch,
    }
}

/// The entry list after the first `n` patch entries have been applied.
pub open spec fn spec_merge_upto(base: Seq<EntryV>, patches: Seq<EntryV>, n: int) -> Seq<EntryV>
    decreases patches, n,
{
    if n <= 0 || n > patches.len() {
        base
    } else {
        let prev = spec_merge_upto(base, patches, n - 1);
        let e = patches[n - 1];
        if e.value is Null {
            spec_obj_remove(prev, e.key)
        } else {
            spec_obj_set(prev, e.key, spec_merge(spec_obj_get_or_null(prev, e.key), e.value))
        }
    }
}

/// The entry list after a whole object patch has been applied.
pub open spec fn spec_merge_entries(base: Seq<EntryV>, patches: Seq<EntryV>) -> Seq<EntryV> {
    spec_merge_upto(base, patches, patches.len() as int)
}

fn obj_get_at<'a>(entries: &'a Vec<Entry>, key: &String, i: usize) -> (r: Option<&'a JsonValue>)
    requires
        i <= entries@.len(),
    ensures
        (r matches Some(v) ==> spec_obj_get(entries_view(entries@).skip(i as int), key@)
            == Some(v.jv())),
        (r is None ==> spec_obj_get(entries_view(entries@).skip(i as int), key@) is None),
    decreases entries@.len() - i,
{
    let ghost s = entries_view(entries@).skip(i as int);
    if i == entries.len() {
        None
    } else if entries[i].key == *key {
        proof {
            assert(s[0] == entries_view(entries@)[i as int]);
        }
        Some(&entries[i].value)
    } else {
        let r = obj_get_at(entries, key, i + 1);
        proof {
            assert(s[0] == entries_view(entries@)[i as int]);
            assert(s.drop_first() =~= entries_view(entries@).skip(i as int + 1));
        }
        r
    }
}

/// Look up `key` in an object's entry list.
pub fn obj_get<'a>(entries: &'a Vec<Entry>, key: &String) -> (r: Option<&'a JsonValue>)
    ensures
        (r matches Some(v) ==> spec_obj_get(entries_view(entries@), key@) == Some(v.jv())),
        (r is None ==> spec_obj_get(entries_view(entries@), key@) is None),
{
    proof {
        assert(entries_view(entries@).skip(0) =~= entries_view(entries@));
    }
    obj_get_at(entries, key, 0)
}

fn obj_remove_at(entries: &mut Vec<Entry>, key: &String, i: usize)
    requires
        i <= old(entries)@.len(),
    ensures
        entries_view(final(entries)@) =~= entries_view(old(entries)@).take(i as int)
            + spec_obj_remove(entries_view(old(entries)@).skip(i as int), key@),
    decreases old(entries)@.len() - i,
{
    let ghost s0 = entries_view(old(entries)@);
    if i == entries.len() {
        proof {
            assert(s0.take(i as int) =~= s0);
            assert(s0.skip(i as int) =~= Seq::<EntryV>::empty());
        }
    } else if entries[i].key == *key {
        entries.remove(i);
        let ghost s1 = entries_view(entries@);
        proof {
            assert(s1 =~= s0.take(i as int) + s0.skip(i as int).drop_first());
        }
        obj_remove_at(entries, key, i);
        proof {
            assert(s1.take(i as int) =~= s0.take(i as int));
            assert(s1.skip(i as int) =~= s0.skip(i as int).drop_first());
            assert(s0.skip(i as int)[0] == s0[i as int]);
        }
    } else {
        obj_remove_at(entries, key, i + 1);
        proof {
            assert(s0.take(i as int + 1) =~= s0.take(i as int) + seq![s0[i as int]]);
            assert(s0.skip(i as int + 1) =~= s0.skip(i as int).drop_first());
            assert(s0.skip(i as int)[0] == s0[i as int]);
            assert(entries_view(final(entries)@) =~= s0.take(i as int) + (seq![s0[i as int]]
                + spec_obj_remove(s0.skip(i as int).drop_first(), key@)));
        }
    }
}

/// Remove every entry with key `key` from an object's entry list.
pub fn obj_remove(entries: &mut Vec<Entry>, key: &String)
    ensures
        entries_view(final(entries)@) == spec_obj_remove(entries_view(old(entries)@), key@),
{
    obj_remove_at(entries, key, 0);
    proof {
        let s0 = entries_view(old(entries)@);
        assert(s0.take(0) =~= Seq::<EntryV>::empty());
        assert(s0.skip(0) =~= s0);
        assert(entries_view(final(entries)@) =~= spec_obj_remove(s0, key@));
    }
}

fn obj_set_at(entries: &mut Vec<Entry>, key: String, value: JsonValue, i: usize)
    requires
        i <= old(entries)@.len(),
    ensures
        entries_view(final(entries)@) =~= entries_view(old(entries)@).take(i as int)
            + spec_obj_set(entries_view(old(entries)@).skip(i as int), key@, value.jv()),
    decreases old(entries)@.len() - i,
{
    let ghost s0 = entries_view(old(entries)@);
    let ghost kv = key@;
    let ghost vv = value.jv();
    if i == entries.len() {
        entries.push(Entry { key, value });
        proof {
            assert(s0.take(i as int) =~= s0);
            assert(s0.skip(i as int) =~= Seq::<EntryV>::empty());
            assert(entries_view(final(entries)@) =~= s0 + seq![EntryV { key: kv, value: vv }]);
        }
    } else if entries[i].key == key {
        entries.remove(i);
        entries.insert(i, Entry { key, value });
        proof {
            assert(s0.skip(i as int)[0] == s0[i as int]);
            assert(entries_view(final(entries)@) =~= s0.take(i as int) + (seq![
                EntryV { key: kv, value: vv },
            ] + s0.skip(i as int).drop_first()));
        }
    } else {
        obj_set_at(entries, key, value, i + 1);
        proof {
            assert(s0.take(i as int + 1) =~= s0.take(i as int) + seq![s0[i as int]]);
            assert(s0.skip(i as int + 1) =~= s0.skip(i as int).drop_first());
            assert(s0.skip(i as int)[0] == s0[i as int]);
            assert(entries_view(final(entries)@) =~= s0.take(i as int) + (seq![s0[i as int]]
                + spec_obj_set(s0.skip(i as int).drop_first(), kv, vv)));
        }
    }
}

/// Bind `key` to `value` in an object's entry list: replace the first entry
/// with that key, or append a new entry when the key is absent.
pub fn obj_set(entries: &mut Vec<Entry>, key: String, value: JsonValue)
    ensures
        entries_view(final(entries)@) == spec_obj_set(
            entries_view(old(entries)@),
            key@,
            value.jv(),
        ),
{
    let ghost kv = key@;
    let ghost vv = value.jv();
    obj_set_at(entries, key, value, 0);
    proof {
        let s0 = entries_view(old(entries)@);
        assert(s0.take(0) =~= Seq::<EntryV>::empty());
        assert(s0.skip(0) =~= s0);
        assert(entries_view(final(entries)@) =~= spec_obj_set(s0, kv, vv));
    }
}

/// An exact structural copy of a JSON value.
#[verifier::loop_isolation(false)]
pub fn deep_clone(v: &JsonValue) -> (r: JsonValue)
    ensures
        r.jv() == v.jv(),
    decreases v,
{
    match v {
        JsonValue::Null => JsonValue::Null,
        JsonValue::Bool(b) => JsonValue::Bool(*b),
        JsonValue::Num(n) => JsonValue::Num(*n),
        JsonValue::Str(s) => JsonValue::Str(s.clone()),
        JsonValue::Arr(items) => {
            let mut out: Vec<JsonValue> = Vec::new();
            let mut i: usize = 0;
            while i < items.len()
                invariant
                    i <= items@.len(),
                    out@.len() == i,
                    forall|j: int| 0 <= j < i ==> out@[j].jv() == items@[j].jv(),
                decreases items@.len() - i,
            {
                out.push(deep_clone(&items[i]));
                i += 1;
            }
            let r = JsonValue::Arr(out);
            proof {
                let s1 = r.jv()->Arr_0;
                let s2 = v.jv()->Arr_0;
                assert forall|j: int| 0 <= j < s1.len() implies s1[j] == s2[j] by {
                    assert(s1[j] == out@[j].jv());
                    assert(s2[j] == items@[j].jv());
                }
                assert(s1 =~= s2);
            }
            r
        },
        JsonValue::Obj(entries) => {
            let mut out: Vec<Entry> = Vec::new();
            let mut i: usize = 0;
            while i < entries.len()
                invariant
                    i <= entries@.len(),
                    out@.len() == i,
                    forall|j: int| 0 <= j < i ==> out@[j]@ == entries@[j]@,
                decreases entries@.len() - i,
            {
                let e = &entries[i];
                out.push(Entry { key: e.key.clone(), value: deep_clone(&e.value) });
                i += 1;
            }
            let r = JsonValue::Obj(out);
            proof {
                assert(entries_view(out@) =~= entries_view(entries@));
                let s1 = r.jv()->Obj_0;
                let s2 = v.jv()->Obj_0;
                assert(s1 == s2);
            }
            r
        },
    }
}

/// Apply a JSON merge-patch (RFC 7386) to `target` and return the result.
#[verifier::loop_isolation(false)]
pub fn merge_value(target: JsonValue, patch: &JsonValue) -> (r: JsonValue)
    ensures
        r.jv() == spec_merge(target.jv(), patch.jv()),
    decreases patch,
{
    match patch {
        JsonValue::Obj(pentries) => {
            let ghost base = match target.jv() {
                JsonV::Obj(te) => te,
                _ => Seq::<EntryV>::empty(),
            };
            let mut tentries: Vec<Entry> = match target {
                JsonValue::Obj(te) => te,
                _ => Vec::new(),
            };
            proof {
                assert(entries_view(tentries@) =~= base);
            }
            let ghost pv = entries_view(pentries@);
            let mut i: usize = 0;
            while i < pentries.len()
                invariant
                    i <= pentries@.len(),
                    pv == entries_view(pentries@),
                    entries_view(tentries@) == spec_merge_upto(base, pv, i as int),
                decreases pentries@.len() - i,
            {
                let e = &pentries[i];
                proof {
                    assert(pv[i as int] == EntryV { key: e.key@, value: e.value.jv() });
                }
                let is_null = match &e.value {
                    JsonValue::Null => true,
                    _ => false,
                };
                if is_null {
                    obj_remove(&mut tentries, &e.key);
                } else {
                    let cur: JsonValue = match obj_get(&tentries, &e.key) {
                        Some(v) => deep_clone(v),
                        None => JsonValue::Null,
                    };
                    proof {
                        assert(cur.jv() == spec_obj_get_or_null(entries_view(tentries@), e.key@));
                    }
                    let merged = merge_value(cur, &e.value);
                    obj_set(&mut tentries, e.key.clone(), merged);
                }
                i += 1;
            }
            JsonValue::Obj(tentries)
        },
        _ => {
            deep_clone(patch)
        },
    }
}

/// Binding one key leaves every other key's lookup unchanged.
pub proof fn lemma_set_preserves_other_keys(
    s: Seq<EntryV>,
    key: Seq<char>,
    value: JsonV,
    k: Seq<char>,
)
    requires
        k != key,
    ensures
        spec_obj_get(spec_obj_set(s, key, value), k) == spec_obj_get(s, k),
    decreases s.len(),
{
    if s.len() == 0 {
        let r = seq![EntryV { key, value }];
        assert(r[0] == EntryV { key, value });
        assert(r.drop_first() =~= Seq::<EntryV>::empty());
        assert(spec_obj_get(r.drop_first(), k) is None);
    } else if s[0].key == key {
        let r = seq![EntryV { key, value }] + s.drop_first();
        assert(r[0] == EntryV { key, value });
        assert(r.drop_first() =~= s.drop_first());
    } else {
        lemma_set_preserves_other_keys(s.drop_first(), key, value, k);
        let r = seq![s[0]] + spec_obj_set(s.drop_first(), key, value);
        assert(r[0] == s[0]);
        assert(r.drop_first() =~= spec_obj_set(s.drop_first(), key, value));
    }
}

/// Removing one key leaves every other key's lookup unchanged.
pub proof fn lemma_remove_preserves_other_keys(s: Seq<EntryV>, key: Seq<char>, k: Seq<char>)
    requires
        k != key,
    ensures
        spec_obj_get(spec_obj_remove(s, key), k) == spec_obj_get(s, k),
    decreases s.len(),
{
    if s.len() == 0 {
    } else if s[0].key == key {
        lemma_remove_preserves_other_keys(s.drop_first(), key, k);
    } else {
        lemma_remove_preserves_other_keys(s.drop_first(), key, k);
        let r = seq![s[0]] + spec_obj_remove(s.drop_first(), key);
        assert(r[0] == s[0]);
        assert(r.drop_first() =~= spec_obj_remove(s.drop_first(), key));
    }
}

/// Whether an object patch has an entry for `k`.
pub open spec fn patch_has_key(patches: Seq<EntryV>, k: Seq<char>) -> bool {
    exists|i: int| 0 <= i < patches.len() && patches[i].key == k
}

proof fn lemma_merge_upto_untouched(base: Seq<EntryV>, patches: Seq<EntryV>, n: int, k: Seq<char>)
    requires
        !patch_has_key(patches, k),
    ensures
        spec_obj_get(spec_merge_upto(base, patches, n), k) == spec_obj_get(base, k),
    decreases n,
{
    if n <= 0 || n > patches.len() {
    } else {
        lemma_merge_upto_untouched(base, patches, n - 1, k);
        let prev = spec_merge_upto(base, patches, n - 1);
        let e = patches[n - 1];
        assert(e.key != k) by {
            if e.key == k {
                assert(patch_has_key(patches, k));
            }
        }
        if e.value is Null {
            lemma_remove_preserves_other_keys(prev, e.key, k);
        } else {
            lemma_set_preserves_other_keys(
                prev,
                e.key,
                spec_merge(spec_obj_get_or_null(prev, e.key), e.value),
                k,
            );
        }
    }
}

/// Law: a merge-patch is a no-op on untouched keys. Any key the patch does
/// not mention looks up to the same value after the merge as before it.
pub proof fn lemma_merge_untouched_key(base: Seq<EntryV>, patches: Seq<EntryV>, k: Seq<char>)
    requires
        !patch_has_key(patches, k),
    ensures
        spec_obj_get(spec_merge_entries(base, patches), k) == spec_obj_get(base, k),
{
    lemma_merge_upto_untouched(base, patches, patches.len() as int, k);
}

/// The keys of an entry list are pairwise distinct.
pub open spec fn distinct_keys(s: Seq<EntryV>) -> bool {
    forall|i: int, j: int| 0 <= i < j < s.len() ==> s[i].key != s[j].key
}

/// A key that no entry carries looks up to nothing.
pub proof fn lemma_get_none_when_no_key(s: Seq<EntryV>, k: Seq<char>)
    requires
        forall|i: int| 0 <= i < s.len() ==> s[i].key != k,
    ensures
        spec_obj_get(s, k) is None,
    decreases s.len(),
{
    if s.len() == 0 {
    } else {
        lemma_get_none_when_no_key(s.drop_first(), k);
    }
}

/// Binding an absent key appends its entry at the end.
pub proof fn lemma_set_absent_appends(s: Seq<EntryV>, key: Seq<char>, value: JsonV)
    requires
        spec_obj_get(s, key) is None,
    ensures
        spec_obj_set(s, key, value) =~= s + seq![EntryV { key, value }],
    decreases s.len(),
{
    if s.len() == 0 {
        assert(spec_obj_set(s, key, value) =~= s + seq![EntryV { key, value }]);
    } else {
        assert(s[0].key != key);
        lemma_set_absent_appends(s.drop_first(), key, value);
        assert(seq![s[0]] + (s.drop_first() + seq![EntryV { key, value }]) =~= s + seq![
            EntryV { key, value },
        ]);
    }
}

/// Removing an absent key changes nothing.
pub proof fn lemma_remove_absent_noop(s: Seq<EntryV>, key: Seq<char>)
    requires
        spec_obj_get(s, key) is None,
    ensures
        spec_obj_remove(s, key) =~= s,
    decreases s.len(),
{
    if s.len() == 0 {
    } else {
        assert(s[0].key != key);
        lemma_remove_absent_noop(s.drop_first(), key);
        assert(seq![s[0]] + s.drop_first() =~= s);
    }
}

impl Clone for JsonValue {
    /// An exact structural copy: the clone has the same model.
    fn clone(&self) -> (r: Self)
        ensures
            r.jv() == self.jv(),
    {
        deep_clone(self)
    }
}

impl Clone for Entry {
    /// An exact structural copy: the clone has the same model.
    fn clone(&self) -> (r: Self)
        ensures
            r@ == self@,
    {
        Entry { key: self.key.clone(), value: deep_clone(&self.value) }
    }
}

} // verus!
