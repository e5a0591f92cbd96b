//! JSON as serde_json reads it: the parse and the accessors stand behind
//! trusted wrappers, each stated over a JSON model of the library's own.

use vstd::prelude::*;
use crate::text::{char_seq_less, lemma_char_seq_less_order};

verus! {

#[verifier::external_type_specification]
#[verifier::external_body]
pub struct ExJsonValue(serde_json::Value);

/// A JSON value as far as a sidecar is read: a number is kept as the
/// non-negative integer it is (`None` for any other number).
pub ghost enum Json {
    Null,
    Bool(bool),
    Number(Option<u64>),
    Text(Seq<char>),
    Array(Seq<Json>),
    Object(Map<Seq<char>, Json>),
}

/// What `serde_json::from_slice` reads from bytes as a `serde_json::Value`;
/// `None` when they are not JSON. It depends on the bytes alone.
pub uninterp spec fn json_text(bytes: Seq<u8>) -> Option<Json>;

/// The JSON a `serde_json::Value` holds.
pub uninterp spec fn json_of(v: &serde_json::Value) -> Json;

/// Read bytes as JSON (`serde_json::from_slice`).
#[verifier::external_body]
pub(crate) fn parse_json(bytes: &[u8]) -> (r: Option<serde_json::Value>)
    ensures
        match r {
            Some(v) => json_text(bytes@) == Some(json_of(&v)),
            None => json_text(bytes@) is None,
        },
{
    serde_json::from_slice(bytes).ok()
}

/// The member `key` of an object, when it has one.
pub open spec fn member(j: Json, key: Seq<char>) -> Option<Json> {
    match j {
        Json::Object(m) => if m.contains_key(key) {
            Some(m[key])
        } else {
            None
        },
        _ => None,
    }
}

/// An object's member (`Value::get` with a text key): `None` for a value
/// that is not an object or has no such member.
#[verifier::external_body]
pub(crate) fn json_get<'a>(v: &'a serde_json::Value, key: &str) -> (r: Option<&'a serde_json::Value>)
    ensures
        match r {
            Some(c) => member(json_of(v), key@) == Some(json_of(c)),
            None => member(json_of(v), key@) is None,
        },
{
    v.get(key)
}

/// The value as a non-negative integer (`Value::as_u64`).
pub open spec fn json_u64(j: Json) -> Option<u64> {
    match j {
        Json::Number(n) => n,
        _ => None,
    }
}

/// The value as a non-negative integer (`Value::as_u64`).
#[verifier::external_body]
pub(crate) fn json_as_u64(v: &serde_json::Value) -> (r: Option<u64>)
    ensures
        r == json_u64(json_of(v)),
{
    v.as_u64()
}

/// The value as a boolean (`Value::as_bool`).
pub open spec fn json_bool(j: Json) -> Option<bool> {
    match j {
        Json::Bool(b) => Some(b),
        _ => None,
    }
}

/// The value as a boolean (`Value::as_bool`).
#[verifier::external_body]
pub(crate) fn json_as_bool(v: &serde_json::Value) -> (r: Option<bool>)
    ensures
        r == json_bool(json_of(v)),
{
    v.as_bool()
}

/// The elements of an array (`Value::as_array`).
#[verifier::external_body]
pub(crate) fn json_as_array(v: &serde_json::Value) -> (r: Option<&Vec<serde_json::Value>>)
    ensures
        match r {
            Some(a) => json_of(v) == Json::Array(a@.map_values(|e: serde_json::Value| json_of(&e))),
            None => !(json_of(v) is Array),
        },
{
    v.as_array()
}

/// Whether the value is a number (`Value::is_number`).
#[verifier::external_body]
pub(crate) fn json_is_number(v: &serde_json::Value) -> (r: bool)
    ensures
        r == (json_of(v) is Number),
{
    v.is_number()
}

/// Whether the value is an object (`Value::is_object`).
#[verifier::external_body]
pub(crate) fn json_is_object(v: &serde_json::Value) -> (r: bool)
    ensures
        r == (json_of(v) is Object),
{
    v.is_object()
}

/// Names strictly increasing in character order.
pub open spec fn names_rising<V>(s: Seq<(Seq<char>, V)>) -> bool {
    forall|i: int, j: int| 0 <= i < j < s.len() ==> crate::text::char_seq_less((#[trigger] s[i]).0, (#[trigger] s[j]).0)
}

/// `s` lists exactly the members of `m`.
pub open spec fn lists_members<V>(s: Seq<(Seq<char>, V)>, m: Map<Seq<char>, V>) -> bool {
    forall|p: (Seq<char>, V)| s.contains(p) <==> (m.contains_key(p.0) && m[p.0] == p.1)
}

/// The members of a JSON object in increasing name order, as serde_json's
/// `Map` (a `BTreeMap`) walks them.
pub open spec fn object_listing(m: Map<Seq<char>, Json>) -> Seq<(Seq<char>, Json)> {
    choose|s: Seq<(Seq<char>, Json)>| names_rising(s) && lists_members(s, m)
}

/// Two name-increasing lists of the same members are the same list.
pub(crate) proof fn lemma_listing_unique<V>(s: Seq<(Seq<char>, V)>, t: Seq<(Seq<char>, V)>)
    requires
        names_rising(s),
        names_rising(t),
        forall|p: (Seq<char>, V)| s.contains(p) <==> t.contains(p),
    ensures
        s == t,
    decreases s.len(),
{
    if s.len() == 0 {
        if t.len() > 0 {
            assert(t.contains(t[0]));
        }
        assert(s =~= t);
    } else {
        assert(s.contains(s[0]));
        assert(t.contains(s[0]));
        let j = choose|j: int| 0 <= j < t.len() && t[j] == s[0];
        assert(t.contains(t[0]));
        let i = choose|i: int| 0 <= i < s.len() && s[i] == t[0];
        lemma_char_seq_less_order(s[0].0, t[0].0, s[0].0);
        if j > 0 {
            assert(char_seq_less(t[0].0, t[j].0));
            if i > 0 {
                assert(char_seq_less(s[0].0, s[i].0));
            }
            lemma_char_seq_less_order(t[0].0, s[0].0, t[0].0);
            assert(false);
        }
        let ds = s.drop_first();
        let dt = t.drop_first();
        assert forall|a: int, b: int| 0 <= a < b < ds.len() implies char_seq_less((#[trigger] ds[a]).0, (#[trigger] ds[b]).0) by {
            assert(ds[a] == s[a + 1] && ds[b] == s[b + 1]);
        }
        assert forall|a: int, b: int| 0 <= a < b < dt.len() implies char_seq_less((#[trigger] dt[a]).0, (#[trigger] dt[b]).0) by {
            assert(dt[a] == t[a + 1] && dt[b] == t[b + 1]);
        }
        assert forall|p: (Seq<char>, V)| ds.contains(p) <==> dt.contains(p) by {
            if ds.contains(p) {
                let a = choose|a: int| 0 <= a < ds.len() && ds[a] == p;
                assert(s[a + 1] == p);
                assert(char_seq_less(s[0].0, p.0));
                lemma_char_seq_less_order(s[0].0, s[0].0, s[0].0);
                assert(p != t[0]);
                assert(t.contains(p));
                let b = choose|b: int| 0 <= b < t.len() && t[b] == p;
                assert(b != 0);
                assert(dt[b - 1] == p);
            }
            if dt.contains(p) {
                let b = choose|b: int| 0 <= b < dt.len() && dt[b] == p;
                assert(t[b + 1] == p);
                assert(char_seq_less(t[0].0, p.0));
                lemma_char_seq_less_order(t[0].0, t[0].0, t[0].0);
                assert(p != s[0]);
                assert(s.contains(p));
                let a = choose|a: int| 0 <= a < s.len() && s[a] == p;
                assert(a != 0);
                assert(ds[a - 1] == p);
            }
        }
        lemma_listing_unique(ds, dt);
        assert(s =~= seq![s[0]] + ds);
        assert(t =~= seq![t[0]] + dt);
    }
}

/// The members of an object (`Value::as_object`, walked with `iter`).
/// serde_json's `Map` is a `BTreeMap` unless its `preserve_order` feature
/// is on, which nothing in this crate's dependencies turns on; a
/// `BTreeMap<String, _>` walks its names in increasing order, and UTF-8
/// byte order is character order.
#[verifier::external_body]
pub(crate) fn json_object_members(v: &serde_json::Value) -> (r: Option<Vec<(&String, &serde_json::Value)>>)
    ensures
        match r {
            Some(es) => json_of(v) matches Json::Object(m) && names_rising(
                es@.map_values(|e: (&String, &serde_json::Value)| (e.0@, json_of(e.1))),
            ) && lists_members(es@.map_values(|e: (&String, &serde_json::Value)| (e.0@, json_of(e.1))), m),
            None => !(json_of(v) is Object),
        },
{
    match v.as_object() {
        Some(m) => Some(m.iter().collect()),
        None => None,
    }
}

/// The value as text (`Value::as_str`).
pub open spec fn json_str(j: Json) -> Option<Seq<char>> {
    match j {
        Json::Text(t) => Some(t),
        _ => None,
    }
}

/// The value as text (`Value::as_str`).
#[verifier::external_body]
pub(crate) fn json_as_str(v: &serde_json::Value) -> (r: Option<&str>)
    ensures
        match r {
            Some(t) => json_str(json_of(v)) == Some(t@),
            None => json_str(json_of(v)) is None,
        },
{
    v.as_str()
}

} // verus!
