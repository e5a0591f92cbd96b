//! Java (big-endian) NBT through `fastnbt`: the bytes are read by the
//! outside crate, and the library builds its own tag tree from what was
//! read, value by value.

use vstd::prelude::*;
use crate::nbt_le::{NbtCompound, NbtValue, Tag};

verus! {

#[verifier::external_type_specification]
#[verifier::external_body]
pub struct ExFastNbtValue(fastnbt::Value);

/// A Java NBT value as `fastnbt` reads it into a `fastnbt::Value`: a value
/// that holds no other, a list, or a compound mapping each name to its
/// value.
pub ghost enum JavaTag {
    Leaf(Tag),
    List(Seq<JavaTag>),
    Compound(Map<Seq<char>, JavaTag>),
}

/// What `fastnbt::from_bytes` reads from bytes as a `fastnbt::Value`;
/// `None` when they are not NBT. It depends on the bytes alone.
pub uninterp spec fn java_tag(bytes: Seq<u8>) -> Option<JavaTag>;

/// The value a `fastnbt::Value` holds.
pub uninterp spec fn java_value(v: &fastnbt::Value) -> JavaTag;

/// Whether the library's tag `t` holds exactly the value `j`: the same
/// leaves, the same list items in order, and a compound's entries naming
/// each of the map's names once with its value (in any order).
pub open spec fn holds(t: Tag, j: JavaTag) -> bool
    decreases j,
{
    match j {
        JavaTag::Leaf(l) => t == l && !(l is List) && !(l is Compound),
        JavaTag::List(items) => match t {
            Tag::List(ts) => ts.len() == items.len() && forall|i: int|
                0 <= i < ts.len() ==> holds(#[trigger] ts[i], items[i]),
            _ => false,
        },
        JavaTag::Compound(m) => match t {
            Tag::Compound(es) => {
                &&& m.dom().finite()
                &&& es.len() == m.len()
                &&& forall|i: int, k: int| 0 <= i < k < es.len() ==> es[i].0 != es[k].0
                &&& forall|i: int|
                    0 <= i < es.len() ==> m.contains_key(#[trigger] es[i].0) && holds(es[i].1, m[es[i].0])
            },
            _ => false,
        },
    }
}

/// Read NBT bytes (`fastnbt::from_bytes` into a `fastnbt::Value`); the
/// decoder's message when they are not NBT.
#[verifier::external_body]
fn read_value(bytes: &[u8]) -> (r: Result<fastnbt::Value, String>)
    ensures
        match r {
            Ok(v) => java_tag(bytes@) == Some(java_value(&v)),
            Err(_) => java_tag(bytes@) is None,
        },
{
    fastnbt::from_bytes(bytes).map_err(|e| e.to_string())
}

/// A number as the library's value (`fastnbt::Value`'s number variants;
/// floats by their bit pattern); `None` for any other value.
#[verifier::external_body]
fn number_value(v: &fastnbt::Value) -> (r: Option<NbtValue>)
    ensures
        match r {
            Some(x) => java_value(v) == JavaTag::Leaf(x.model()) && !(x.model() is List) && !(x.model() is Compound),
            None => !(java_value(v) matches JavaTag::Leaf(l) && (l is Byte || l is Short || l is Int || l is Long
                || l is Float || l is Double)),
        },
{
    match v {
        fastnbt::Value::Byte(x) => Some(NbtValue::Byte(*x)),
        fastnbt::Value::Short(x) => Some(NbtValue::Short(*x)),
        fastnbt::Value::Int(x) => Some(NbtValue::Int(*x)),
        fastnbt::Value::Long(x) => Some(NbtValue::Long(*x)),
        fastnbt::Value::Float(x) => Some(NbtValue::Float(x.to_bits())),
        fastnbt::Value::Double(x) => Some(NbtValue::Double(x.to_bits())),
        _ => None,
    }
}

/// A string or array as the library's value (`fastnbt::Value`'s `String`
/// and array variants); `None` for any other value.
#[verifier::external_body]
fn text_or_array_value(v: &fastnbt::Value) -> (r: Option<NbtValue>)
    ensures
        match r {
            Some(x) => java_value(v) == JavaTag::Leaf(x.model()) && !(x.model() is List) && !(x.model() is Compound),
            None => !(java_value(v) matches JavaTag::Leaf(l) && (l is Str || l is ByteArray || l is IntArray
                || l is LongArray)),
        },
{
    match v {
        fastnbt::Value::String(s) => Some(NbtValue::String(s.clone())),
        fastnbt::Value::ByteArray(a) => Some(NbtValue::ByteArray(a.to_vec())),
        fastnbt::Value::IntArray(a) => Some(NbtValue::IntArray(a.to_vec())),
        fastnbt::Value::LongArray(a) => Some(NbtValue::LongArray(a.to_vec())),
        _ => None,
    }
}

/// The items of a list value (`fastnbt::Value::List`).
#[verifier::external_body]
fn list_items(v: &fastnbt::Value) -> (r: Option<&Vec<fastnbt::Value>>)
    ensures
        match r {
            Some(a) => java_value(v) == JavaTag::List(a@.map_values(|e: fastnbt::Value| java_value(&e))),
            None => !(java_value(v) is List),
        },
{
    match v {
        fastnbt::Value::List(items) => Some(items),
        _ => None,
    }
}

/// The entries of a compound value (`fastnbt::Value::Compound`, a
/// `HashMap` walked with `iter`). Which order the walk takes is left open:
/// each name comes once, with its value.
#[verifier::external_body]
fn compound_entries(v: &fastnbt::Value) -> (r: Option<Vec<(&String, &fastnbt::Value)>>)
    ensures
        match r {
            Some(es) => java_value(v) matches JavaTag::Compound(m) && m.dom().finite() && es@.len() == m.len()
                && (forall|i: int, k: int| 0 <= i < k < es@.len() ==> es@[i].0@ != es@[k].0@) && (forall|i: int|
                0 <= i < es@.len() ==> m.contains_key(#[trigger] es@[i].0@) && m[es@[i].0@] == java_value(es@[i].1)),
            None => java_value(v) is List || (java_value(v) matches JavaTag::Leaf(l) && !(l is List) && !(l is Compound)),
        },
{
    match v {
        fastnbt::Value::Compound(m) => Some(m.iter().collect()),
        _ => None,
    }
}

/// The library's tag tree for a value `fastnbt` read.
fn tree_of(v: &fastnbt::Value) -> (r: NbtValue)
    ensures
        holds(r.model(), java_value(v)),
    decreases java_value(v),
{
    if let Some(x) = number_value(v) {
        return x;
    }
    if let Some(x) = text_or_array_value(v) {
        return x;
    }
    if let Some(items) = list_items(v) {
        let ghost js = items@.map_values(|e: fastnbt::Value| java_value(&e));
        let mut out: Vec<NbtValue> = Vec::new();
        let mut i: usize = 0;
        while i < items.len()
            invariant
                i <= items@.len(),
                js == items@.map_values(|e: fastnbt::Value| java_value(&e)),
                java_value(v) == JavaTag::List(js),
                out@.len() == i,
                forall|k: int| 0 <= k < i ==> holds(#[trigger] out@[k].model(), js[k]),
            decreases items@.len() - i,
        {
            proof {
                let jv = java_value(v);
                assert(jv->List_0 == js);
                assert(decreases_to!(jv => jv->List_0[i as int]));
            }
            let t = tree_of(&items[i]);
            out.push(t);
            i += 1;
        }
        let r = NbtValue::List(out);
        proof {
            let ts = crate::nbt_le::list_model(out@);
            assert(r.model() == Tag::List(ts));
            assert forall|k: int| 0 <= k < ts.len() implies holds(#[trigger] ts[k], js[k]) by {
                assert(ts[k] == out@[k].model());
            }
        }
        return r;
    }
    match compound_entries(v) {
        Some(es) => {
            let ghost m = match java_value(v) {
                JavaTag::Compound(m) => m,
                _ => Map::empty(),
            };
            let mut out: Vec<(String, NbtValue)> = Vec::new();
            let mut i: usize = 0;
            while i < es.len()
                invariant
                    i <= es@.len(),
                    java_value(v) == JavaTag::Compound(m),
                    forall|a: int| 0 <= a < es@.len() ==> m.contains_key(#[trigger] es@[a].0@) && m[es@[a].0@]
                        == java_value(es@[a].1),
                    out@.len() == i,
                    forall|k: int| 0 <= k < i ==> (#[trigger] out@[k]).0@ == es@[k].0@ && holds(
                        out@[k].1.model(),
                        m[es@[k].0@],
                    ),
                decreases es@.len() - i,
            {
                let (name, value) = es[i];
                assert(m.contains_key(name@));
                proof {
                    let jv = java_value(v);
                    assert(jv->Compound_0 == m);
                    assert(decreases_to!(jv => jv->Compound_0[name@]));
                }
                let t = tree_of(value);
                out.push((name.clone(), t));
                i += 1;
            }
            let r = NbtValue::Compound(NbtCompound { entries: out });
            proof {
                let ms = crate::nbt_le::entries_model(out@);
                assert(r.model() == Tag::Compound(ms));
                assert forall|k: int| 0 <= k < ms.len() implies ms[k].0 == es@[k].0@ && ms[k].1 == out@[k].1.model() by {}
            }
            r
        },
        None => {
            // Every value is a number, text, array, list or compound.
            proof {
                if let JavaTag::Leaf(l) = java_value(v) {
                    assert(l is Byte || l is Short || l is Int || l is Long || l is Float || l is Double || l is Str
                        || l is ByteArray || l is IntArray || l is LongArray);
                }
                assert(false);
            }
            NbtValue::Byte(0)
        },
    }
}

/// Read Java NBT bytes into the library's tag tree; the decoder's message
/// when they are not NBT.
pub fn java_nbt(bytes: &[u8]) -> (r: Result<NbtValue, String>)
    ensures
        match r {
            Ok(v) => java_tag(bytes@) matches Some(j) && holds(v.model(), j),
            Err(_) => java_tag(bytes@) is None,
        },
{
    match read_value(bytes) {
        Ok(v) => Ok(tree_of(&v)),
        Err(e) => Err(e),
    }
}

} // verus!
