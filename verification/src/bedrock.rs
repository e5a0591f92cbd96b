//! Bedrock Edition subchunk decoding: SubChunkPrefix payloads (palette
//! versions 8 and 9, the formats all current worlds use).
//!
//! Key layout and payload format follow the public Bedrock level format
//! documentation. Reading the world's LevelDB is the caller's part; the
//! payload of one subchunk record is decoded here.

use vstd::prelude::*;
use crate::chunk::{pow2, pow2_exec, lemma_pow2_mono, lemma_pow2_63};
use crate::text::{
    char_seq_less, decimal, decimal_string, find_char, first_index, lemma_char_seq_less_order,
    split_fields, split_str, str_eq, str_less,
};
use crate::chunk::{BlockState, SectionData};
use crate::nbt_le::{le32, nbt_error_text, spec_root, tag_get, NbtCursor, NbtValue, Tag};

verus! {

/// Indices a 32-bit word holds at `bits` bits each.
pub open spec fn per_word(bits: nat) -> nat {
    (32nat / bits) as nat
}

/// Words an index array of 4096 entries takes at `bits` bits each.
pub open spec fn index_words(bits: nat) -> nat {
    ((4096 + per_word(bits) - 1) / (per_word(bits) as int)) as nat
}

/// The little-endian 32-bit word at byte `p`.
pub open spec fn word_at(b: Seq<u8>, p: int) -> nat {
    (b[p] + 0x100 * b[p + 1] + 0x1_0000 * b[p + 2] + 0x100_0000 * b[p + 3]) as nat
}

/// Palette index `i` of a storage (in the file's XZY order): slot
/// `i % per_word` of word `i / per_word`, lowest bits first. The words
/// start after the storage's header byte.
pub open spec fn storage_index(b: Seq<u8>, bits: nat, i: int) -> int {
    let w = i / per_word(bits) as int;
    let slot = i % per_word(bits) as int;
    ((word_at(b, 1 + 4 * w) / pow2((slot * bits) as nat)) % pow2(bits)) as int
}

/// Where file index `i` (`x*256 + z*16 + y`, y fastest) goes in the
/// canonical section layout `y*256 + z*16 + x`.
pub open spec fn xzy_to_yzx(i: int) -> int {
    (i % 16) * 256 + ((i / 16) % 16) * 16 + i / 256
}

proof fn lemma_xzy_to_yzx(a: int, b: int)
    requires
        0 <= a < 4096,
        0 <= b < 4096,
    ensures
        0 <= xzy_to_yzx(a) < 4096,
        xzy_to_yzx(a) == xzy_to_yzx(b) ==> a == b,
{
    assert(0 <= xzy_to_yzx(a) < 4096) by (nonlinear_arith)
        requires
            0 <= a < 4096,
    ;
    assert(xzy_to_yzx(a) == xzy_to_yzx(b) ==> a == b) by (nonlinear_arith)
        requires
            0 <= a < 4096,
            0 <= b < 4096,
    ;
}

fn le_word(b: &[u8], p: usize) -> (w: u32)
    requires
        p + 4 <= b@.len(),
    ensures
        w == word_at(b@, p as int),
{
    (b[p] as u32) + 0x100 * (b[p + 1] as u32) + 0x1_0000 * (b[p + 2] as u32) + 0x100_0000 * (
    b[p + 3] as u32)
}

/// Unpack the 4096 bit-packed palette indices of a block storage
/// (`bits` must be non-zero).
///
/// Bedrock stores blocks in XZY order (y fastest): file index
/// `i = x*256 + z*16 + y`. The canonical section layout is
/// `y*256 + z*16 + x`, so each value is written to its permuted slot.
pub fn unpack_words(bytes: &[u8], bits: usize) -> (out: Vec<u16>)
    requires
        1 <= bits <= 16,
        1 + 4 * index_words(bits as nat) <= bytes@.len(),
    ensures
        out@.len() == 4096,
        forall|i: int| 0 <= i < 4096 ==> out@[#[trigger] xzy_to_yzx(i)] == storage_index(bytes@, bits as nat, i),
{
    let per = 32 / bits;
    assert(1 <= per <= 32) by (nonlinear_arith)
        requires
            per == 32int / (bits as int),
            1 <= bits <= 16,
    ;
    proof {
        lemma_pow2_63();
        lemma_pow2_mono(bits as nat, 16);
    }
    let mask_mod: u128 = pow2_exec(bits as u32);
    let mut indices: Vec<u16> = vec![0u16; 4096];
    let mut file_index: usize = 0;
    while file_index < 4096
        invariant
            1 <= bits <= 16,
            per == per_word(bits as nat),
            1 <= per <= 32,
            1 + 4 * index_words(bits as nat) <= bytes@.len(),
            mask_mod == pow2(bits as nat),
            1 <= mask_mod <= 65536,
            file_index <= 4096,
            indices@.len() == 4096,
            forall|j: int| 0 <= j < file_index ==> indices@[#[trigger] xzy_to_yzx(j)] == storage_index(bytes@, bits as nat, j),
        decreases 4096 - file_index,
    {
        let w = file_index / per;
        let slot = file_index % per;
        assert(w < index_words(bits as nat) && slot * bits < 32) by (nonlinear_arith)
            requires
                w == file_index / per,
                slot == file_index % per,
                file_index < 4096,
                per == 32int / (bits as int),
                index_words(bits as nat) == (4096 + per - 1) / (per as int),
                1 <= per,
                1 <= bits,
        ;
        let start = 1 + w * 4;
        let word = le_word(bytes, start);
        let p = pow2_exec((slot * bits) as u32);
        let field = ((word as u128) / p) % mask_mod;
        assert(field < 65536);
        let y = file_index % 16;
        let z = (file_index / 16) % 16;
        let x = file_index / 256;
        let dest = y * 256 + z * 16 + x;
        proof {
            lemma_xzy_to_yzx(file_index as int, file_index as int);
            assert(dest == xzy_to_yzx(file_index as int));
            assert forall|j: int| 0 <= j < file_index implies xzy_to_yzx(j) != dest by {
                lemma_xzy_to_yzx(j, file_index as int);
            }
        }
        indices.set(dest, field as u16);
        file_index += 1;
    }
    indices
}


/// Text pairs inserted one after another into a map, a later value of a
/// key replacing an earlier one.
pub open spec fn pairs_map(ps: Seq<(Seq<char>, Seq<char>)>) -> Map<Seq<char>, Seq<char>>
    decreases ps.len(),
{
    if ps.len() == 0 {
        Map::empty()
    } else {
        pairs_map(ps.drop_last()).insert(ps.last().0, ps.last().1)
    }
}

/// Keys strictly increasing in string order.
pub open spec fn keys_increasing(s: Seq<(Seq<char>, Seq<char>)>) -> bool {
    forall|i: int, j: int| 0 <= i < j < s.len() ==> char_seq_less((#[trigger] s[i]).0, (#[trigger] s[j]).0)
}

/// `s` lists exactly the entries of `m`.
pub open spec fn lists_map(s: Seq<(Seq<char>, Seq<char>)>, m: Map<Seq<char>, Seq<char>>) -> bool {
    forall|p: (Seq<char>, Seq<char>)| s.contains(p) <==> (m.dom().contains(p.0) && m[p.0] == p.1)
}

/// The entries of a map in increasing key order, as a `BTreeMap` walks
/// them.
pub open spec fn sorted_entries(m: Map<Seq<char>, Seq<char>>) -> Seq<(Seq<char>, Seq<char>)> {
    choose|s: Seq<(Seq<char>, Seq<char>)>| keys_increasing(s) && lists_map(s, m)
}

proof fn lemma_sorted_unique(s: Seq<(Seq<char>, Seq<char>)>, t: Seq<(Seq<char>, Seq<char>)>)
    requires
        keys_increasing(s),
        keys_increasing(t),
        forall|p: (Seq<char>, Seq<char>)| s.contains(p) <==> t.contains(p),
    ensures
        s == t,
    decreases s.len(),
{
    if s.len() == 0 {
        if t.len() > 0 {
            assert(t.contains(t[0]));
        }
        assert(s =~= t);
    } else {
        assert(s.contains(s[0]));
        assert(t.contains(s[0]));
        let j = choose|j: int| 0 <= j < t.len() && t[j] == s[0];
        assert(t.contains(t[0]));
        let i = choose|i: int| 0 <= i < s.len() && s[i] == t[0];
        lemma_char_seq_less_order(s[0].0, t[0].0, s[0].0);
        if j > 0 {
            assert(char_seq_less(t[0].0, t[j].0));
            if i > 0 {
                assert(char_seq_less(s[0].0, s[i].0));
            }
            lemma_char_seq_less_order(t[0].0, s[0].0, t[0].0);
            assert(false);
        }
        let ds = s.drop_first();
        let dt = t.drop_first();
        assert forall|a: int, b: int| 0 <= a < b < ds.len() implies char_seq_less((#[trigger] ds[a]).0, (#[trigger] ds[b]).0) by {
            assert(ds[a] == s[a + 1] && ds[b] == s[b + 1]);
        }
        assert forall|a: int, b: int| 0 <= a < b < dt.len() implies char_seq_less((#[trigger] dt[a]).0, (#[trigger] dt[b]).0) by {
            assert(dt[a] == t[a + 1] && dt[b] == t[b + 1]);
        }
        assert forall|p: (Seq<char>, Seq<char>)| ds.contains(p) <==> dt.contains(p) by {
            if ds.contains(p) {
                let a = choose|a: int| 0 <= a < ds.len() && ds[a] == p;
                assert(s[a + 1] == p);
                assert(char_seq_less(s[0].0, p.0));
                lemma_char_seq_less_order(s[0].0, s[0].0, s[0].0);
                assert(p != t[0]);
                assert(t.contains(p));
                let b = choose|b: int| 0 <= b < t.len() && t[b] == p;
                assert(b != 0);
                assert(dt[b - 1] == p);
            }
            if dt.contains(p) {
                let b = choose|b: int| 0 <= b < dt.len() && dt[b] == p;
                assert(t[b + 1] == p);
                assert(char_seq_less(t[0].0, p.0));
                lemma_char_seq_less_order(t[0].0, t[0].0, t[0].0);
                assert(p != s[0]);
                assert(s.contains(p));
                let a = choose|a: int| 0 <= a < s.len() && s[a] == p;
                assert(a != 0);
                assert(ds[a - 1] == p);
            }
        }
        lemma_sorted_unique(ds, dt);
        assert(s =~= seq![s[0]] + ds);
        assert(t =~= seq![t[0]] + dt);
    }
}

/// Inserts `(key, value)` into a key-increasing list, replacing the value
/// of an equal key.
pub(crate) fn insert_sorted(list: &mut Vec<(String, String)>, key: String, value: String)
    requires
        keys_increasing(old(list)@.map_values(|p: (String, String)| (p.0@, p.1@))),
    ensures
        keys_increasing(final(list)@.map_values(|p: (String, String)| (p.0@, p.1@))),
        forall|m: Map<Seq<char>, Seq<char>>|
            lists_map(old(list)@.map_values(|p: (String, String)| (p.0@, p.1@)), m) ==> lists_map(
                final(list)@.map_values(|p: (String, String)| (p.0@, p.1@)),
                m.insert(key@, value@),
            ),
{
    let ghost before = list@.map_values(|p: (String, String)| (p.0@, p.1@));
    let mut p: usize = 0;
    while p < list.len() && str_less(list[p].0.as_str(), key.as_str())
        invariant
            p <= list@.len(),
            before == list@.map_values(|q: (String, String)| (q.0@, q.1@)),
            forall|m: int| 0 <= m < p ==> char_seq_less(#[trigger] before[m].0, key@),
        decreases list@.len() - p,
    {
        p += 1;
    }
    proof {
        assert forall|m: int| p <= m < before.len() implies !char_seq_less(#[trigger] before[m].0, key@) by {
            if m > p {
                assert(char_seq_less(before[p as int].0, before[m].0));
                lemma_char_seq_less_order(before[p as int].0, before[m].0, key@);
            }
        }
    }
    let ghost k = key@;
    let ghost v = value@;
    if p < list.len() && str_eq(list[p].0.as_str(), key.as_str()) {
        list.set(p, (key, value));
        proof {
            let after = list@.map_values(|q: (String, String)| (q.0@, q.1@));
            assert(after =~= before.update(p as int, (k, v)));
            assert forall|a: int, b: int| 0 <= a < b < after.len() implies char_seq_less((#[trigger] after[a]).0, (#[trigger] after[b]).0) by {
                assert(char_seq_less(before[a].0, before[b].0));
            }
            assert forall|m: Map<Seq<char>, Seq<char>>| lists_map(before, m) implies lists_map(after, m.insert(k, v)) by {
                assert forall|q: (Seq<char>, Seq<char>)| after.contains(q) <==> (m.insert(k, v).dom().contains(q.0) && m.insert(k, v)[q.0] == q.1) by {
                    if after.contains(q) {
                        let a = choose|a: int| 0 <= a < after.len() && after[a] == q;
                        if a != p {
                            assert(before[a] == q);
                            assert(before.contains(q));
                            if a < p {
                                assert(char_seq_less(before[a].0, before[p as int].0));
                            } else {
                                assert(char_seq_less(before[p as int].0, before[a].0));
                            }
                            lemma_char_seq_less_order(before[a].0, k, k);
                            lemma_char_seq_less_order(k, before[a].0, k);
                        }
                    }
                    if m.insert(k, v).dom().contains(q.0) && m.insert(k, v)[q.0] == q.1 {
                        if q.0 == k {
                            assert(after[p as int] == q);
                        } else {
                            assert(before.contains(q));
                            let a = choose|a: int| 0 <= a < before.len() && before[a] == q;
                            assert(a != p);
                            assert(after[a] == q);
                        }
                    }
                }
            }
        }
    } else {
        list.insert(p, (key, value));
        proof {
            let after = list@.map_values(|q: (String, String)| (q.0@, q.1@));
            assert(after =~= before.insert(p as int, (k, v)));
            assert forall|m: int| p <= m < before.len() implies char_seq_less(k, #[trigger] before[m].0) by {
                lemma_char_seq_less_order(k, before[m].0, k);
                if m == p {
                } else {
                    assert(char_seq_less(before[p as int].0, before[m].0));
                    lemma_char_seq_less_order(k, before[p as int].0, before[m].0);
                    lemma_char_seq_less_order(before[p as int].0, k, k);
                }
            }
            assert forall|a: int, b: int| 0 <= a < b < after.len() implies char_seq_less((#[trigger] after[a]).0, (#[trigger] after[b]).0) by {
                if b < p {
                    assert(char_seq_less(before[a].0, before[b].0));
                } else if b == p {
                } else if a < p {
                    assert(after[b] == before[b - 1]);
                    lemma_char_seq_less_order(before[a].0, k, before[b - 1].0);
                } else if a == p {
                    assert(after[b] == before[b - 1]);
                } else {
                    assert(after[a] == before[a - 1] && after[b] == before[b - 1]);
                    assert(char_seq_less(before[a - 1].0, before[b - 1].0));
                }
            }
            assert forall|m: Map<Seq<char>, Seq<char>>| lists_map(before, m) implies lists_map(after, m.insert(k, v)) by {
                assert(!m.dom().contains(k)) by {
                    if m.dom().contains(k) {
                        assert(before.contains((k, m[k])));
                        let a = choose|a: int| 0 <= a < before.len() && before[a] == (k, m[k]);
                        lemma_char_seq_less_order(k, k, k);
                    }
                }
                assert forall|q: (Seq<char>, Seq<char>)| after.contains(q) <==> (m.insert(k, v).dom().contains(q.0) && m.insert(k, v)[q.0] == q.1) by {
                    if after.contains(q) {
                        let a = choose|a: int| 0 <= a < after.len() && after[a] == q;
                        if a < p {
                            assert(before[a] == q);
                            assert(before.contains(q));
                            lemma_char_seq_less_order(q.0, k, k);
                        } else if a > p {
                            assert(before[a - 1] == q);
                            assert(before.contains(q));
                            lemma_char_seq_less_order(k, q.0, k);
                        }
                    }
                    if m.insert(k, v).dom().contains(q.0) && m.insert(k, v)[q.0] == q.1 {
                        if q.0 == k {
                            assert(after[p as int] == q);
                        } else {
                            assert(before.contains(q));
                            let a = choose|a: int| 0 <= a < before.len() && before[a] == q;
                            if a < p {
                                assert(after[a] == q);
                            } else {
                                assert(after[a + 1] == q);
                            }
                        }
                    }
                }
            }
        }
    }
}


/// The text a palette state value is written as: integers in decimal,
/// strings as they are; other kinds of value are left out.
pub open spec fn state_value_text(t: Tag) -> Option<Seq<char>> {
    match t {
        Tag::Byte(b) => Some(decimal(b as int)),
        Tag::Short(v) => Some(decimal(v as int)),
        Tag::Int(v) => Some(decimal(v as int)),
        Tag::Long(v) => Some(decimal(v as int)),
        Tag::Str(v) => Some(v),
        _ => None,
    }
}

/// The `(name, text)` pairs of a `states` compound, in entry order.
pub open spec fn state_pairs(es: Seq<(Seq<char>, Tag)>) -> Seq<(Seq<char>, Seq<char>)>
    decreases es.len(),
{
    if es.len() == 0 {
        Seq::empty()
    } else {
        let before = state_pairs(es.drop_last());
        match state_value_text(es.last().1) {
            Some(v) => before.push((es.last().0, v)),
            None => before,
        }
    }
}

/// `k=v` pairs joined by commas.
pub open spec fn joined(s: Seq<(Seq<char>, Seq<char>)>) -> Seq<char>
    decreases s.len(),
{
    if s.len() == 0 {
        Seq::empty()
    } else if s.len() == 1 {
        s[0].0 + seq!['='] + s[0].1
    } else {
        joined(s.drop_last()) + seq![','] + s.last().0 + seq!['='] + s.last().1
    }
}

/// The Bedrock state text of a palette entry: `name[k=v,...]`, the states
/// in increasing key order.
pub open spec fn bedrock_state_text(name: Seq<char>, states: Seq<(Seq<char>, Tag)>) -> Seq<char> {
    name + seq!['['] + joined(sorted_entries(pairs_map(state_pairs(states)))) + seq![']']
}

/// The value of the first pair with key `k`.
pub open spec fn first_value(m: Seq<(Seq<char>, Seq<char>)>, k: Seq<char>) -> Option<Seq<char>>
    decreases m.len(),
{
    if m.len() == 0 {
        None
    } else if m[0].0 == k {
        Some(m[0].1)
    } else {
        first_value(m.drop_first(), k)
    }
}

/// A map-style insert on a list of text pairs: replace the value of the
/// first pair with that key, or append.
pub open spec fn put_pair(m: Seq<(Seq<char>, Seq<char>)>, k: Seq<char>, v: Seq<char>) -> Seq<(Seq<char>, Seq<char>)>
    decreases m.len(),
{
    if m.len() == 0 {
        seq![(k, v)]
    } else if m[0].0 == k {
        m.update(0, (k, v))
    } else {
        seq![m[0]] + put_pair(m.drop_first(), k, v)
    }
}

/// The properties of a Java state text's `k=v,...` part: each field with
/// exactly one `=`, a later value of a key replacing an earlier one.
pub open spec fn java_props(fields: Seq<Seq<char>>) -> Seq<(Seq<char>, Seq<char>)>
    decreases fields.len(),
{
    if fields.len() == 0 {
        Seq::empty()
    } else {
        let before = java_props(fields.drop_last());
        let parts = split_fields(fields.last(), '=');
        if parts.len() == 2 {
            put_pair(before, parts[0], parts[1])
        } else {
            before
        }
    }
}

/// A Java state text read back as a block name and properties:
/// `name[k=v,...]`, or a bare name.
pub open spec fn parse_java_state(j: Seq<char>) -> (Seq<char>, Seq<(Seq<char>, Seq<char>)>) {
    match first_index(j, '[') {
        Some(i) => {
            let inner = j.subrange(i + 1, j.len() - 1);
            (j.subrange(0, i), if inner.len() == 0 {
                Seq::empty()
            } else {
                java_props(split_fields(inner, ','))
            })
        },
        None => (j, Seq::empty()),
    }
}

/// A Java state text the reader can take apart: a `[` in it is not its
/// last character, and its last character is ASCII.
pub open spec fn java_text_ok(j: Seq<char>) -> bool {
    match first_index(j, '[') {
        Some(i) => i + 1 <= j.len() - 1 && (j.last() as int) < 128,
        None => true,
    }
}

/// The Bedrock-to-Java state names the palette reader translates by.
pub struct StateNames {
    entries: Vec<(String, String)>,
}

impl StateNames {
    /// The translation pairs.
    pub closed spec fn pairs(&self) -> Seq<(Seq<char>, Seq<char>)> {
        self.entries@.map_values(|p: (String, String)| (p.0@, p.1@))
    }

    #[verifier::type_invariant]
    closed spec fn texts_ok(&self) -> bool {
        forall|i: int| 0 <= i < self.entries@.len() ==> java_text_ok((#[trigger] self.entries@[i]).1@)
    }

    /// No translations: every state keeps its Bedrock name.
    pub fn empty() -> (r: Self)
        ensures
            r.pairs().len() == 0,
    {
        let r = StateNames { entries: Vec::new() };
        assert(r.pairs() =~= Seq::<(Seq<char>, Seq<char>)>::empty());
        r
    }

    /// The translations given, first pair of a key winning; `None` when a
    /// Java text could not be taken apart (a `[` at its very end, or a
    /// non-ASCII last character).
    pub fn new(entries: Vec<(String, String)>) -> (r: Option<Self>)
        ensures
            match r {
                Some(m) => m.pairs() == entries@.map_values(|p: (String, String)| (p.0@, p.1@)),
                None => exists|i: int| 0 <= i < entries@.len() && !java_text_ok((#[trigger] entries@[i]).1@),
            },
    {
        let mut i: usize = 0;
        while i < entries.len()
            invariant
                i <= entries@.len(),
                forall|j: int| 0 <= j < i ==> java_text_ok((#[trigger] entries@[j]).1@),
            decreases entries@.len() - i,
        {
            if !text_ok(entries[i].1.as_str()) {
                return None;
            }
            i += 1;
        }
        Some(StateNames { entries })
    }

    /// The Java text for a Bedrock state text, if there is one.
    fn lookup(&self, key: &str) -> (r: Option<&str>)
        ensures
            match first_value(self.pairs(), key@) {
                Some(v) => r matches Some(t) && t@ == v && java_text_ok(v),
                None => r is None,
            },
    {
        proof {
            use_type_invariant(self);
        }
        let ghost ps = self.pairs();
        let mut i: usize = 0;
        assert(ps.skip(0) =~= ps);
        while i < self.entries.len()
            invariant
                i <= self.entries@.len(),
                ps == self.pairs(),
                first_value(ps, key@) == first_value(ps.skip(i as int), key@),
                forall|j: int| 0 <= j < self.entries@.len() ==> java_text_ok((#[trigger] self.entries@[j]).1@),
            decreases self.entries@.len() - i,
        {
            proof {
                assert(ps.skip(i + 1) =~= ps.skip(i as int).drop_first());
            }
            if str_eq(self.entries[i].0.as_str(), key) {
                return Some(self.entries[i].1.as_str());
            }
            i += 1;
        }
        None
    }
}

fn text_ok(j: &str) -> (r: bool)
    ensures
        r == java_text_ok(j@),
{
    match find_char(j, '[') {
        Some(i) => {
            let n = j.unicode_len();
            i + 1 <= n - 1 && (j.get_char(n - 1) as u32) < 128
        },
        None => true,
    }
}


/// The pairs of a list as text.
pub open spec fn pairs_view(l: Seq<(String, String)>) -> Seq<(Seq<char>, Seq<char>)> {
    l.map_values(|p: (String, String)| (p.0@, p.1@))
}

fn value_text(v: &NbtValue) -> (r: Option<String>)
    ensures
        match state_value_text(v.model()) {
            Some(t) => r matches Some(s) && s@ == t,
            None => r is None,
        },
{
    match v {
        NbtValue::Byte(b) => Some(decimal_string(*b as i64)),
        NbtValue::Short(x) => Some(decimal_string(*x as i64)),
        NbtValue::Int(x) => Some(decimal_string(*x as i64)),
        NbtValue::Long(x) => Some(decimal_string(*x)),
        NbtValue::String(x) => Some(x.clone()),
        _ => None,
    }
}

pub(crate) proof fn lemma_sorted_is_the_sorted_entries(l: Seq<(Seq<char>, Seq<char>)>, m: Map<Seq<char>, Seq<char>>)
    requires
        keys_increasing(l),
        lists_map(l, m),
    ensures
        l == sorted_entries(m),
{
    let s = sorted_entries(m);
    assert(keys_increasing(s) && lists_map(s, m));
    assert forall|p: (Seq<char>, Seq<char>)| l.contains(p) <==> s.contains(p) by {}
    lemma_sorted_unique(l, s);
}

/// The states of a palette entry in increasing key order.
fn sorted_states(states: &Vec<(String, NbtValue)>) -> (r: Vec<(String, String)>)
    ensures
        pairs_view(r@) == sorted_entries(pairs_map(state_pairs(crate::nbt_le::entries_model(states@)))),
{
    let ghost es = crate::nbt_le::entries_model(states@);
    let mut out: Vec<(String, String)> = Vec::new();
    let mut k: usize = 0;
    proof {
        assert(pairs_view(out@) =~= Seq::<(Seq<char>, Seq<char>)>::empty());
        assert(lists_map(pairs_view(out@), pairs_map(state_pairs(es.take(0))))) by {
            assert(es.take(0) =~= Seq::<(Seq<char>, Tag)>::empty());
            assert(pairs_map(state_pairs(es.take(0))) =~= Map::<Seq<char>, Seq<char>>::empty());
        }
    }
    while k < states.len()
        invariant
            k <= states@.len(),
            es == crate::nbt_le::entries_model(states@),
            es.len() == states@.len(),
            keys_increasing(pairs_view(out@)),
            lists_map(pairs_view(out@), pairs_map(state_pairs(es.take(k as int)))),
        decreases states@.len() - k,
    {
        proof {
            assert(es.take(k + 1).drop_last() =~= es.take(k as int));
            assert(es.take(k + 1).last() == es[k as int]);
            assert(es[k as int] == (states@[k as int].0@, states@[k as int].1.model()));
        }
        match value_text(&states[k].1) {
            Some(t) => {
                let ghost before = pairs_view(out@);
                let ghost m0 = pairs_map(state_pairs(es.take(k as int)));
                let key = states[k].0.clone();
                let ghost kv = (key@, t@);
                insert_sorted(&mut out, key, t);
                proof {
                    assert(lists_map(before, m0));
                    assert(state_pairs(es.take(k + 1)) == state_pairs(es.take(k as int)).push(kv));
                    assert(state_pairs(es.take(k as int)).push(kv).drop_last() =~= state_pairs(es.take(k as int)));
                    assert(pairs_map(state_pairs(es.take(k + 1))) == m0.insert(kv.0, kv.1));
                }
            },
            None => {
                proof {
                    assert(state_pairs(es.take(k + 1)) == state_pairs(es.take(k as int)));
                }
            },
        }
        k += 1;
    }
    proof {
        assert(es.take(k as int) =~= es);
        lemma_sorted_is_the_sorted_entries(pairs_view(out@), pairs_map(state_pairs(es)));
    }
    out
}

/// `k=v` pairs joined by commas.
fn join_pairs(l: &Vec<(String, String)>) -> (r: String)
    ensures
        r@ == joined(pairs_view(l@)),
{
    let ghost v = pairs_view(l@);
    let mut out = String::new();
    let mut i: usize = 0;
    assert(v.take(0) =~= Seq::<(Seq<char>, Seq<char>)>::empty());
    while i < l.len()
        invariant
            i <= l@.len(),
            v == pairs_view(l@),
            out@ == joined(v.take(i as int)),
        decreases l@.len() - i,
    {
        proof {
            assert(v.take(i + 1).drop_last() =~= v.take(i as int));
            assert(v.take(i + 1).last() == v[i as int]);
            reveal_strlit(",");
            reveal_strlit("=");
        }
        if i > 0 {
            out.append(",");
        }
        out.append(l[i].0.as_str());
        out.append("=");
        out.append(l[i].1.as_str());
        proof {
            if i == 0 {
                assert(v.take(1) =~= seq![v[0]]);
            }
            assert(out@ =~= joined(v.take(i + 1)));
        }
        i += 1;
    }
    assert(v.take(i as int) =~= v);
    out
}

/// Replace the value of the first pair with key `k`, or append.
pub(crate) fn put(list: &mut Vec<(String, String)>, k: &str, v: &str)
    ensures
        pairs_view(final(list)@) == put_pair(pairs_view(old(list)@), k@, v@),
{
    let ghost before = pairs_view(list@);
    let mut i: usize = 0;
    while i < list.len()
        invariant
            i <= list@.len(),
            before == pairs_view(old(list)@),
            list@ == old(list)@,
            forall|j: int| 0 <= j < i ==> before[j].0 != k@,
        decreases list@.len() - i,
    {
        if str_eq(list[i].0.as_str(), k) {
            list.set(i, (String::from_str(k), String::from_str(v)));
            proof {
                lemma_put_at(before, k@, v@, i as int);
                assert(pairs_view(list@) =~= before.update(i as int, (k@, v@)));
            }
            return;
        }
        i += 1;
    }
    list.push((String::from_str(k), String::from_str(v)));
    proof {
        lemma_put_absent(before, k@, v@);
        assert(pairs_view(list@) =~= before.push((k@, v@)));
    }
}

proof fn lemma_put_at(m: Seq<(Seq<char>, Seq<char>)>, k: Seq<char>, v: Seq<char>, i: int)
    requires
        0 <= i < m.len(),
        m[i].0 == k,
        forall|j: int| 0 <= j < i ==> m[j].0 != k,
    ensures
        put_pair(m, k, v) == m.update(i, (k, v)),
    decreases i,
{
    if i > 0 {
        lemma_put_at(m.drop_first(), k, v, i - 1);
        assert(seq![m[0]] + m.drop_first().update(i - 1, (k, v)) =~= m.update(i, (k, v)));
    }
}

proof fn lemma_put_absent(m: Seq<(Seq<char>, Seq<char>)>, k: Seq<char>, v: Seq<char>)
    requires
        forall|j: int| 0 <= j < m.len() ==> m[j].0 != k,
    ensures
        put_pair(m, k, v) == m.push((k, v)),
    decreases m.len(),
{
    if m.len() > 0 {
        lemma_put_absent(m.drop_first(), k, v);
        assert(seq![m[0]] + m.drop_first().push((k, v)) =~= m.push((k, v)));
    } else {
        assert(seq![(k, v)] =~= m.push((k, v)));
    }
}

/// The properties of a Java state text hold every key once.
proof fn lemma_java_props_unique(fields: Seq<Seq<char>>)
    ensures
        crate::chunk::keys_unique(java_props(fields)),
    decreases fields.len(),
{
    if fields.len() > 0 {
        lemma_java_props_unique(fields.drop_last());
        let parts = split_fields(fields.last(), '=');
        if parts.len() == 2 {
            crate::chunk::lemma_put_keeps_keys_unique(java_props(fields.drop_last()), parts[0], parts[1]);
        }
    }
}

/// A Java state text read back into a block state.
fn parse_java(j: &str) -> (r: BlockState)
    requires
        java_text_ok(j@),
    ensures
        (r.name@, r.props()) == parse_java_state(j@),
        r.well_formed(),
{
    match find_char(j, '[') {
        Some(i) => {
            let n = j.unicode_len();
            let name = j.substring_char(0, i);
            let inner = j.substring_char(i + 1, n - 1);
            let mut props: Vec<(String, String)> = Vec::new();
            if inner.unicode_len() > 0 {
                let fields = split_str(inner, ',');
                let ghost fs = split_fields(inner@, ',');
                let mut k: usize = 0;
                assert(fs.take(0) =~= Seq::<Seq<char>>::empty());
                assert(pairs_view(props@) =~= Seq::<(Seq<char>, Seq<char>)>::empty());
                while k < fields.len()
                    invariant
                        k <= fields@.len(),
                        fields@.len() == fs.len(),
                        forall|a: int| 0 <= a < fields@.len() ==> (#[trigger] fields@[a])@ == fs[a],
                        pairs_view(props@) == java_props(fs.take(k as int)),
                    decreases fields@.len() - k,
                {
                    proof {
                        assert(fs.take(k + 1).drop_last() =~= fs.take(k as int));
                        assert(fs.take(k + 1).last() == fs[k as int]);
                    }
                    let parts = split_str(fields[k], '=');
                    if parts.len() == 2 {
                        put(&mut props, parts[0], parts[1]);
                    }
                    k += 1;
                }
                assert(fs.take(k as int) =~= fs);
            } else {
                assert(pairs_view(props@) =~= Seq::<(Seq<char>, Seq<char>)>::empty());
            }
            let r = BlockState { name: String::from_str(name), properties: props };
            assert(r.props() == pairs_view(props@));
            proof {
                if inner@.len() > 0 {
                    lemma_java_props_unique(split_fields(inner@, ','));
                }
            }
            r
        },
        None => {
            let r = BlockState { name: String::from_str(j), properties: Vec::new() };
            assert(r.props() =~= Seq::<(Seq<char>, Seq<char>)>::empty());
            r
        },
    }
}


/// Why a subchunk payload could not be decoded.
#[derive(Debug)]
pub enum BedrockError {
    /// A subchunk payload used an unsupported format.
    Unsupported(String),
    /// A payload was malformed.
    Malformed(String),
}

/// A decoding failure, with its message as characters.
pub ghost enum Fault {
    Unsupported(Seq<char>),
    Malformed(Seq<char>),
}

impl BedrockError {
    /// The failure this error reports.
    pub open spec fn fault(&self) -> Fault {
        match self {
            BedrockError::Unsupported(m) => Fault::Unsupported(m@),
            BedrockError::Malformed(m) => Fault::Malformed(m@),
        }
    }
}

/// A block state as its name and properties.
pub open spec fn state_model(b: BlockState) -> (Seq<char>, Seq<(Seq<char>, Seq<char>)>) {
    (b.name@, b.props())
}

/// The block state a palette entry stands for: its `name`, and its
/// `states` in increasing key order, written `name[k=v,...]` and
/// translated to the Java state text when the translations know it, then
/// read back as a name and properties.
pub open spec fn entry_state(t: Tag, names: Seq<(Seq<char>, Seq<char>)>) -> Result<
    (Seq<char>, Seq<(Seq<char>, Seq<char>)>),
    Seq<char>,
> {
    match t {
        Tag::Compound(es) => match tag_get(t, "name"@) {
            Some(Tag::Str(n)) => {
                let states = match tag_get(t, "states"@) {
                    Some(Tag::Compound(ss)) => ss,
                    _ => Seq::empty(),
                };
                let b = bedrock_state_text(n, states);
                let j = match first_value(names, b) {
                    Some(v) => v,
                    None => b,
                };
                Ok(parse_java_state(j))
            },
            _ => Err("palette entry has no name"@),
        },
        _ => Err("palette entry not compound"@),
    }
}

proof fn lemma_first_index_at_most(s: Seq<char>, c: char, j: int)
    requires
        0 <= j < s.len(),
        s[j] == c,
    ensures
        first_index(s, c) matches Some(i) && 0 <= i <= j,
    decreases j,
{
    if j > 0 && s[0] != c {
        lemma_first_index_at_most(s.drop_first(), c, j - 1);
    }
}

proof fn lemma_bedrock_text_ok(n: Seq<char>, states: Seq<(Seq<char>, Tag)>)
    ensures
        java_text_ok(bedrock_state_text(n, states)),
{
    let b = bedrock_state_text(n, states);
    assert(b[n.len() as int] == '[');
    lemma_first_index_at_most(b, '[', n.len() as int);
    assert(b.last() == ']');
}

/// Decode one palette entry into a block state.
fn palette_entry(entry: &NbtValue, names: &StateNames) -> (r: Result<BlockState, BedrockError>)
    ensures
        r matches Ok(b) ==> b.well_formed(),
        match entry_state(entry.model(), names.pairs()) {
            Ok(st) => r matches Ok(b) && state_model(b) == st,
            Err(m) => r matches Err(e) && e.fault() == Fault::Malformed(m),
        },
{
    proof {
        reveal_strlit("palette entry not compound");
        reveal_strlit("palette entry has no name");
    }
    let compound = match entry.as_compound() {
        Some(c) => c,
        None => return Err(BedrockError::Malformed(String::from_str("palette entry not compound"))),
    };
    let name: &str = match compound.lookup("name") {
        Some(v) => match v.as_str() {
            Some(n) => n,
            None => return Err(BedrockError::Malformed(String::from_str("palette entry has no name"))),
        },
        None => return Err(BedrockError::Malformed(String::from_str("palette entry has no name"))),
    };
    let sorted: Vec<(String, String)> = match compound.lookup("states") {
        Some(NbtValue::Compound(states)) => sorted_states(&states.entries),
        _ => Vec::new(),
    };
    let ghost states_model = match tag_get(entry.model(), "states"@) {
        Some(Tag::Compound(ss)) => ss,
        _ => Seq::<(Seq<char>, Tag)>::empty(),
    };
    proof {
        if !(tag_get(entry.model(), "states"@) matches Some(Tag::Compound(_))) {
            assert(state_pairs(states_model) =~= Seq::<(Seq<char>, Seq<char>)>::empty());
            assert(pairs_map(state_pairs(states_model)) =~= Map::<Seq<char>, Seq<char>>::empty());
            lemma_sorted_is_the_sorted_entries(pairs_view(sorted@), pairs_map(state_pairs(states_model)));
        }
        assert(pairs_view(sorted@) == sorted_entries(pairs_map(state_pairs(states_model))));
    }
    let mut text = String::from_str(name);
    text.append("[");
    let joined_text = join_pairs(&sorted);
    text.append(joined_text.as_str());
    text.append("]");
    proof {
        reveal_strlit("[");
        reveal_strlit("]");
        assert(text@ =~= bedrock_state_text(name@, states_model));
        lemma_bedrock_text_ok(name@, states_model);
    }
    let state = match names.lookup(text.as_str()) {
        Some(j) => parse_java(j),
        None => parse_java(text.as_str()),
    };
    Ok(state)
}

/// The palette: `count` consecutive LE NBT roots at the start of `r`,
/// each a palette entry; with the bytes they take, or the message of the
/// first failure.
pub open spec fn spec_palette(r: Seq<u8>, count: nat, names: Seq<(Seq<char>, Seq<char>)>) -> Result<
    (Seq<(Seq<char>, Seq<(Seq<char>, Seq<char>)>)>, int),
    Seq<char>,
>
    decreases count,
{
    if count == 0 {
        Ok((Seq::empty(), 0))
    } else {
        match spec_palette(r, (count - 1) as nat, names) {
            Err(m) => Err(m),
            Ok((ps, c)) => match spec_root(r.skip(c)) {
                Err((e, _)) => Err(nbt_error_text(e)),
                Ok((t, n)) => match entry_state(t, names) {
                    Err(m) => Err(m),
                    Ok(st) => Ok((ps.push(st), c + n)),
                },
            },
        }
    }
}

/// What a paletted block storage decodes to: its palette, its bits per
/// index, and the bytes it takes; or why it cannot be decoded.
pub open spec fn spec_storage(b: Seq<u8>, names: Seq<(Seq<char>, Seq<char>)>) -> Result<
    (Seq<(Seq<char>, Seq<(Seq<char>, Seq<char>)>)>, nat, int),
    Fault,
> {
    if b.len() == 0 {
        Err(Fault::Malformed("empty block storage"@))
    } else {
        let header = b[0];
        let bits = (header / 2) as nat;
        if header % 2 == 1 {
            Err(Fault::Unsupported("runtime-id palettes (need the game's runtime table)"@))
        } else if bits > 16 {
            Err(Fault::Unsupported(decimal(bits as int) + " bits per block"@))
        } else {
            let byte_len: int = if bits == 0 {
                0
            } else {
                4 * index_words(bits) as int
            };
            if b.len() - 1 < byte_len {
                Err(Fault::Malformed("truncated block indices"@))
            } else {
                let rest = b.skip(1 + byte_len);
                if rest.len() < 4 {
                    Err(Fault::Malformed("truncated palette"@))
                } else {
                    match spec_palette(rest.skip(4), le32(rest, 0) as nat, names) {
                        Err(m) => Err(Fault::Malformed(m)),
                        Ok((ps, c)) => Ok((ps, bits, 1 + byte_len + 4 + c)),
                    }
                }
            }
        }
    }
}

/// The palette as name/properties pairs.
pub open spec fn palette_model(p: Seq<BlockState>) -> Seq<(Seq<char>, Seq<(Seq<char>, Seq<char>)>)> {
    p.map_values(|b: BlockState| state_model(b))
}


proof fn lemma_palette_error_sticks(r: Seq<u8>, k: nat, n: nat, names: Seq<(Seq<char>, Seq<char>)>)
    requires
        k <= n,
        spec_palette(r, k, names) is Err,
    ensures
        spec_palette(r, n, names) == spec_palette(r, k, names),
    decreases n - k,
{
    if k < n {
        lemma_palette_error_sticks(r, k, (n - 1) as nat, names);
    }
}

/// The indices a storage decodes to: none without index bits, else the
/// 4096 indices of its words in section order.
pub open spec fn indices_match(idx: Seq<u16>, b: Seq<u8>, bits: nat) -> bool {
    if bits == 0 {
        idx.len() == 0
    } else {
        &&& idx.len() == 4096
        &&& forall|i: int| 0 <= i < 4096 ==> idx[#[trigger] xzy_to_yzx(i)] == storage_index(b, bits, i)
    }
}

/// Read the next palette entry from a cursor.
fn next_entry(cursor: &mut NbtCursor, names: &StateNames) -> (r: Result<BlockState, BedrockError>)
    ensures
        r matches Ok(b) ==> b.well_formed(),
        final(cursor).data() == old(cursor).data(),
        0 <= final(cursor).offset() <= final(cursor).data().len(),
        match spec_root(old(cursor).rest()) {
            Err((e, _)) => r matches Err(x) && x.fault() == Fault::Malformed(nbt_error_text(e)),
            Ok((t, n)) => final(cursor).offset() == old(cursor).offset() + n && match entry_state(t, names.pairs()) {
                Ok(st) => r matches Ok(b) && state_model(b) == st,
                Err(m) => r matches Err(x) && x.fault() == Fault::Malformed(m),
            },
        },
{
    match cursor.read_root() {
        Err(e) => Err(BedrockError::Malformed(e.message())),
        Ok(v) => palette_entry(&v, names),
    }
}

/// Read `count` palette entries one after another from `body`; returns them
/// and how many bytes they took.
fn read_palette(body: &[u8], count: u32, names: &StateNames) -> (r: Result<(Vec<BlockState>, usize), BedrockError>)
    ensures
        r matches Ok((p, _)) ==> forall|j: int| 0 <= j < p@.len() ==> (#[trigger] p@[j]).well_formed(),
        match spec_palette(body@, count as nat, names.pairs()) {
            Ok((ps, c)) => r matches Ok((p, n)) && palette_model(p@) == ps && n == c && n <= body@.len(),
            Err(m) => r matches Err(e) && e.fault() == Fault::Malformed(m),
        },
{
    let mut cursor = NbtCursor::new(body);
    let mut palette: Vec<BlockState> = Vec::new();
    let mut k: u32 = 0;
    let mut failed: Option<BedrockError> = None;
    assert(palette_model(palette@) =~= Seq::<(Seq<char>, Seq<(Seq<char>, Seq<char>)>)>::empty());
    while k < count && failed.is_none()
        invariant
            k <= count,
            forall|j: int| 0 <= j < palette@.len() ==> (#[trigger] palette@[j]).well_formed(),
            cursor.data() == body@,
            0 <= cursor.offset() <= body@.len(),
            failed is None ==> spec_palette(body@, k as nat, names.pairs()) == Ok::<(Seq<(Seq<char>, Seq<(Seq<char>, Seq<char>)>)>, int), Seq<char>>((palette_model(palette@), cursor.offset())),
            failed matches Some(e) ==> (spec_palette(body@, count as nat, names.pairs()) matches Err(m)
                && e.fault() == Fault::Malformed(m)),
        decreases count - k + if failed is None { 1int } else { 0int },
    {
        let ghost before_palette = palette_model(palette@);
        let entry = next_entry(&mut cursor, names);
        match entry {
            Err(e) => {
                proof {
                    lemma_palette_error_sticks(body@, (k + 1) as nat, count as nat, names.pairs());
                }
                failed = Some(e);
            },
            Ok(st) => {
                palette.push(st);
                proof {
                    assert(palette_model(palette@) =~= before_palette.push(state_model(st)));
                }
                k += 1;
            },
        }
    }
    if let Some(e) = failed {
        return Err(e);
    }
    Ok((palette, cursor.position()))
}

/// Decode one paletted block storage: header byte, bit-packed indices, then
/// an LE NBT palette. Returns `(palette, indices, bytes_consumed)`.
pub fn decode_block_storage(bytes: &[u8], names: &StateNames) -> (r: Result<(Vec<BlockState>, Vec<u16>, usize), BedrockError>)
    ensures
        match spec_storage(bytes@, names.pairs()) {
            Ok((ps, bits, c)) => r matches Ok((p, idx, n)) && palette_model(p@) == ps && n == c
                && indices_match(idx@, bytes@, bits),
            Err(f) => r matches Err(e) && e.fault() == f,
        },
        r matches Ok((_, _, n)) ==> n <= bytes@.len(),
        r matches Ok((p, _, _)) ==> forall|j: int| 0 <= j < p@.len() ==> (#[trigger] p@[j]).well_formed(),
{
    proof {
        reveal_strlit("empty block storage");
        reveal_strlit("runtime-id palettes (need the game's runtime table)");
        reveal_strlit(" bits per block");
        reveal_strlit("truncated block indices");
        reveal_strlit("truncated palette");
    }
    if bytes.len() == 0 {
        return Err(BedrockError::Malformed(String::from_str("empty block storage")));
    }
    let header = bytes[0];
    let bits: usize = (header / 2) as usize;
    if header % 2 == 1 {
        return Err(
            BedrockError::Unsupported(String::from_str("runtime-id palettes (need the game's runtime table)")),
        );
    }
    if bits > 16 {
        let mut m = decimal_string(bits as i64);
        m.append(" bits per block");
        return Err(BedrockError::Unsupported(m));
    }
    let mut byte_len: usize = 0;
    if bits > 0 {
        let per = 32 / bits;
        assert(per >= 2) by (nonlinear_arith)
            requires
                per == 32int / (bits as int),
                1 <= bits <= 16,
        ;
        let words = (4096 + per - 1) / per;
        assert(words == index_words(bits as nat));
        assert(words <= 4096) by (nonlinear_arith)
            requires
                words == (4096 + per - 1) / (per as int),
                per >= 1,
        ;
        byte_len = words * 4;
    }
    if bytes.len() - 1 < byte_len {
        return Err(BedrockError::Malformed(String::from_str("truncated block indices")));
    }
    let rest_start = 1 + byte_len;
    let n = bytes.len();
    if n - rest_start < 4 {
        return Err(BedrockError::Malformed(String::from_str("truncated palette")));
    }
    let ghost rest = bytes@.skip(rest_start as int);
    let count = le_word(bytes, rest_start);
    proof {
        assert(count == le32(rest, 0));
    }
    let body = &bytes[rest_start + 4..n];
    assert(body@ == rest.skip(4));
    let (palette, used) = match read_palette(body, count, names) {
        Err(e) => {
            return Err(e);
        },
        Ok(x) => x,
    };
    let consumed = rest_start + 4 + used;
    let indices = if bits == 0 {
        Vec::new()
    } else {
        unpack_words(bytes, bits)
    };
    Ok((palette, indices, consumed))
}


/// The block storages of a subchunk, read one after another from byte
/// `start`: the first one's palette, bits and position, and where the last
/// ends; or the first failure.
pub open spec fn spec_layers(b: Seq<u8>, start: int, n: nat, names: Seq<(Seq<char>, Seq<char>)>) -> Result<
    (Option<(Seq<(Seq<char>, Seq<(Seq<char>, Seq<char>)>)>, nat, int)>, int),
    Fault,
>
    decreases n,
{
    if n == 0 {
        Ok((None, start))
    } else {
        match spec_layers(b, start, (n - 1) as nat, names) {
            Err(f) => Err(f),
            Ok((first, off)) => match spec_storage(b.skip(off), names) {
                Err(f) => Err(f),
                Ok((ps, bits, c)) => Ok(
                    (
                        if n == 1 {
                            Some((ps, bits, off))
                        } else {
                            first
                        },
                        off + c,
                    ),
                ),
            },
        }
    }
}

/// What a SubChunkPrefix payload decodes to: the first storage's palette,
/// bits per index and position; or why it cannot be decoded.
pub open spec fn spec_subchunk(b: Seq<u8>, names: Seq<(Seq<char>, Seq<char>)>) -> Result<
    (Seq<(Seq<char>, Seq<(Seq<char>, Seq<char>)>)>, nat, int),
    Fault,
> {
    if b.len() < 2 {
        Err(Fault::Malformed("subchunk payload too short"@))
    } else if b[0] != 8 && b[0] != 9 {
        Err(Fault::Unsupported("subchunk storage version "@ + decimal(b[0] as int)))
    } else {
        let start: int = if b[0] == 9 {
            3
        } else {
            2
        };
        match spec_layers(b, start, b[1] as nat, names) {
            Err(f) => Err(f),
            Ok((None, _)) => Err(Fault::Malformed("subchunk has no layers"@)),
            Ok((Some(first), _)) => Ok(first),
        }
    }
}

proof fn lemma_layers_error_sticks(b: Seq<u8>, start: int, k: nat, n: nat, names: Seq<(Seq<char>, Seq<char>)>)
    requires
        k <= n,
        spec_layers(b, start, k, names) is Err,
    ensures
        spec_layers(b, start, n, names) == spec_layers(b, start, k, names),
    decreases n - k,
{
    if k < n {
        lemma_layers_error_sticks(b, start, k, (n - 1) as nat, names);
    }
}

/// Decode one SubChunkPrefix payload (v8/v9) into a section. Only the
/// first layer holds terrain (extra layers are waterlogged blocks); every
/// layer is still read, and a failing one fails the payload. Version 9
/// repeats the subchunk Y in the payload; the Y given with the record's
/// key is the one used.
pub fn decode_subchunk(bytes: &[u8], key_sub_y: i8, names: &StateNames) -> (r: Result<SectionData, BedrockError>)
    requires
        !(bytes@.len() == 2 && bytes@[0] == 9 && bytes@[1] > 0),
    ensures
        match spec_subchunk(bytes@, names.pairs()) {
            Ok((ps, bits, start)) => r matches Ok(sec) && sec.y == key_sub_y && palette_model(sec.palette@) == ps
                && indices_match(sec.indices@, bytes@.skip(start), bits),
            Err(f) => r matches Err(e) && e.fault() == f,
        },
        r matches Ok(sec) ==> crate::chunk::section_states_well_formed(sec),
{
    proof {
        reveal_strlit("subchunk payload too short");
        reveal_strlit("subchunk storage version ");
        reveal_strlit("subchunk has no layers");
    }
    if bytes.len() < 2 {
        return Err(BedrockError::Malformed(String::from_str("subchunk payload too short")));
    }
    let version = bytes[0];
    if version != 8 && version != 9 {
        let mut m = String::from_str("subchunk storage version ");
        let d = decimal_string(version as i64);
        m.append(d.as_str());
        return Err(BedrockError::Unsupported(m));
    }
    let layers = bytes[1];
    let mut offset: usize = 2;
    if version == 9 {
        offset += 1;
    }
    let ghost start = offset as int;
    let n = bytes.len();
    let mut result: Option<(Vec<BlockState>, Vec<u16>)> = None;
    let ghost mut first_at: int = 0;
    let ghost mut first_bits: nat = 0;
    let mut failed: Option<BedrockError> = None;
    let mut layer: u8 = 0;
    while layer < layers && failed.is_none()
        invariant
            layer <= layers,
            n == bytes@.len(),
            layers == bytes@[1],
            layers > 0 ==> offset <= n,
            result matches Some((p, _)) ==> forall|j: int| 0 <= j < p@.len() ==> (#[trigger] p@[j]).well_formed(),
            offset <= n || layer == 0,
            failed is None ==> (spec_layers(bytes@, start, layer as nat, names.pairs()) matches Ok((first, end))
                && end == offset && match first {
                None => layer == 0 && result is None,
                Some((ps, bits, at)) => (result matches Some((p, idx)) && palette_model(p@) == ps
                    && indices_match(idx@, bytes@.skip(at), bits)),
            }),
            failed matches Some(e) ==> (spec_layers(bytes@, start, layers as nat, names.pairs()) matches Err(f)
                && e.fault() == f),
        decreases layers - layer + if failed is None { 1int } else { 0int },
    {
        let slice = &bytes[offset..n];
        let ghost off = offset as int;
        assert(slice@ == bytes@.skip(off));
        match decode_block_storage(slice, names) {
            Err(e) => {
                proof {
                    lemma_layers_error_sticks(bytes@, start, (layer + 1) as nat, layers as nat, names.pairs());
                }
                failed = Some(e);
            },
            Ok((palette, indices, consumed)) => {
                if layer == 0 {
                    result = Some((palette, indices));
                }
                offset = offset + consumed;
                layer += 1;
            },
        }
    }
    if let Some(e) = failed {
        return Err(e);
    }
    match result {
        Some((palette, indices)) => Ok(SectionData { y: key_sub_y, palette, indices }),
        None => Err(BedrockError::Malformed(String::from_str("subchunk has no layers"))),
    }
}

} // verus!
