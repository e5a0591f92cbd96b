//! Assembling Bedrock chunks from the SubChunkPrefix records of a world's
//! database: the records near a chunk are grouped by chunk, ordered by
//! subchunk Y and decoded; undecodable subchunks are skipped.

use vstd::prelude::*;
use crate::bedrock::{decode_subchunk, indices_match, palette_model, spec_subchunk, StateNames};
use crate::chunk::{Chunk, SectionData};

verus! {

/// One SubChunkPrefix record: chunk X, chunk Z, subchunk Y and payload.
pub type SubchunkRecord = (i32, i32, i8, Vec<u8>);

/// A payload `decode_subchunk` accepts (a version 9 payload of two bytes
/// announcing layers would be read past its end).
pub open spec fn readable(b: Seq<u8>) -> bool {
    !(b.len() == 2 && b[0] == 9 && b[1] > 0)
}

/// `|a - b|`.
pub open spec fn dist(a: int, b: int) -> int {
    if a >= b {
        a - b
    } else {
        b - a
    }
}

/// The record lies within `radius` chunks of `(cx, cz)` on both axes.
pub open spec fn record_near(r: SubchunkRecord, cx: i32, cz: i32, radius: i32) -> bool {
    dist(r.0 as int, cx as int) <= radius && dist(r.1 as int, cz as int) <= radius
}

/// The near records of chunk `k`, in record order, as `(y, payload)`.
pub open spec fn key_records(rs: Seq<SubchunkRecord>, cx: i32, cz: i32, radius: i32, k: (i32, i32)) -> Seq<
    (i8, Seq<u8>),
>
    decreases rs.len(),
{
    if rs.len() == 0 {
        Seq::empty()
    } else {
        let before = key_records(rs.drop_last(), cx, cz, radius, k);
        let r = rs.last();
        if record_near(r, cx, cz, radius) && (r.0, r.1) == k {
            before.push((r.2, r.3@))
        } else {
            before
        }
    }
}

/// Where a record of subchunk `y` goes in a list sorted by Y: after every
/// record whose Y is at most `y`.
pub open spec fn split_point(s: Seq<(i8, Seq<u8>)>, y: i8) -> int
    decreases s.len(),
{
    if s.len() == 0 {
        0
    } else if s.last().0 <= y {
        s.len() as int
    } else {
        split_point(s.drop_last(), y)
    }
}

/// The records sorted by Y, records of equal Y in their given order.
pub open spec fn sort_by_y(s: Seq<(i8, Seq<u8>)>) -> Seq<(i8, Seq<u8>)>
    decreases s.len(),
{
    if s.len() == 0 {
        Seq::empty()
    } else {
        let sorted = sort_by_y(s.drop_last());
        sorted.insert(split_point(sorted, s.last().0), s.last())
    }
}

/// The records whose payload decodes.
pub open spec fn decodable(s: Seq<(i8, Seq<u8>)>, names: Seq<(Seq<char>, Seq<char>)>) -> Seq<(i8, Seq<u8>)>
    decreases s.len(),
{
    if s.len() == 0 {
        Seq::empty()
    } else {
        let before = decodable(s.drop_last(), names);
        if spec_subchunk(s.last().1, names) is Ok {
            before.push(s.last())
        } else {
            before
        }
    }
}

/// The subchunks chunk `k` is built from: its near records, sorted by Y,
/// those that decode.
pub open spec fn chunk_records(
    rs: Seq<SubchunkRecord>,
    cx: i32,
    cz: i32,
    radius: i32,
    k: (i32, i32),
    names: Seq<(Seq<char>, Seq<char>)>,
) -> Seq<(i8, Seq<u8>)> {
    decodable(sort_by_y(key_records(rs, cx, cz, radius, k)), names)
}

/// `sec` is what record `(y, b)` decodes to.
pub open spec fn section_decodes(sec: SectionData, rec: (i8, Seq<u8>), names: Seq<(Seq<char>, Seq<char>)>) -> bool {
    match spec_subchunk(rec.1, names) {
        Ok((ps, bits, start)) => sec.y == rec.0 && palette_model(sec.palette@) == ps && indices_match(
            sec.indices@,
            rec.1.skip(start),
            bits,
        ),
        Err(_) => false,
    }
}

/// Chunk keys in order: by X, then by Z.
pub open spec fn key_less(a: (i32, i32), b: (i32, i32)) -> bool {
    a.0 < b.0 || (a.0 == b.0 && a.1 < b.1)
}

/// Whether `(x, z)` lies within `radius` of `(cx, cz)` on both axes.
fn is_near(x: i32, z: i32, cx: i32, cz: i32, radius: i32) -> (r: bool)
    ensures
        r == (dist(x as int, cx as int) <= radius && dist(z as int, cz as int) <= radius),
{
    let dx: i64 = if x >= cx { x as i64 - cx as i64 } else { cx as i64 - x as i64 };
    let dz: i64 = if z >= cz { z as i64 - cz as i64 } else { cz as i64 - z as i64 };
    dx <= radius as i64 && dz <= radius as i64
}

/// Insert a key into a strictly increasing list, unless it is there.
#[verifier::spinoff_prover]
fn insert_key(keys: &mut Vec<(i32, i32)>, k: (i32, i32))
    requires
        forall|a: int, b: int| 0 <= a < b < old(keys)@.len() ==> key_less(old(keys)@[a], old(keys)@[b]),
    ensures
        forall|a: int, b: int| 0 <= a < b < final(keys)@.len() ==> key_less(final(keys)@[a], final(keys)@[b]),
        forall|q: (i32, i32)| final(keys)@.contains(q) <==> (old(keys)@.contains(q) || q == k),
{
    let mut p: usize = 0;
    while p < keys.len() && key_less_exec(keys[p], k)
        invariant
            p <= keys@.len(),
            keys@ == old(keys)@,
            forall|m: int| 0 <= m < p ==> key_less(keys@[m], k),
        decreases keys@.len() - p,
    {
        p += 1;
    }
    if p < keys.len() && keys[p].0 == k.0 && keys[p].1 == k.1 {
        assert(keys@[p as int] == k);
        assert(old(keys)@.contains(k));
        return;
    }
    let ghost before = keys@;
    keys.insert(p, k);
    assert(keys@ == before.insert(p as int, k));
    assert(keys@.len() == before.len() + 1);
    proof {
        assert forall|m: int| p <= m < before.len() implies key_less(k, #[trigger] before[m]) by {
            if m > p {
                assert(key_less(before[p as int], before[m]));
            }
        }
        assert forall|q: (i32, i32)| keys@.contains(q) <==> (before.contains(q) || q == k) by {
            if keys@.contains(q) {
                let i = choose|i: int| 0 <= i < keys@.len() && keys@[i] == q;
                if i < p {
                    assert(before[i] == q);
                } else if i > p {
                    assert(before[i - 1] == q);
                }
            }
            if before.contains(q) {
                let i = choose|i: int| 0 <= i < before.len() && before[i] == q;
                if i < p {
                    assert(keys@[i] == q);
                } else {
                    assert(keys@[i + 1] == q);
                }
            }
            if q == k {
                assert(keys@[p as int] == q);
            }
        }
        assert forall|a: int, b: int| 0 <= a < b < keys@.len() implies key_less(keys@[a], keys@[b]) by {
            if b < p {
                assert(keys@[a] == before[a] && keys@[b] == before[b]);
            } else if b == p {
                assert(keys@[a] == before[a]);
            } else if a < p {
                assert(keys@[a] == before[a] && keys@[b] == before[b - 1]);
            } else if a == p {
                assert(keys@[b] == before[b - 1]);
            } else {
                assert(keys@[a] == before[a - 1] && keys@[b] == before[b - 1]);
            }
        }
        assert(before == old(keys)@);
        assert(forall|q: (i32, i32)| keys@.contains(q) <==> (old(keys)@.contains(q) || q == k));
    }
}

/// `key_less` on executable keys.
fn key_less_exec(a: (i32, i32), b: (i32, i32)) -> (r: bool)
    ensures
        r == key_less(a, b),
{
    a.0 < b.0 || (a.0 == b.0 && a.1 < b.1)
}

/// The near records of chunk `k`, sorted by Y (stable).
fn sorted_records<'a>(records: &'a [SubchunkRecord], cx: i32, cz: i32, radius: i32, k: (i32, i32)) -> (r: Vec<
    (i8, &'a [u8]),
>)
    requires
        forall|i: int| 0 <= i < records@.len() ==> readable(#[trigger] records@[i].3@),
    ensures
        r@.map_values(|e: (i8, &[u8])| (e.0, e.1@)) == sort_by_y(key_records(records@, cx, cz, radius, k)),
        forall|j: int| 0 <= j < r@.len() ==> readable(#[trigger] r@[j].1@),
{
    let mut out: Vec<(i8, &'a [u8])> = Vec::new();
    let mut i: usize = 0;
    let ghost rs = records@;
    assert(rs.take(0) =~= Seq::<SubchunkRecord>::empty());
    assert(out@.map_values(|e: (i8, &[u8])| (e.0, e.1@)) =~= Seq::<(i8, Seq<u8>)>::empty());
    while i < records.len()
        invariant
            i <= rs.len(),
            rs == records@,
            forall|q: int| 0 <= q < rs.len() ==> readable(#[trigger] rs[q].3@),
            out@.map_values(|e: (i8, &[u8])| (e.0, e.1@)) == sort_by_y(key_records(rs.take(i as int), cx, cz, radius, k)),
            forall|j: int| 0 <= j < out@.len() ==> readable(#[trigger] out@[j].1@),
        decreases rs.len() - i,
    {
        let ghost prefix = rs.take(i + 1);
        assert(prefix.drop_last() =~= rs.take(i as int));
        assert(prefix.last() == rs[i as int]);
        let r = &records[i];
        let ghost kr0 = key_records(rs.take(i as int), cx, cz, radius, k);
        if is_near(r.0, r.1, cx, cz, radius) && r.0 == k.0 && r.1 == k.1 {
            let ghost view = out@.map_values(|e: (i8, &[u8])| (e.0, e.1@));
            let y = r.2;
            let mut p = out.len();
            assert(view.take(p as int) =~= view);
            while p > 0 && out[p - 1].0 > y
                invariant
                    p <= out@.len(),
                    view == out@.map_values(|e: (i8, &[u8])| (e.0, e.1@)),
                    split_point(view, y) == split_point(view.take(p as int), y),
                decreases p,
            {
                assert(view.take(p as int).drop_last() =~= view.take(p - 1));
                assert(view.take(p as int).last() == view[p - 1]);
                p -= 1;
            }
            proof {
                if p > 0 {
                    assert(view.take(p as int).last() == view[p - 1]);
                } else {
                    assert(view.take(0) =~= Seq::<(i8, Seq<u8>)>::empty());
                }
                assert(split_point(view, y) == p);
            }
            let bytes: &'a [u8] = r.3.as_slice();
            out.insert(p, (y, bytes));
            proof {
                assert(out@.map_values(|e: (i8, &[u8])| (e.0, e.1@)) =~= view.insert(p as int, (y, r.3@)));
                let kr1 = key_records(prefix, cx, cz, radius, k);
                assert(kr1 == kr0.push((y, r.3@)));
                assert(kr1.drop_last() =~= kr0);
                assert(sort_by_y(kr1) == view.insert(split_point(view, y), (y, r.3@)));
                assert forall|j: int| 0 <= j < out@.len() implies readable(#[trigger] out@[j].1@) by {
                    if j == p {
                        assert(readable(rs[i as int].3@));
                    }
                }
            }
        } else {
            assert(key_records(prefix, cx, cz, radius, k) == kr0);
        }
        i += 1;
    }
    assert(rs.take(rs.len() as int) =~= rs);
    out
}

/// Decode the records that decode, in order.
fn decode_records(sorted: &Vec<(i8, &[u8])>, names: &StateNames) -> (r: Vec<SectionData>)
    requires
        forall|j: int| 0 <= j < sorted@.len() ==> readable(#[trigger] sorted@[j].1@),
    ensures
        r@.len() == decodable(sorted@.map_values(|e: (i8, &[u8])| (e.0, e.1@)), names.pairs()).len(),
        forall|j: int|
            0 <= j < r@.len() ==> section_decodes(
                #[trigger] r@[j],
                decodable(sorted@.map_values(|e: (i8, &[u8])| (e.0, e.1@)), names.pairs())[j],
                names.pairs(),
            ),
        crate::chunk::states_well_formed(r@),
{
    let ghost s = sorted@.map_values(|e: (i8, &[u8])| (e.0, e.1@));
    let mut out: Vec<SectionData> = Vec::new();
    let mut i: usize = 0;
    assert(s.take(0) =~= Seq::<(i8, Seq<u8>)>::empty());
    while i < sorted.len()
        invariant
            i <= sorted@.len(),
            s == sorted@.map_values(|e: (i8, &[u8])| (e.0, e.1@)),
            forall|j: int| 0 <= j < sorted@.len() ==> readable(#[trigger] sorted@[j].1@),
            out@.len() == decodable(s.take(i as int), names.pairs()).len(),
            crate::chunk::states_well_formed(out@),
            forall|j: int|
                0 <= j < out@.len() ==> section_decodes(
                    #[trigger] out@[j],
                    decodable(s.take(i as int), names.pairs())[j],
                    names.pairs(),
                ),
        decreases sorted@.len() - i,
    {
        let ghost prefix = s.take(i + 1);
        assert(prefix.drop_last() =~= s.take(i as int));
        assert(prefix.last() == s[i as int]);
        let ghost before = decodable(s.take(i as int), names.pairs());
        let (y, bytes) = sorted[i];
        assert(readable(sorted@[i as int].1@));
        match decode_subchunk(bytes, y, names) {
            Ok(sec) => {
                let ghost obefore = out@;
                out.push(sec);
                proof {
                    assert(out@ == obefore.push(sec));
                    assert(decodable(prefix, names.pairs()) == before.push(s[i as int]));
                    assert forall|j: int| 0 <= j < out@.len() implies section_decodes(
                        #[trigger] out@[j],
                        decodable(prefix, names.pairs())[j],
                        names.pairs(),
                    ) by {
                        if j < out@.len() - 1 {
                            assert(decodable(prefix, names.pairs())[j] == before[j]);
                        }
                    }
                }
            },
            Err(_) => {},
        }
        i += 1;
    }
    assert(s.take(sorted@.len() as int) =~= s);
    out
}

/// The near records' chunk keys are the keys with records.
proof fn lemma_key_records_nonempty(rs: Seq<SubchunkRecord>, cx: i32, cz: i32, radius: i32, k: (i32, i32))
    ensures
        key_records(rs, cx, cz, radius, k).len() > 0 <==> exists|i: int|
            0 <= i < rs.len() && record_near(#[trigger] rs[i], cx, cz, radius) && (rs[i].0, rs[i].1) == k,
    decreases rs.len(),
{
    if rs.len() > 0 {
        lemma_key_records_nonempty(rs.drop_last(), cx, cz, radius, k);
        if exists|i: int| 0 <= i < rs.len() && record_near(#[trigger] rs[i], cx, cz, radius) && (rs[i].0, rs[i].1) == k {
            let i = choose|i: int| 0 <= i < rs.len() && record_near(#[trigger] rs[i], cx, cz, radius) && (rs[i].0, rs[i].1) == k;
            if i < rs.len() - 1 {
                assert(rs.drop_last()[i] == rs[i]);
            }
        }
        if exists|i: int| 0 <= i < rs.drop_last().len() && record_near(#[trigger] rs.drop_last()[i], cx, cz, radius) && (rs.drop_last()[i].0, rs.drop_last()[i].1) == k {
            let i = choose|i: int| 0 <= i < rs.drop_last().len() && record_near(#[trigger] rs.drop_last()[i], cx, cz, radius) && (rs.drop_last()[i].0, rs.drop_last()[i].1) == k;
            assert(rs[i] == rs.drop_last()[i]);
        }
    }
}

/// Sorting keeps the number of records.
proof fn lemma_sort_len(s: Seq<(i8, Seq<u8>)>)
    ensures
        sort_by_y(s).len() == s.len(),
    decreases s.len(),
{
    if s.len() > 0 {
        lemma_sort_len(s.drop_last());
        lemma_split_point_range(sort_by_y(s.drop_last()), s.last().0);
    }
}

/// A split point lies within the list.
proof fn lemma_split_point_range(s: Seq<(i8, Seq<u8>)>, y: i8)
    ensures
        0 <= split_point(s, y) <= s.len(),
    decreases s.len(),
{
    if s.len() > 0 {
        lemma_split_point_range(s.drop_last(), y);
    }
}

/// Decode every chunk within `radius` chunks of `(cx, cz)` from a world's
/// SubChunkPrefix records: one chunk per `(x, z)` that has a decodable
/// near subchunk, ordered by X then Z, its sections the decodable
/// subchunks sorted by Y.
pub fn chunks_from_records(
    records: &[SubchunkRecord],
    cx: i32,
    cz: i32,
    radius: i32,
    names: &StateNames,
) -> (out: Vec<Chunk>)
    requires
        forall|i: int| 0 <= i < records@.len() ==> readable(#[trigger] records@[i].3@),
    ensures
        forall|a: int, b: int| 0 <= a < b < out@.len() ==> key_less((out@[a].x, out@[a].z), (out@[b].x, out@[b].z)),
        forall|k: (i32, i32)|
            (exists|i: int| 0 <= i < out@.len() && (#[trigger] out@[i].x, out@[i].z) == k) <==> chunk_records(
                records@,
                cx,
                cz,
                radius,
                k,
                names.pairs(),
            ).len() > 0,
        forall|i: int|
            0 <= i < out@.len() ==> {
                let recs = chunk_records(records@, cx, cz, radius, (out@[i].x, out@[i].z), names.pairs());
                &&& (#[trigger] out@[i]).sections().len() == recs.len()
                &&& forall|j: int| 0 <= j < recs.len() ==> section_decodes(out@[i].sections()[j], recs[j], names.pairs())
            },
        forall|i: int| 0 <= i < out@.len() ==> crate::chunk::states_well_formed((#[trigger] out@[i]).sections()),
{
    let ghost rs = records@;
    let mut keys: Vec<(i32, i32)> = Vec::new();
    let mut i: usize = 0;
    while i < records.len()
        invariant
            i <= rs.len(),
            rs == records@,
            forall|a: int, b: int| 0 <= a < b < keys@.len() ==> key_less(keys@[a], keys@[b]),
            forall|q: (i32, i32)| keys@.contains(q) <==> exists|m: int|
                0 <= m < i && record_near(#[trigger] rs[m], cx, cz, radius) && (rs[m].0, rs[m].1) == q,
        decreases rs.len() - i,
    {
        let r = &records[i];
        let ghost before = keys@;
        if is_near(r.0, r.1, cx, cz, radius) {
            insert_key(&mut keys, (r.0, r.1));
        }
        proof {
            assert forall|q: (i32, i32)| keys@.contains(q) <==> exists|m: int|
                0 <= m < i + 1 && record_near(#[trigger] rs[m], cx, cz, radius) && (rs[m].0, rs[m].1) == q by {
                if exists|m: int| 0 <= m < i + 1 && record_near(#[trigger] rs[m], cx, cz, radius) && (rs[m].0, rs[m].1) == q {
                    let m = choose|m: int| 0 <= m < i + 1 && record_near(#[trigger] rs[m], cx, cz, radius) && (rs[m].0, rs[m].1) == q;
                    if m < i {
                        assert(before.contains(q));
                    }
                }
            }
        }
        i += 1;
    }
    let mut out: Vec<Chunk> = Vec::new();
    let mut t: usize = 0;
    let ghost np = names.pairs();
    assert(keys@.take(0) =~= Seq::<(i32, i32)>::empty());
    while t < keys.len()
        invariant
            t <= keys@.len(),
            rs == records@,
            np == names.pairs(),
            forall|q: int| 0 <= q < rs.len() ==> readable(#[trigger] rs[q].3@),
            forall|a: int, b: int| 0 <= a < b < keys@.len() ==> key_less(keys@[a], keys@[b]),
            forall|q: (i32, i32)| keys@.contains(q) <==> exists|m: int|
                0 <= m < rs.len() && record_near(#[trigger] rs[m], cx, cz, radius) && (rs[m].0, rs[m].1) == q,
            out@.len() == present_keys(keys@.take(t as int), rs, cx, cz, radius, np).len(),
            forall|a: int| 0 <= a < out@.len() ==> crate::chunk::states_well_formed((#[trigger] out@[a]).sections()),
            forall|a: int|
                0 <= a < out@.len() ==> (#[trigger] out@[a].x, out@[a].z) == present_keys(
                    keys@.take(t as int),
                    rs,
                    cx,
                    cz,
                    radius,
                    np,
                )[a] && chunk_ok(out@[a], chunk_records(rs, cx, cz, radius, (out@[a].x, out@[a].z), np), np),
        decreases keys@.len() - t,
    {
        let k = keys[t];
        let ghost pk = present_keys(keys@.take(t as int), rs, cx, cz, radius, np);
        assert(keys@.take(t + 1).drop_last() =~= keys@.take(t as int));
        assert(keys@.take(t + 1).last() == k);
        let ghost before = out@;
        match chunk_for_key(records, cx, cz, radius, k, names) {
            Some(c) => {
                out.push(c);
                assert(out@ == before.push(c));
                assert(present_keys(keys@.take(t + 1), rs, cx, cz, radius, np) == pk.push(k));
                assert forall|a: int| 0 <= a < out@.len() implies (#[trigger] out@[a].x, out@[a].z) == pk.push(k)[a]
                    && chunk_ok(out@[a], chunk_records(rs, cx, cz, radius, (out@[a].x, out@[a].z), np), np) by {
                    if a < before.len() {
                        assert(out@[a] == before[a]);
                    }
                }
            },
            None => {
                assert(present_keys(keys@.take(t + 1), rs, cx, cz, radius, np) == pk);
            },
        }
        t += 1;
    }
    assert(keys@.take(keys@.len() as int) =~= keys@);
    proof {
        let pk = present_keys(keys@, rs, cx, cz, radius, np);
        lemma_present_keys(keys@, rs, cx, cz, radius, np);
        assert forall|a: int, b: int| 0 <= a < b < out@.len() implies key_less((out@[a].x, out@[a].z), (out@[b].x, out@[b].z)) by {
            assert((out@[a].x, out@[a].z) == pk[a]);
            assert((out@[b].x, out@[b].z) == pk[b]);
        }
        assert forall|k: (i32, i32)|
            (exists|i: int| 0 <= i < out@.len() && (#[trigger] out@[i].x, out@[i].z) == k) <==> chunk_records(
                rs,
                cx,
                cz,
                radius,
                k,
                np,
            ).len() > 0 by {
            lemma_key_records_nonempty(rs, cx, cz, radius, k);
            lemma_decodable_len(sort_by_y(key_records(rs, cx, cz, radius, k)), np);
            lemma_sort_len(key_records(rs, cx, cz, radius, k));
            if exists|i: int| 0 <= i < out@.len() && (#[trigger] out@[i].x, out@[i].z) == k {
                let i = choose|i: int| 0 <= i < out@.len() && (#[trigger] out@[i].x, out@[i].z) == k;
                assert(pk[i] == k);
                assert(pk.contains(pk[i]));
                assert(chunk_records(rs, cx, cz, radius, k, np).len() > 0);
            }
            if chunk_records(rs, cx, cz, radius, k, np).len() > 0 {
                assert(sort_by_y(key_records(rs, cx, cz, radius, k)).len() > 0);
                assert(key_records(rs, cx, cz, radius, k).len() > 0);
                let m = choose|m: int| 0 <= m < rs.len() && record_near(#[trigger] rs[m], cx, cz, radius) && (rs[m].0, rs[m].1) == k;
                assert(keys@.contains(k));
                assert(pk.contains(k));
                let i = choose|i: int| 0 <= i < pk.len() && pk[i] == k;
                assert(i < out@.len());
                assert((out@[i].x, out@[i].z) == pk[i]);
                assert((out@[i].x, out@[i].z) == k);
            }
        }
    }
    out
}

/// `c` is built from exactly the subchunks `recs` decode to, in order.
pub open spec fn chunk_ok(c: Chunk, recs: Seq<(i8, Seq<u8>)>, names: Seq<(Seq<char>, Seq<char>)>) -> bool {
    &&& c.sections().len() == recs.len()
    &&& forall|j: int| 0 <= j < recs.len() ==> section_decodes(c.sections()[j], recs[j], names)
}

/// The keys among `ks` whose chunk has a decodable subchunk, in order.
pub open spec fn present_keys(
    ks: Seq<(i32, i32)>,
    rs: Seq<SubchunkRecord>,
    cx: i32,
    cz: i32,
    radius: i32,
    names: Seq<(Seq<char>, Seq<char>)>,
) -> Seq<(i32, i32)>
    decreases ks.len(),
{
    if ks.len() == 0 {
        Seq::empty()
    } else {
        let before = present_keys(ks.drop_last(), rs, cx, cz, radius, names);
        if chunk_records(rs, cx, cz, radius, ks.last(), names).len() > 0 {
            before.push(ks.last())
        } else {
            before
        }
    }
}

/// The present keys of an increasing list are increasing, and are exactly
/// its keys whose chunk has a decodable subchunk.
proof fn lemma_present_keys(
    ks: Seq<(i32, i32)>,
    rs: Seq<SubchunkRecord>,
    cx: i32,
    cz: i32,
    radius: i32,
    names: Seq<(Seq<char>, Seq<char>)>,
)
    requires
        forall|a: int, b: int| 0 <= a < b < ks.len() ==> key_less(ks[a], ks[b]),
    ensures
        forall|a: int, b: int|
            0 <= a < b < present_keys(ks, rs, cx, cz, radius, names).len() ==> key_less(
                present_keys(ks, rs, cx, cz, radius, names)[a],
                present_keys(ks, rs, cx, cz, radius, names)[b],
            ),
        forall|q: (i32, i32)|
            #![trigger present_keys(ks, rs, cx, cz, radius, names).contains(q)]
            #![trigger ks.contains(q)]
            present_keys(ks, rs, cx, cz, radius, names).contains(q) <==> (ks.contains(q) && chunk_records(
                rs,
                cx,
                cz,
                radius,
                q,
                names,
            ).len() > 0),
    decreases ks.len(),
{
    if ks.len() > 0 {
        let prev = ks.drop_last();
        lemma_present_keys(prev, rs, cx, cz, radius, names);
        let pp = present_keys(prev, rs, cx, cz, radius, names);
        let p = present_keys(ks, rs, cx, cz, radius, names);
        assert forall|q: (i32, i32)| p.contains(q) <==> (ks.contains(q) && chunk_records(rs, cx, cz, radius, q, names).len() > 0) by {
            if ks.contains(q) {
                let i = choose|i: int| 0 <= i < ks.len() && ks[i] == q;
                if i < ks.len() - 1 {
                    assert(prev[i] == q);
                }
            }
            if prev.contains(q) {
                let i = choose|i: int| 0 <= i < prev.len() && prev[i] == q;
                assert(ks[i] == q);
            }
            if pp.contains(q) {
                let i = choose|i: int| 0 <= i < pp.len() && pp[i] == q;
                assert(p[i] == q);
            }
            if p.contains(q) && !pp.contains(q) {
                let i = choose|i: int| 0 <= i < p.len() && p[i] == q;
                if i < pp.len() {
                    assert(pp[i] == q);
                }
            }
            if q == ks.last() && chunk_records(rs, cx, cz, radius, q, names).len() > 0 {
                assert(p[p.len() - 1] == q);
            }
        }
        assert forall|a: int, b: int| 0 <= a < b < p.len() implies key_less(p[a], p[b]) by {
            if b == p.len() - 1 && p.len() > pp.len() {
                assert(p[a] == pp[a]);
                assert(pp.contains(pp[a]));
                assert(prev.contains(pp[a]));
                let i = choose|i: int| 0 <= i < prev.len() && prev[i] == pp[a];
                assert(ks[i] == prev[i]);
                assert(p[b] == ks[ks.len() - 1]);
                assert(key_less(ks[i], ks[ks.len() - 1]));
            } else {
                assert(p[a] == pp[a] && p[b] == pp[b]);
            }
        }
    }
}

/// The chunk of key `k`, when it has a decodable near subchunk.
fn chunk_for_key(
    records: &[SubchunkRecord],
    cx: i32,
    cz: i32,
    radius: i32,
    k: (i32, i32),
    names: &StateNames,
) -> (r: Option<Chunk>)
    requires
        forall|i: int| 0 <= i < records@.len() ==> readable(#[trigger] records@[i].3@),
    ensures
        match r {
            Some(c) => c.x == k.0 && c.z == k.1 && chunk_records(records@, cx, cz, radius, k, names.pairs()).len() > 0
                && chunk_ok(c, chunk_records(records@, cx, cz, radius, k, names.pairs()), names.pairs()),
            None => chunk_records(records@, cx, cz, radius, k, names.pairs()).len() == 0,
        },
        r matches Some(c) ==> crate::chunk::states_well_formed(c.sections()),
{
    let sorted = sorted_records(records, cx, cz, radius, k);
    let sections = decode_records(&sorted, names);
    if sections.len() > 0 {
        Some(Chunk::from_sections(k.0, k.1, sections))
    } else {
        None
    }
}

/// Keeping the records that decode keeps at most all of them.
proof fn lemma_decodable_len(s: Seq<(i8, Seq<u8>)>, names: Seq<(Seq<char>, Seq<char>)>)
    ensures
        decodable(s, names).len() <= s.len(),
    decreases s.len(),
{
    if s.len() > 0 {
        lemma_decodable_len(s.drop_last(), names);
    }
}

} // verus!
