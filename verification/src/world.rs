//! A Minecraft world on disk: level metadata plus its region files.
//!
//! Listing the save's folders is the caller's part; which folders hold a
//! dimension, how region files are named, which dimension a world opens in
//! and what each is called are decided here.

use vstd::prelude::*;
use std::path::{Path, PathBuf};
use crate::text::{
    char_seq_less, decimal, decimal_string, first_index, lemma_char_seq_less_order, parse_i32, parse_i32_chars, split_fields, split_str,
    str_eq, str_less, strip_prefix, strip_suffix, without_prefix, without_suffix, chars_of,
};

verus! {

#[verifier::external_type_specification]
#[verifier::external_body]
pub struct ExPath(std::path::Path);

#[verifier::external_type_specification]
#[verifier::external_body]
pub struct ExPathBuf(std::path::PathBuf);

/// The text of a path's last component, as `Path::file_name` and then
/// `OsStr::to_str` give it: `None` when the path has no last component
/// (it ends in `..`, or is a root or empty) or that component is not UTF-8.
/// It depends on the path alone.
pub uninterp spec fn path_file_name(path: &Path) -> Option<Seq<char>>;

/// The borrowed path that `PathBuf::as_path` gives for an owned path; it
/// depends on the owned path alone.
pub uninterp spec fn borrowed_path(p: &PathBuf) -> &Path;

/// The last component of a path as text (`Path::file_name`, then
/// `OsStr::to_str`); `None` when there is none or it is not UTF-8.
/// What that text is, is known only through the name `path_file_name`.
#[verifier::external_body]
fn file_name_text(path: &Path) -> (r: Option<&str>)
    ensures
        match r {
            Some(n) => path_file_name(path) == Some(n@),
            None => path_file_name(path) is None,
        },
{
    path.file_name().and_then(|n| n.to_str())
}

/// The path a `PathBuf` holds (`PathBuf::as_path`), known through the
/// name `borrowed_path`.
#[verifier::external_body]
fn as_path(p: &PathBuf) -> (r: &Path)
    ensures
        r == borrowed_path(p),
{
    p.as_path()
}


/// Where a region file's coordinates come from: `r.X.Z.mca`, where X and
/// Z are the first two `.`-separated fields between `r.` and `.mca`, each
/// as `str::parse::<i32>` reads it.
pub open spec fn spec_region_coordinates(name: Seq<char>) -> Option<(i32, i32)> {
    match without_prefix(name, "r."@) {
        None => None,
        Some(a) => match without_suffix(a, ".mca"@) {
            None => None,
            Some(b) => {
                let f = split_fields(b, '.');
                match parse_i32(f[0]) {
                    None => None,
                    Some(x) => if f.len() < 2 {
                        None
                    } else {
                        match parse_i32(f[1]) {
                            None => None,
                            Some(z) => Some((x, z)),
                        }
                    },
                }
            },
        },
    }
}

proof fn lemma_split_nonempty(s: Seq<char>, sep: char)
    ensures
        split_fields(s, sep).len() >= 1,
    decreases s.len(),
{
    match first_index(s, sep) {
        Some(i) => {
            if 0 <= i < s.len() {
                lemma_split_nonempty(s.subrange(i + 1, s.len() as int), sep);
            }
        },
        None => {},
    }
}

/// Parse an `r.X.Z.mca` file name into region coordinates.
pub fn region_name_coordinates(name: &str) -> (r: Option<(i32, i32)>)
    ensures
        r == spec_region_coordinates(name@),
{
    let a = match strip_prefix(name, "r.") {
        Some(a) => a,
        None => return None,
    };
    let b = match strip_suffix(a, ".mca") {
        Some(b) => b,
        None => return None,
    };
    let fields = split_str(b, '.');
    proof {
        lemma_split_nonempty(b@, '.');
    }
    let first = chars_of(fields[0]);
    let x = match parse_i32_chars(first.as_slice()) {
        Some(x) => x,
        None => return None,
    };
    if fields.len() < 2 {
        return None;
    }
    let second = chars_of(fields[1]);
    let z = match parse_i32_chars(second.as_slice()) {
        Some(z) => z,
        None => return None,
    };
    Some((x, z))
}

/// Parse `r.X.Z.mca` filenames into region coordinates. The name is the
/// path's last component; a path without one, or whose last component is
/// not UTF-8, has none.
pub fn region_coordinates(path: &Path) -> (r: Option<(i32, i32)>)
    ensures
        r == match path_file_name(path) {
            Some(name) => spec_region_coordinates(name),
            None => None,
        },
{
    match file_name_text(path) {
        Some(name) => region_name_coordinates(name),
        None => None,
    }
}


/// Which dimension a set of region files belongs to.
#[derive(Debug, Clone)]
pub enum DimensionKind {
    /// The save's top-level `region/`.
    Overworld,
    /// A `DIM<n>` folder: 1 is the End, -1 the Nether.
    Legacy(i32),
    /// A `dimensions/<namespace>/<name>` folder, by its name.
    Named(String),
}

/// A dimension kind with its name as characters.
pub enum KindView {
    Overworld,
    Legacy(i32),
    Named(Seq<char>),
}

impl View for DimensionKind {
    type V = KindView;

    open spec fn view(&self) -> KindView {
        match self {
            DimensionKind::Overworld => KindView::Overworld,
            DimensionKind::Legacy(id) => KindView::Legacy(*id),
            DimensionKind::Named(n) => KindView::Named(n@),
        }
    }
}

/// The sort key placing the most overworld-like dimension first: the
/// overworld, then a folder named `overworld`, then other named folders by
/// name, then legacy `DIM<n>` folders by the text of their number.
pub open spec fn spec_rank(k: KindView) -> (u8, Seq<char>) {
    match k {
        KindView::Overworld => (0, Seq::empty()),
        KindView::Named(n) => if n == "overworld"@ {
            (1, n)
        } else {
            (3, n)
        },
        KindView::Legacy(id) => (4, decimal(id as int)),
    }
}

/// The Nether, under either folder layout.
pub open spec fn spec_is_nether(k: KindView) -> bool {
    ||| k == KindView::Legacy(-1i32)
    ||| k matches KindView::Named(n) && (n == "the_nether"@ || n == "nether"@)
}

/// The End, under either folder layout.
pub open spec fn spec_is_end(k: KindView) -> bool {
    ||| k == KindView::Legacy(1i32)
    ||| k matches KindView::Named(n) && (n == "the_end"@ || n == "end"@)
}

/// The overworld, under either folder layout.
pub open spec fn spec_is_overworld(k: KindView) -> bool {
    ||| k == KindView::Overworld
    ||| k matches KindView::Named(n) && n == "overworld"@
}

/// The name a dimension is logged by.
pub open spec fn spec_label(k: KindView) -> Seq<char> {
    match k {
        KindView::Overworld => "Overworld"@,
        KindView::Legacy(id) => if id == 1 {
            "End"@
        } else if id == -1 {
            "Nether"@
        } else {
            "DIM"@ + decimal(id as int)
        },
        KindView::Named(n) => n,
    }
}

impl DimensionKind {
    /// Sort key placing the most overworld-like first.
    pub fn rank(&self) -> (r: (u8, String))
        ensures
            (r.0, r.1@) == spec_rank(self@),
    {
        match self {
            DimensionKind::Overworld => (0, String::new()),
            DimensionKind::Named(name) => {
                if str_eq(name.as_str(), "overworld") {
                    (1, name.clone())
                } else {
                    (3, name.clone())
                }
            },
            DimensionKind::Legacy(id) => (4, decimal_string(*id as i64)),
        }
    }

    /// True when this is the Nether, under either folder layout.
    pub fn is_nether(&self) -> (r: bool)
        ensures
            r == spec_is_nether(self@),
    {
        match self {
            DimensionKind::Legacy(id) => *id == -1,
            DimensionKind::Named(n) => str_eq(n.as_str(), "the_nether") || str_eq(n.as_str(), "nether"),
            DimensionKind::Overworld => false,
        }
    }

    /// True when this is the End, under either folder layout.
    pub fn is_end(&self) -> (r: bool)
        ensures
            r == spec_is_end(self@),
    {
        match self {
            DimensionKind::Legacy(id) => *id == 1,
            DimensionKind::Named(n) => str_eq(n.as_str(), "the_end") || str_eq(n.as_str(), "end"),
            DimensionKind::Overworld => false,
        }
    }

    /// True when this is the overworld, under either folder layout.
    pub fn is_overworld(&self) -> (r: bool)
        ensures
            r == spec_is_overworld(self@),
    {
        match self {
            DimensionKind::Overworld => true,
            DimensionKind::Named(n) => str_eq(n.as_str(), "overworld"),
            DimensionKind::Legacy(_) => false,
        }
    }

    /// Human-readable name for logs.
    pub fn label(&self) -> (r: String)
        ensures
            r@ == spec_label(self@),
    {
        match self {
            DimensionKind::Overworld => String::from_str("Overworld"),
            DimensionKind::Legacy(id) => {
                if *id == 1 {
                    String::from_str("End")
                } else if *id == -1 {
                    String::from_str("Nether")
                } else {
                    let mut s = String::from_str("DIM");
                    let digits = decimal_string(*id as i64);
                    s.append(digits.as_str());
                    s
                }
            },
            DimensionKind::Named(name) => name.clone(),
        }
    }
}

/// The legacy dimension a save folder stands for: `DIM` followed by a
/// number `str::parse::<i32>` accepts.
pub open spec fn spec_legacy_dimension(folder: Seq<char>) -> Option<i32> {
    match without_prefix(folder, "DIM"@) {
        Some(rest) => parse_i32(rest),
        None => None,
    }
}

/// The legacy dimension a top-level save folder holds, if it is one:
/// `DIM1` is the End, `DIM-1` the Nether.
pub fn legacy_dimension(folder: &str) -> (r: Option<DimensionKind>)
    ensures
        match r {
            Some(k) => spec_legacy_dimension(folder@) matches Some(id) && k@ == KindView::Legacy(id),
            None => spec_legacy_dimension(folder@) is None,
        },
{
    match strip_prefix(folder, "DIM") {
        Some(rest) => {
            let cs = chars_of(rest);
            match parse_i32_chars(cs.as_slice()) {
                Some(id) => Some(DimensionKind::Legacy(id)),
                None => None,
            }
        },
        None => None,
    }
}


/// One region file: its coordinates and its path.
pub type RegionEntry = (i32, i32, PathBuf);

/// Region coordinates in order: by X, then by Z.
pub open spec fn coords_le(a: (i32, i32), b: (i32, i32)) -> bool {
    a.0 < b.0 || (a.0 == b.0 && a.1 <= b.1)
}

/// The coordinates of a region entry.
pub open spec fn coords_of(e: RegionEntry) -> (i32, i32) {
    (e.0, e.1)
}

/// The entries of `s` at coordinates `k`, in their order in `s`.
pub open spec fn entries_at(s: Seq<RegionEntry>, k: (i32, i32)) -> Seq<RegionEntry>
    decreases s.len(),
{
    if s.len() == 0 {
        s
    } else if coords_of(s.last()) == k {
        entries_at(s.drop_last(), k).push(s.last())
    } else {
        entries_at(s.drop_last(), k)
    }
}

/// Sorted by coordinates.
pub open spec fn regions_sorted(s: Seq<RegionEntry>) -> bool {
    forall|i: int, j: int| 0 <= i < j < s.len() ==> coords_le(coords_of(#[trigger] s[i]), coords_of(#[trigger] s[j]))
}

proof fn lemma_entries_at_add(a: Seq<RegionEntry>, b: Seq<RegionEntry>, k: (i32, i32))
    ensures
        entries_at(a + b, k) == entries_at(a, k) + entries_at(b, k),
    decreases b.len(),
{
    if b.len() == 0 {
        assert(a + b =~= a);
        assert(entries_at(a, k) + entries_at(b, k) =~= entries_at(a, k));
    } else {
        assert((a + b).drop_last() =~= a + b.drop_last());
        assert((a + b).last() == b.last());
        lemma_entries_at_add(a, b.drop_last(), k);
        if coords_of(b.last()) == k {
            assert(entries_at(a, k) + entries_at(b.drop_last(), k).push(b.last()) =~= (entries_at(
                a,
                k,
            ) + entries_at(b.drop_last(), k)).push(b.last()));
        }
    }
}

proof fn lemma_entries_at_none(s: Seq<RegionEntry>, k: (i32, i32))
    requires
        forall|i: int| 0 <= i < s.len() ==> coords_of(#[trigger] s[i]) != k,
    ensures
        entries_at(s, k) == Seq::<RegionEntry>::empty(),
    decreases s.len(),
{
    if s.len() > 0 {
        assert forall|i: int| 0 <= i < s.drop_last().len() implies coords_of(#[trigger] s.drop_last()[i]) != k by {
            assert(s.drop_last()[i] == s[i]);
        }
        lemma_entries_at_none(s.drop_last(), k);
    }
}

/// Sort region entries by coordinates, keeping entries at equal
/// coordinates in their given order.
pub fn sort_regions(regions: Vec<RegionEntry>) -> (out: Vec<RegionEntry>)
    ensures
        regions_sorted(out@),
        forall|k: (i32, i32)| #[trigger] entries_at(out@, k) == entries_at(regions@, k),
{
    let ghost input = regions@;
    let mut rest = regions;
    let mut out: Vec<RegionEntry> = Vec::new();
    let n = rest.len();
    let mut i: usize = 0;
    while i < n
        invariant
            i <= n,
            n == input.len(),
            rest@ == input.skip(i as int),
            regions_sorted(out@),
            forall|k: (i32, i32)| #[trigger] entries_at(out@, k) == entries_at(input.take(i as int), k),
        decreases n - i,
    {
        let e = rest.remove(0);
        assert(e == input[i as int]);
        let mut p: usize = 0;
        while p < out.len() && (out[p].0 < e.0 || (out[p].0 == e.0 && out[p].1 <= e.1))
            invariant
                p <= out@.len(),
                forall|m: int| 0 <= m < p ==> coords_le(coords_of(#[trigger] out@[m]), coords_of(e)),
            decreases out@.len() - p,
        {
            p += 1;
        }
        let ghost before = out@;
        proof {
            assert forall|m: int| p <= m < before.len() implies !coords_le(coords_of(#[trigger] before[m]), coords_of(e)) by {
                assert(!coords_le(coords_of(before[p as int]), coords_of(e)));
                if m > p {
                    assert(coords_le(coords_of(before[p as int]), coords_of(before[m])));
                }
            }
        }
        out.insert(p, e);
        proof {
            assert(out@ =~= before.take(p as int) + seq![e] + before.skip(p as int));
            assert forall|m: int| 0 <= m < out@.len() implies #[trigger] out@[m] == if m < p {
                before[m]
            } else if m == p {
                e
            } else {
                before[m - 1]
            } by {
                assert(out@[m] == (before.take(p as int) + seq![e] + before.skip(p as int))[m]);
            }
            assert(before =~= before.take(p as int) + before.skip(p as int));
            assert(input.take(i + 1) =~= input.take(i as int).push(e));
            assert forall|a: int, b: int| 0 <= a < b < out@.len() implies coords_le(
                coords_of(#[trigger] out@[a]),
                coords_of(#[trigger] out@[b]),
            ) by {
                if b < p {
                } else if a < p && b == p {
                } else if a < p && b > p {
                    assert(out@[a] == before[a] && out@[b] == before[b - 1]);
                } else if a == p {
                    assert(out@[b] == before[b - 1]);
                } else {
                    assert(out@[a] == before[a - 1] && out@[b] == before[b - 1]);
                }
            }
            assert forall|k: (i32, i32)| #[trigger] entries_at(out@, k) == entries_at(input.take(i + 1), k) by {
                let l = before.take(p as int);
                let r = before.skip(p as int);
                lemma_entries_at_add(l + seq![e], r, k);
                lemma_entries_at_add(l, seq![e], k);
                lemma_entries_at_add(l, r, k);
                assert(seq![e] =~= Seq::<RegionEntry>::empty().push(e));
                assert(Seq::<RegionEntry>::empty().push(e).drop_last() =~= Seq::<RegionEntry>::empty());
                if coords_of(e) == k {
                    assert forall|m: int| 0 <= m < r.len() implies coords_of(#[trigger] r[m]) != k by {
                        assert(r[m] == before[p + m]);
                    }
                    lemma_entries_at_none(r, k);
                    assert(entries_at(Seq::<RegionEntry>::empty(), k) == Seq::<RegionEntry>::empty());
                    assert(entries_at(seq![e], k) =~= seq![e]);
                    assert(entries_at(out@, k) =~= entries_at(l, k) + seq![e]);
                    assert(entries_at(before, k) =~= entries_at(l, k));
                    assert(input.take(i + 1).drop_last() =~= input.take(i as int));
                    assert(input.take(i + 1).last() == e);
                    assert(entries_at(input.take(i + 1), k) == entries_at(input.take(i as int), k).push(e));
                } else {
                    assert(entries_at(Seq::<RegionEntry>::empty(), k) == Seq::<RegionEntry>::empty());
                    assert(entries_at(seq![e], k) =~= Seq::<RegionEntry>::empty());
                    assert(input.take(i + 1).drop_last() =~= input.take(i as int));
                    assert(input.take(i + 1).last() == e);
                    assert(entries_at(out@, k) =~= entries_at(l, k) + entries_at(r, k));
                }
            }
            assert(rest@ =~= input.skip(i + 1));
        }
        i += 1;
    }
    assert(input.take(n as int) =~= input);
    out
}


/// One dimension's region files.
#[derive(Debug, Clone)]
pub struct Dimension {
    /// Which dimension this is.
    pub kind: DimensionKind,
    /// `(region_x, region_z, path)`, sorted.
    pub regions: Vec<RegionEntry>,
}

/// Rank keys in order: by class, then by text.
pub open spec fn rank_le(a: (u8, Seq<char>), b: (u8, Seq<char>)) -> bool {
    a.0 < b.0 || (a.0 == b.0 && !char_seq_less(b.1, a.1))
}

/// The rank key of a dimension.
pub open spec fn rank_of(d: Dimension) -> (u8, Seq<char>) {
    spec_rank(d.kind@)
}

/// The dimensions of `s` with rank key `k`, in their order in `s`.
pub open spec fn dims_at(s: Seq<Dimension>, k: (u8, Seq<char>)) -> Seq<Dimension>
    decreases s.len(),
{
    if s.len() == 0 {
        s
    } else if rank_of(s.last()) == k {
        dims_at(s.drop_last(), k).push(s.last())
    } else {
        dims_at(s.drop_last(), k)
    }
}

/// Sorted by rank key.
pub open spec fn dims_sorted(s: Seq<Dimension>) -> bool {
    forall|i: int, j: int| 0 <= i < j < s.len() ==> rank_le(rank_of(#[trigger] s[i]), rank_of(#[trigger] s[j]))
}

proof fn lemma_rank_le_order(a: (u8, Seq<char>), b: (u8, Seq<char>), c: (u8, Seq<char>))
    ensures
        rank_le(a, a),
        rank_le(a, b) && rank_le(b, c) ==> rank_le(a, c),
        rank_le(a, b) || rank_le(b, a),
        rank_le(a, b) && rank_le(b, a) ==> a == b,
{
    lemma_char_seq_less_order(a.1, b.1, c.1);
    lemma_char_seq_less_order(c.1, b.1, a.1);
    lemma_char_seq_less_order(b.1, a.1, c.1);
    lemma_char_seq_less_order(a.1, c.1, b.1);
}

proof fn lemma_dims_at_add(a: Seq<Dimension>, b: Seq<Dimension>, k: (u8, Seq<char>))
    ensures
        dims_at(a + b, k) == dims_at(a, k) + dims_at(b, k),
    decreases b.len(),
{
    if b.len() == 0 {
        assert(a + b =~= a);
        assert(dims_at(a, k) + dims_at(b, k) =~= dims_at(a, k));
    } else {
        assert((a + b).drop_last() =~= a + b.drop_last());
        assert((a + b).last() == b.last());
        lemma_dims_at_add(a, b.drop_last(), k);
        if rank_of(b.last()) == k {
            assert(dims_at(a, k) + dims_at(b.drop_last(), k).push(b.last()) =~= (dims_at(a, k)
                + dims_at(b.drop_last(), k)).push(b.last()));
        }
    }
}

proof fn lemma_dims_at_none(s: Seq<Dimension>, k: (u8, Seq<char>))
    requires
        forall|i: int| 0 <= i < s.len() ==> rank_of(#[trigger] s[i]) != k,
    ensures
        dims_at(s, k) == Seq::<Dimension>::empty(),
    decreases s.len(),
{
    if s.len() > 0 {
        assert forall|i: int| 0 <= i < s.drop_last().len() implies rank_of(#[trigger] s.drop_last()[i]) != k by {
            assert(s.drop_last()[i] == s[i]);
        }
        lemma_dims_at_none(s.drop_last(), k);
    }
}

/// `a` ranks no later than `b`.
fn rank_not_after(a: &(u8, String), b: &(u8, String)) -> (r: bool)
    ensures
        r == rank_le((a.0, a.1@), (b.0, b.1@)),
{
    a.0 < b.0 || (a.0 == b.0 && !str_less(b.1.as_str(), a.1.as_str()))
}

/// Order dimensions most overworld-like first (see [`DimensionKind::rank`]),
/// keeping dimensions of equal rank in their given order.
pub fn order_dimensions(found: Vec<Dimension>) -> (out: Vec<Dimension>)
    ensures
        dims_sorted(out@),
        forall|k: (u8, Seq<char>)| #[trigger] dims_at(out@, k) == dims_at(found@, k),
{
    let ghost input = found@;
    let mut rest = found;
    let mut out: Vec<Dimension> = Vec::new();
    let mut keys: Vec<(u8, String)> = Vec::new();
    let n = rest.len();
    let mut i: usize = 0;
    while i < n
        invariant
            i <= n,
            n == input.len(),
            rest@ == input.skip(i as int),
            keys@.len() == out@.len(),
            forall|m: int| 0 <= m < out@.len() ==> (keys@[m].0, keys@[m].1@) == rank_of(#[trigger] out@[m]),
            dims_sorted(out@),
            forall|k: (u8, Seq<char>)| #[trigger] dims_at(out@, k) == dims_at(input.take(i as int), k),
        decreases n - i,
    {
        let e = rest.remove(0);
        assert(e == input[i as int]);
        let key = e.kind.rank();
        let mut p: usize = 0;
        while p < out.len() && rank_not_after(&keys[p], &key)
            invariant
                p <= out@.len(),
                keys@.len() == out@.len(),
                forall|m: int| 0 <= m < out@.len() ==> (keys@[m].0, keys@[m].1@) == rank_of(#[trigger] out@[m]),
                (key.0, key.1@) == rank_of(e),
                forall|m: int| 0 <= m < p ==> rank_le(rank_of(#[trigger] out@[m]), rank_of(e)),
            decreases out@.len() - p,
        {
            p += 1;
        }
        let ghost before = out@;
        let ghost before_keys = keys@;
        proof {
            assert forall|m: int| p <= m < before.len() implies !rank_le(rank_of(#[trigger] before[m]), rank_of(e)) by {
                assert(!rank_le(rank_of(before[p as int]), rank_of(e)));
                if m > p {
                    assert(rank_le(rank_of(before[p as int]), rank_of(before[m])));
                    lemma_rank_le_order(rank_of(before[p as int]), rank_of(before[m]), rank_of(e));
                }
            }
        }
        out.insert(p, e);
        keys.insert(p, key);
        proof {
            assert(out@ =~= before.take(p as int) + seq![e] + before.skip(p as int));
            assert forall|m: int| 0 <= m < out@.len() implies #[trigger] out@[m] == if m < p {
                before[m]
            } else if m == p {
                e
            } else {
                before[m - 1]
            } by {
                assert(out@[m] == (before.take(p as int) + seq![e] + before.skip(p as int))[m]);
            }
            assert forall|m: int| 0 <= m < out@.len() implies (keys@[m].0, keys@[m].1@) == rank_of(#[trigger] out@[m]) by {
                if m < p {
                    assert(keys@[m] == before_keys[m]);
                } else if m > p {
                    assert(keys@[m] == before_keys[m - 1]);
                }
            }
            assert(before =~= before.take(p as int) + before.skip(p as int));
            assert(input.take(i + 1) =~= input.take(i as int).push(e));
            assert forall|a: int, b: int| 0 <= a < b < out@.len() implies rank_le(
                rank_of(#[trigger] out@[a]),
                rank_of(#[trigger] out@[b]),
            ) by {
                if b < p {
                } else if a < p && b == p {
                } else if a < p && b > p {
                    assert(out@[a] == before[a] && out@[b] == before[b - 1]);
                } else if a == p {
                    assert(out@[b] == before[b - 1]);
                    lemma_rank_le_order(rank_of(before[b - 1]), rank_of(e), rank_of(e));
                } else {
                    assert(out@[a] == before[a - 1] && out@[b] == before[b - 1]);
                }
            }
            assert forall|k: (u8, Seq<char>)| #[trigger] dims_at(out@, k) == dims_at(input.take(i + 1), k) by {
                let l = before.take(p as int);
                let r = before.skip(p as int);
                lemma_dims_at_add(l + seq![e], r, k);
                lemma_dims_at_add(l, seq![e], k);
                lemma_dims_at_add(l, r, k);
                assert(seq![e] =~= Seq::<Dimension>::empty().push(e));
                assert(Seq::<Dimension>::empty().push(e).drop_last() =~= Seq::<Dimension>::empty());
                assert(dims_at(Seq::<Dimension>::empty(), k) == Seq::<Dimension>::empty());
                assert(input.take(i + 1).drop_last() =~= input.take(i as int));
                assert(input.take(i + 1).last() == e);
                if rank_of(e) == k {
                    assert forall|m: int| 0 <= m < r.len() implies rank_of(#[trigger] r[m]) != k by {
                        assert(r[m] == before[p + m]);
                        lemma_rank_le_order(k, k, k);
                    }
                    lemma_dims_at_none(r, k);
                    assert(dims_at(seq![e], k) =~= seq![e]);
                    assert(dims_at(out@, k) =~= dims_at(l, k) + seq![e]);
                    assert(dims_at(before, k) =~= dims_at(l, k));
                } else {
                    assert(dims_at(seq![e], k) =~= Seq::<Dimension>::empty());
                    assert(dims_at(out@, k) =~= dims_at(l, k) + dims_at(r, k));
                }
            }
            assert(rest@ =~= input.skip(i + 1));
        }
        i += 1;
    }
    assert(input.take(n as int) =~= input);
    out
}

/// The region files of the dimension a world opens in: the first of the
/// ordered dimensions, or none when no dimension has any.
pub fn opening_regions(ordered: Vec<Dimension>) -> (r: Vec<RegionEntry>)
    ensures
        ordered@.len() == 0 ==> r@.len() == 0,
        ordered@.len() > 0 ==> r@ == ordered@[0].regions@,
{
    let mut ordered = ordered;
    if ordered.len() == 0 {
        Vec::new()
    } else {
        let first = ordered.remove(0);
        first.regions
    }
}

/// A Java Edition world folder.
pub struct World {
    folder: PathBuf,
}

impl World {
    /// The world folder.
    pub closed spec fn folder_path(&self) -> PathBuf {
        self.folder
    }

    /// Open a world folder (does not read anything yet).
    pub fn open(folder: PathBuf) -> (w: Self)
        ensures
            w.folder_path() == folder,
    {
        Self { folder }
    }

    /// The world folder on disk.
    pub fn folder(&self) -> (r: &Path)
        ensures
            r == borrowed_path(&self.folder_path()),
    {
        as_path(&self.folder)
    }
}


proof fn lemma_dims_at_present(s: Seq<Dimension>, k: (u8, Seq<char>))
    ensures
        dims_at(s, k).len() > 0 <==> exists|i: int| 0 <= i < s.len() && rank_of(#[trigger] s[i]) == k,
    decreases s.len(),
{
    if s.len() > 0 {
        let d = s.drop_last();
        lemma_dims_at_present(d, k);
        if exists|i: int| 0 <= i < d.len() && rank_of(#[trigger] d[i]) == k {
            let i = choose|i: int| 0 <= i < d.len() && rank_of(#[trigger] d[i]) == k;
            assert(s[i] == d[i]);
        }
        if exists|i: int| 0 <= i < s.len() && rank_of(#[trigger] s[i]) == k {
            let i = choose|i: int| 0 <= i < s.len() && rank_of(#[trigger] s[i]) == k;
            if i < s.len() - 1 {
                assert(d[i] == s[i]);
            }
        }
    }
}

/// A save that has an overworld opens in it: once the dimensions are
/// ordered, the overworld comes first, whatever else the save holds.
pub proof fn law_overworld_opens_first(found: Seq<Dimension>, ordered: Seq<Dimension>)
    requires
        dims_sorted(ordered),
        forall|k: (u8, Seq<char>)| #[trigger] dims_at(ordered, k) == dims_at(found, k),
        exists|i: int| 0 <= i < found.len() && (#[trigger] found[i]).kind@ == KindView::Overworld,
    ensures
        ordered.len() > 0,
        ordered[0].kind@ == KindView::Overworld,
{
    let i = choose|i: int| 0 <= i < found.len() && (#[trigger] found[i]).kind@ == KindView::Overworld;
    let k = rank_of(found[i]);
    assert(k == (0u8, Seq::<char>::empty()));
    lemma_dims_at_present(found, k);
    assert(dims_at(ordered, k) == dims_at(found, k));
    lemma_dims_at_present(ordered, k);
    let j = choose|j: int| 0 <= j < ordered.len() && rank_of(#[trigger] ordered[j]) == k;
    if j > 0 {
        assert(rank_le(rank_of(ordered[0]), rank_of(ordered[j])));
    }
    assert(rank_of(ordered[0]).0 == 0);
    match ordered[0].kind@ {
        KindView::Overworld => {},
        KindView::Named(n) => {},
        KindView::Legacy(id) => {},
    }
}

} // verus!
