//! Worlds found on disk, for the world browser.
//!
//! Scanning the save folders is the caller's part; what a detected world
//! records and the order the browser lists them in are here.

use vstd::prelude::*;
use std::path::PathBuf;

verus! {

/// `PathBuf::clone`, which the derived `Clone` of [`WorldSummary`] calls.
/// Nothing is stated of the copy.
pub assume_specification[ <std::path::PathBuf as Clone>::clone ](p: &PathBuf) -> PathBuf;

/// Which Minecraft edition a world belongs to.
#[derive(Debug, Clone, Copy, PartialEq, Eq, Structural)]
pub enum Edition {
    /// Minecraft: Java Edition (`.minecraft/saves`).
    Java,
    /// Minecraft: Bedrock Edition (Microsoft Store install).
    Bedrock,
}

impl Edition {
    /// Short label for badges.
    pub fn label(self) -> (r: &'static str)
        ensures
            r@ == match self {
                Edition::Java => "Java"@,
                Edition::Bedrock => "Bedrock"@,
            },
    {
        match self {
            Edition::Java => "Java",
            Edition::Bedrock => "Bedrock",
        }
    }
}

/// A detected world on disk — one card in the World Browser.
#[derive(Debug, Clone)]
pub struct WorldSummary {
    /// Which edition this world belongs to.
    pub edition: Edition,
    /// The world's folder on disk.
    pub folder: PathBuf,
    /// Display name (from `level.dat` / `levelname.txt`).
    pub name: String,
    /// Thumbnail image (`icon.png` / `world_icon.jpeg`), if the world has one.
    pub icon: Option<PathBuf>,
    /// Last played, milliseconds since the Unix epoch (if known).
    pub last_played_ms: Option<i64>,
    /// Total size of the world folder in bytes.
    pub size_bytes: u64,
    /// Java data version, if known.
    pub data_version: Option<i32>,
}

/// When a world was last played, for ordering; unknown counts as the epoch.
pub open spec fn played_key(w: WorldSummary) -> i64 {
    match w.last_played_ms {
        Some(t) => t,
        None => 0,
    }
}

/// The worlds of `s` with ordering key `k`, in their order in `s`.
pub open spec fn worlds_at(s: Seq<WorldSummary>, k: i64) -> Seq<WorldSummary>
    decreases s.len(),
{
    if s.len() == 0 {
        s
    } else if played_key(s.last()) == k {
        worlds_at(s.drop_last(), k).push(s.last())
    } else {
        worlds_at(s.drop_last(), k)
    }
}

/// Most recently played first.
pub open spec fn worlds_sorted(s: Seq<WorldSummary>) -> bool {
    forall|i: int, j: int| 0 <= i < j < s.len() ==> played_key(#[trigger] s[i]) >= played_key(#[trigger] s[j])
}

proof fn lemma_worlds_at_add(a: Seq<WorldSummary>, b: Seq<WorldSummary>, k: i64)
    ensures
        worlds_at(a + b, k) == worlds_at(a, k) + worlds_at(b, k),
    decreases b.len(),
{
    if b.len() == 0 {
        assert(a + b =~= a);
        assert(worlds_at(a, k) + worlds_at(b, k) =~= worlds_at(a, k));
    } else {
        assert((a + b).drop_last() =~= a + b.drop_last());
        assert((a + b).last() == b.last());
        lemma_worlds_at_add(a, b.drop_last(), k);
        if played_key(b.last()) == k {
            assert(worlds_at(a, k) + worlds_at(b.drop_last(), k).push(b.last()) =~= (worlds_at(a, k)
                + worlds_at(b.drop_last(), k)).push(b.last()));
        }
    }
}

proof fn lemma_worlds_at_none(s: Seq<WorldSummary>, k: i64)
    requires
        forall|i: int| 0 <= i < s.len() ==> played_key(#[trigger] s[i]) != k,
    ensures
        worlds_at(s, k) == Seq::<WorldSummary>::empty(),
    decreases s.len(),
{
    if s.len() > 0 {
        assert forall|i: int| 0 <= i < s.drop_last().len() implies played_key(#[trigger] s.drop_last()[i]) != k by {
            assert(s.drop_last()[i] == s[i]);
        }
        lemma_worlds_at_none(s.drop_last(), k);
    }
}

fn key_of(w: &WorldSummary) -> (r: i64)
    ensures
        r == played_key(*w),
{
    match w.last_played_ms {
        Some(t) => t,
        None => 0,
    }
}

/// Order detected worlds most recently played first; worlds played at the
/// same time (or never) keep the order they were found in.
pub fn order_worlds(worlds: Vec<WorldSummary>) -> (out: Vec<WorldSummary>)
    ensures
        worlds_sorted(out@),
        forall|k: i64| #[trigger] worlds_at(out@, k) == worlds_at(worlds@, k),
{
    let ghost input = worlds@;
    let mut rest = worlds;
    let mut out: Vec<WorldSummary> = Vec::new();
    let n = rest.len();
    let mut i: usize = 0;
    while i < n
        invariant
            i <= n,
            n == input.len(),
            rest@ == input.skip(i as int),
            worlds_sorted(out@),
            forall|k: i64| #[trigger] worlds_at(out@, k) == worlds_at(input.take(i as int), k),
        decreases n - i,
    {
        let e = rest.remove(0);
        assert(e == input[i as int]);
        let ke = key_of(&e);
        let mut p: usize = 0;
        while p < out.len() && key_of(&out[p]) >= ke
            invariant
                p <= out@.len(),
                ke == played_key(e),
                forall|m: int| 0 <= m < p ==> played_key(#[trigger] out@[m]) >= played_key(e),
            decreases out@.len() - p,
        {
            p += 1;
        }
        let ghost before = out@;
        proof {
            assert forall|m: int| p <= m < before.len() implies played_key(#[trigger] before[m]) < played_key(e) by {
                assert(played_key(before[p as int]) < played_key(e));
                if m > p {
                    assert(played_key(before[p as int]) >= played_key(before[m]));
                }
            }
        }
        out.insert(p, e);
        proof {
            assert(out@ =~= before.take(p as int) + seq![e] + before.skip(p as int));
            assert forall|m: int| 0 <= m < out@.len() implies #[trigger] out@[m] == if m < p {
                before[m]
            } else if m == p {
                e
            } else {
                before[m - 1]
            } by {
                assert(out@[m] == (before.take(p as int) + seq![e] + before.skip(p as int))[m]);
            }
            assert(before =~= before.take(p as int) + before.skip(p as int));
            assert(input.take(i + 1) =~= input.take(i as int).push(e));
            assert forall|a: int, b: int| 0 <= a < b < out@.len() implies played_key(#[trigger] out@[a])
                >= played_key(#[trigger] out@[b]) by {
                if b < p {
                } else if a < p && b == p {
                } else if a < p && b > p {
                    assert(out@[a] == before[a] && out@[b] == before[b - 1]);
                } else if a == p {
                    assert(out@[b] == before[b - 1]);
                } else {
                    assert(out@[a] == before[a - 1] && out@[b] == before[b - 1]);
                }
            }
            assert forall|k: i64| #[trigger] worlds_at(out@, k) == worlds_at(input.take(i + 1), k) by {
                let l = before.take(p as int);
                let r = before.skip(p as int);
                lemma_worlds_at_add(l + seq![e], r, k);
                lemma_worlds_at_add(l, seq![e], k);
                lemma_worlds_at_add(l, r, k);
                assert(seq![e] =~= Seq::<WorldSummary>::empty().push(e));
                assert(Seq::<WorldSummary>::empty().push(e).drop_last() =~= Seq::<WorldSummary>::empty());
                assert(worlds_at(Seq::<WorldSummary>::empty(), k) == Seq::<WorldSummary>::empty());
                assert(input.take(i + 1).drop_last() =~= input.take(i as int));
                assert(input.take(i + 1).last() == e);
                if played_key(e) == k {
                    assert forall|m: int| 0 <= m < r.len() implies played_key(#[trigger] r[m]) != k by {
                        assert(r[m] == before[p + m]);
                    }
                    lemma_worlds_at_none(r, k);
                    assert(worlds_at(seq![e], k) =~= seq![e]);
                    assert(worlds_at(out@, k) =~= worlds_at(l, k) + seq![e]);
                    assert(worlds_at(before, k) =~= worlds_at(l, k));
                } else {
                    assert(worlds_at(seq![e], k) =~= Seq::<WorldSummary>::empty());
                    assert(worlds_at(out@, k) =~= worlds_at(l, k) + worlds_at(r, k));
                }
            }
            assert(rest@ =~= input.skip(i + 1));
        }
        i += 1;
    }
    assert(input.take(n as int) =~= input);
    out
}

} // verus!
