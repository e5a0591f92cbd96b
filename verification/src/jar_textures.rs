//! Real Minecraft block textures from the Java Edition client `.jar`.
//!
//! The Minecraft `.jar` is a standard ZIP archive. Block textures live under
//! `assets/minecraft/textures/block/<name>.png`. The loader keeps every block
//! texture PNG in memory, keyed by texture name (without the path prefix or
//! `.png` suffix, e.g. `"grass_block_top"`). Reading the files from disk is
//! the caller's part; the archive's entries (through `zip`), the launcher's
//! profiles (through `serde_json`), the naming rules, the store and the
//! choice of the version to load are here.

use vstd::prelude::*;
use std::cmp::Ordering;
use crate::json::{
    json_as_str, json_get, json_object_members, json_of, json_str, json_text, lemma_listing_unique, lists_members,
    member, names_rising, object_listing, parse_json, Json,
};
use crate::text::{
    char_seq_less, has_prefix, has_suffix, parse_u32, parse_u32_str, split_fields, split_str,
    str_eq, str_less,
};

verus! {

/// Where block textures live inside the client JAR.
pub const BLOCK_PREFIX: &'static str = "assets/minecraft/textures/block/";

/// The texture name of an archive entry: the part between the block
/// texture folder and `.png`, for entries that are block textures.
pub open spec fn spec_block_texture_name(entry: Seq<char>) -> Option<Seq<char>> {
    let prefix = "assets/minecraft/textures/block/"@;
    if has_prefix(entry, prefix) && has_suffix(entry, ".png"@) && prefix.len() + 4 <= entry.len() {
        Some(entry.subrange(prefix.len() as int, entry.len() - 4))
    } else {
        None
    }
}

/// The texture name an archive entry stores, e.g. `grass_block_top` for
/// `assets/minecraft/textures/block/grass_block_top.png`, or `None` for an
/// entry that is not a block texture.
pub fn block_texture_name(entry: &str) -> (r: Option<&str>)
    ensures
        match r {
            Some(t) => spec_block_texture_name(entry@) == Some(t@),
            None => spec_block_texture_name(entry@) is None,
        },
{
    proof {
        reveal_strlit("assets/minecraft/textures/block/");
        reveal_strlit(".png");
    }
    let n = entry.unicode_len();
    let p: usize = 32;
    if n < p + 4 {
        return None;
    }
    let head = entry.substring_char(0, p);
    let tail = entry.substring_char(n - 4, n);
    if str_eq(head, BLOCK_PREFIX) && str_eq(tail, ".png") {
        Some(entry.substring_char(p, n - 4))
    } else {
        proof {
            if has_prefix(entry@, "assets/minecraft/textures/block/"@) && has_suffix(entry@, ".png"@) {
                assert(head@ == entry@.subrange(0, 32));
                assert(tail@ == entry@.subrange(n - 4, n as int));
            }
        }
        None
    }
}

/// The bytes stored under `name`, the last entry of that name winning.
pub open spec fn lookup_bytes(s: Seq<(Seq<char>, Seq<u8>)>, name: Seq<char>) -> Option<Seq<u8>>
    decreases s.len(),
{
    if s.len() == 0 {
        None
    } else if s.last().0 == name {
        Some(s.last().1)
    } else {
        lookup_bytes(s.drop_last(), name)
    }
}

/// The other spelling a texture has had across Minecraft versions, tried
/// when a name itself is missing.
pub open spec fn texture_alias(name: Seq<char>) -> Option<Seq<char>> {
    if name == "short_grass"@ {
        Some("grass"@)
    } else if name == "grass"@ {
        Some("short_grass"@)
    } else if name == "dirt_path"@ {
        Some("grass_path"@)
    } else if name == "grass_path"@ {
        Some("dirt_path"@)
    } else if name == "water_still"@ {
        Some("water"@)
    } else if name == "water"@ {
        Some("water_still"@)
    } else if name == "water_flow"@ {
        Some("water_flow"@)
    } else {
        None
    }
}

/// In-memory store of block texture PNGs, keyed by texture name.
///
/// Example key: `"grass_block_top"` (no path prefix, no `.png`).
pub struct JarTextureLoader {
    /// Raw PNG bytes per texture name, each name once.
    textures: Vec<(String, Vec<u8>)>,
    /// Which Minecraft version the textures came from (informational).
    pub version: String,
}

impl JarTextureLoader {
    /// The stored textures as `(name, bytes)`.
    pub closed spec fn entries(&self) -> Seq<(Seq<char>, Seq<u8>)> {
        self.textures@.map_values(|e: (String, Vec<u8>)| (e.0@, e.1@))
    }

    /// The version the textures came from.
    pub closed spec fn version_text(&self) -> Seq<char> {
        self.version@
    }

    /// No two stored textures share a name.
    pub closed spec fn well_formed(&self) -> bool {
        forall|i: int, j: int|
            0 <= i < j < self.textures@.len() ==> (#[trigger] self.textures@[i]).0@
                != (#[trigger] self.textures@[j]).0@
    }

    /// The bytes stored under `name`.
    pub open spec fn stored(&self, name: Seq<char>) -> Option<Seq<u8>> {
        lookup_bytes(self.entries(), name)
    }

    /// What `get` gives for `name`: its own bytes, else its alias's.
    pub open spec fn spec_get(&self, name: Seq<char>) -> Option<Seq<u8>> {
        if self.stored(name) is Some {
            self.stored(name)
        } else {
            match texture_alias(name) {
                Some(a) => self.stored(a),
                None => None,
            }
        }
    }

    /// An empty loader: every lookup misses, so atlases fall back to
    /// procedural tiles. Used when no real textures are available.
    pub fn empty() -> (r: Self)
        ensures
            r.well_formed(),
            r.entries().len() == 0,
            forall|name: Seq<char>| r.stored(name) is None,
            r.version_text() == "none"@,
    {
        let r = Self { textures: Vec::new(), version: String::from_str("none") };
        assert(r.entries() =~= Seq::<(Seq<char>, Seq<u8>)>::empty());
        r
    }

    fn index_of(&self, name: &str) -> (r: Option<usize>)
        requires
            self.well_formed(),
        ensures
            match r {
                Some(i) => i < self.textures@.len() && self.textures@[i as int].0@ == name@,
                None => forall|i: int| 0 <= i < self.textures@.len() ==> self.textures@[i].0@ != name@,
            },
    {
        let mut i: usize = 0;
        while i < self.textures.len()
            invariant
                i <= self.textures@.len(),
                forall|j: int| 0 <= j < i ==> self.textures@[j].0@ != name@,
            decreases self.textures@.len() - i,
        {
            if str_eq(self.textures[i].0.as_str(), name) {
                return Some(i);
            }
            i += 1;
        }
        None
    }

    /// Store `bytes` under `name`, replacing what was stored there.
    pub fn insert(&mut self, name: String, bytes: Vec<u8>)
        requires
            old(self).well_formed(),
        ensures
            final(self).well_formed(),
            final(self).version_text() == old(self).version_text(),
            forall|n: Seq<char>| #[trigger] final(self).stored(n) == if n == name@ {
                Some(bytes@)
            } else {
                old(self).stored(n)
            },
    {
        let ghost old_entries = self.entries();
        proof {
            lemma_lookup_distinct(self);
        }
        match self.index_of(name.as_str()) {
            Some(i) => {
                let ghost key = name@;
                self.textures.set(i, (name, bytes));
                proof {
                    assert forall|a: int, b: int|
                        0 <= a < b < self.textures@.len() implies (#[trigger] self.textures@[a]).0@
                        != (#[trigger] self.textures@[b]).0@ by {
                        assert(old(self).textures@[a].0@ != old(self).textures@[b].0@);
                    }
                    lemma_lookup_distinct(self);
                    assert forall|n: Seq<char>| #[trigger] self.stored(n) == if n == key {
                        Some(bytes@)
                    } else {
                        old(self).stored(n)
                    } by {
                        if n == key {
                            assert(self.entries()[i as int] == (key, bytes@));
                            assert(self.stored(self.entries()[i as int].0) == Some(
                                self.entries()[i as int].1,
                            ));
                        } else {
                            assert forall|j: int| 0 <= j < self.entries().len() && j != i
                                implies #[trigger] old(self).entries()[j] == self.entries()[j] by {
                            }
                            lemma_lookup_same(old(self), self, n);
                        }
                    }
                }
            },
            None => {
                let ghost key = name@;
                self.textures.push((name, bytes));
                proof {
                    assert forall|a: int, b: int|
                        0 <= a < b < self.textures@.len() implies (#[trigger] self.textures@[a]).0@
                        != (#[trigger] self.textures@[b]).0@ by {
                        if b < old(self).textures@.len() {
                            assert(old(self).textures@[a].0@ != old(self).textures@[b].0@);
                        }
                    }
                    assert(self.entries() =~= old_entries.push((key, bytes@)));
                    assert(self.entries().drop_last() =~= old_entries);
                }
            },
        }
    }

    /// A loader holding the given textures, later entries of a name
    /// replacing earlier ones; `None` when there are none at all.
    pub fn from_textures(textures: Vec<(String, Vec<u8>)>, version: String) -> (r: Option<Self>)
        ensures
            match r {
                Some(l) => {
                    &&& textures@.len() > 0
                    &&& l.well_formed()
                    &&& l.version_text() == version@
                    &&& forall|n: Seq<char>| #[trigger] l.stored(n) == lookup_bytes(
                        textures@.map_values(|e: (String, Vec<u8>)| (e.0@, e.1@)),
                        n,
                    )
                },
                None => textures@.len() == 0,
            },
    {
        if textures.len() == 0 {
            return None;
        }
        let ghost all = textures@.map_values(|e: (String, Vec<u8>)| (e.0@, e.1@));
        let mut loader = Self { textures: Vec::new(), version };
        let mut rest = textures;
        assert(loader.entries() =~= Seq::<(Seq<char>, Seq<u8>)>::empty());
        let n = rest.len();
        let mut k: usize = 0;
        while k < n
            invariant
                k <= n,
                n == all.len(),
                rest@.len() == n - k,
                forall|j: int| 0 <= j < n - k ==> (#[trigger] rest@[j]).0@ == all[k + j].0 && rest@[j].1@
                    == all[k + j].1,
                loader.well_formed(),
                loader.version_text() == version@,
                forall|m: Seq<char>| #[trigger] loader.stored(m) == lookup_bytes(all.take(k as int), m),
            decreases n - k,
        {
            let ghost before_rest = rest@;
            let e = rest.remove(0);
            proof {
                assert(e.0@ == all[k as int].0 && e.1@ == all[k as int].1);
                assert(all.take(k + 1).drop_last() =~= all.take(k as int));
                assert forall|j: int| 0 <= j < n - k - 1 implies (#[trigger] rest@[j]).0@ == all[k + 1 + j].0
                    && rest@[j].1@ == all[k + 1 + j].1 by {
                    assert(rest@[j] == before_rest[j + 1]);
                }
            }
            loader.insert(e.0, e.1);
            proof {
                assert forall|m: Seq<char>| #[trigger] loader.stored(m) == lookup_bytes(all.take(k + 1), m) by {
                    assert(all.take(k + 1).last() == all[k as int]);
                }
            }
            k += 1;
        }
        assert(all.take(n as int) =~= all);
        Some(loader)
    }

    /// Raw PNG bytes for a texture name, e.g. `"grass_block_top"`, trying
    /// the name's other spelling across Minecraft versions when the name
    /// itself is missing.
    pub fn get(&self, name: &str) -> (r: Option<&[u8]>)
        requires
            self.well_formed(),
        ensures
            match r {
                Some(b) => self.spec_get(name@) == Some(b@),
                None => self.spec_get(name@) is None,
            },
    {
        proof {
            lemma_lookup_distinct(self);
        }
        if let Some(i) = self.index_of(name) {
            proof {
                assert(self.entries()[i as int] == (self.textures@[i as int].0@, self.textures@[i as int].1@));
                assert(self.stored(self.entries()[i as int].0) == Some(self.entries()[i as int].1));
            }
            return Some(self.textures[i].1.as_slice());
        }
        assert(self.stored(name@) is None) by {
            assert forall|i: int| 0 <= i < self.entries().len() implies self.entries()[i].0 != name@ by {
                assert(self.entries()[i].0 == self.textures@[i].0@);
            }
        }
        let alias: &str = if str_eq(name, "short_grass") {
            "grass"
        } else if str_eq(name, "grass") {
            "short_grass"
        } else if str_eq(name, "dirt_path") {
            "grass_path"
        } else if str_eq(name, "grass_path") {
            "dirt_path"
        } else if str_eq(name, "water_still") {
            "water"
        } else if str_eq(name, "water") {
            "water_still"
        } else if str_eq(name, "water_flow") {
            "water_flow"
        } else {
            return None;
        };
        match self.index_of(alias) {
            Some(i) => {
                proof {
                    assert(self.entries()[i as int] == (self.textures@[i as int].0@, self.textures@[i as int].1@));
                    assert(self.stored(self.entries()[i as int].0) == Some(self.entries()[i as int].1));
                }
                Some(self.textures[i].1.as_slice())
            },
            None => {
                assert(self.stored(alias@) is None) by {
                    assert forall|i: int| 0 <= i < self.entries().len() implies self.entries()[i].0 != alias@ by {
                        assert(self.entries()[i].0 == self.textures@[i].0@);
                    }
                }
                None
            },
        }
    }

    /// Number of textures loaded.
    pub fn len(&self) -> (r: usize)
        ensures
            r == self.entries().len(),
    {
        self.textures.len()
    }

    /// True when no textures were loaded.
    pub fn is_empty(&self) -> (r: bool)
        ensures
            r == (self.entries().len() == 0),
    {
        self.textures.len() == 0
    }
}

/// With distinct names, a stored name is found at its one position.
proof fn lemma_lookup_distinct(l: &JarTextureLoader)
    requires
        l.well_formed(),
    ensures
        forall|i: int|
            0 <= i < l.entries().len() ==> l.stored(#[trigger] l.entries()[i].0) == Some(
                l.entries()[i].1,
            ),
        forall|n: Seq<char>|
            (forall|i: int| 0 <= i < l.entries().len() ==> l.entries()[i].0 != n) ==> #[trigger] l.stored(n) is None,
{
    let s = l.entries();
    assert forall|i: int| 0 <= i < s.len() implies lookup_bytes(s, #[trigger] s[i].0) == Some(s[i].1) by {
        lemma_lookup_at(s, i);
    }
    assert forall|n: Seq<char>|
        (forall|i: int| 0 <= i < s.len() ==> s[i].0 != n) implies #[trigger] lookup_bytes(s, n) is None by {
        lemma_lookup_absent(s, n);
    }
}

proof fn lemma_lookup_at(s: Seq<(Seq<char>, Seq<u8>)>, i: int)
    requires
        0 <= i < s.len(),
        forall|a: int, b: int| 0 <= a < b < s.len() ==> s[a].0 != s[b].0,
    ensures
        lookup_bytes(s, s[i].0) == Some(s[i].1),
    decreases s.len(),
{
    if i < s.len() - 1 {
        assert(s.last().0 != s[i].0);
        let d = s.drop_last();
        assert forall|a: int, b: int| 0 <= a < b < d.len() implies d[a].0 != d[b].0 by {
            assert(d[a] == s[a] && d[b] == s[b]);
        }
        lemma_lookup_at(d, i);
    }
}

proof fn lemma_lookup_absent(s: Seq<(Seq<char>, Seq<u8>)>, n: Seq<char>)
    requires
        forall|i: int| 0 <= i < s.len() ==> s[i].0 != n,
    ensures
        lookup_bytes(s, n) is None,
    decreases s.len(),
{
    if s.len() > 0 {
        let d = s.drop_last();
        assert forall|i: int| 0 <= i < d.len() implies d[i].0 != n by {
            assert(d[i] == s[i]);
        }
        lemma_lookup_absent(d, n);
    }
}

/// Two stores that agree on every entry of one name look it up alike.
proof fn lemma_lookup_same(a: &JarTextureLoader, b: &JarTextureLoader, n: Seq<char>)
    requires
        a.entries().len() == b.entries().len(),
        forall|j: int| 0 <= j < a.entries().len() && (a.entries()[j].0 == n || b.entries()[j].0 == n) ==> a.entries()[j] == b.entries()[j],
        forall|j: int| 0 <= j < a.entries().len() ==> (a.entries()[j].0 == n) == (b.entries()[j].0 == n),
    ensures
        a.stored(n) == b.stored(n),
{
    lemma_lookup_pointwise(a.entries(), b.entries(), n);
}

proof fn lemma_lookup_pointwise(s: Seq<(Seq<char>, Seq<u8>)>, t: Seq<(Seq<char>, Seq<u8>)>, n: Seq<char>)
    requires
        s.len() == t.len(),
        forall|j: int| 0 <= j < s.len() && (s[j].0 == n || t[j].0 == n) ==> s[j] == t[j],
        forall|j: int| 0 <= j < s.len() ==> (s[j].0 == n) == (t[j].0 == n),
    ensures
        lookup_bytes(s, n) == lookup_bytes(t, n),
    decreases s.len(),
{
    if s.len() > 0 {
        let (ds, dt) = (s.drop_last(), t.drop_last());
        assert forall|j: int| 0 <= j < ds.len() && (ds[j].0 == n || dt[j].0 == n) implies ds[j] == dt[j] by {
            assert(ds[j] == s[j] && dt[j] == t[j]);
        }
        assert forall|j: int| 0 <= j < ds.len() implies (ds[j].0 == n) == (dt[j].0 == n) by {
            assert(ds[j] == s[j] && dt[j] == t[j]);
        }
        lemma_lookup_pointwise(ds, dt, n);
    }
}

} // verus!

verus! {

/// The numeric components of a version string: its `.`-separated fields
/// that parse as `u32`, in order; the others are skipped.
pub open spec fn parsed_fields(fields: Seq<Seq<char>>) -> Seq<u32>
    decreases fields.len(),
{
    if fields.len() == 0 {
        Seq::empty()
    } else {
        let rest = parsed_fields(fields.drop_last());
        match parse_u32(fields.last()) {
            Some(x) => rest.push(x),
            None => rest,
        }
    }
}

/// The numbers a version string is compared by.
pub open spec fn version_components(v: Seq<char>) -> Seq<u32> {
    parsed_fields(split_fields(v, '.'))
}

/// Lexicographic order of number sequences, a proper prefix first:
/// `-1`, `0` or `1`.
pub open spec fn seq_order(a: Seq<u32>, b: Seq<u32>) -> int
    decreases a.len(),
{
    if a.len() == 0 {
        if b.len() == 0 {
            0
        } else {
            -1
        }
    } else if b.len() == 0 {
        1
    } else if a[0] < b[0] {
        -1
    } else if a[0] > b[0] {
        1
    } else {
        seq_order(a.drop_first(), b.drop_first())
    }
}

/// How two version strings compare, component by component.
pub open spec fn version_order(a: Seq<char>, b: Seq<char>) -> int {
    seq_order(version_components(a), version_components(b))
}

fn version_numbers(v: &str) -> (r: Vec<u32>)
    ensures
        r@ == version_components(v@),
{
    let fields = split_str(v, '.');
    let ghost fs = split_fields(v@, '.');
    let mut out: Vec<u32> = Vec::new();
    let mut k: usize = 0;
    while k < fields.len()
        invariant
            k <= fields@.len(),
            fields@.len() == fs.len(),
            forall|j: int| 0 <= j < fields@.len() ==> (#[trigger] fields@[j])@ == fs[j],
            out@ == parsed_fields(fs.take(k as int)),
        decreases fields@.len() - k,
    {
        proof {
            assert(fs.take(k + 1).drop_last() =~= fs.take(k as int));
            assert(fs.take(k + 1).last() == fs[k as int]);
        }
        match parse_u32_str(fields[k]) {
            Some(x) => out.push(x),
            None => {},
        }
        k += 1;
    }
    assert(fs.take(k as int) =~= fs);
    out
}

proof fn lemma_seq_order_from(a: Seq<u32>, b: Seq<u32>, i: int)
    requires
        0 <= i <= a.len(),
        i <= b.len(),
        forall|j: int| 0 <= j < i ==> a[j] == b[j],
    ensures
        seq_order(a, b) == seq_order(a.subrange(i, a.len() as int), b.subrange(i, b.len() as int)),
    decreases i,
{
    if i > 0 {
        assert(a.drop_first().subrange(i - 1, a.len() - 1) =~= a.subrange(i, a.len() as int));
        assert(b.drop_first().subrange(i - 1, b.len() - 1) =~= b.subrange(i, b.len() as int));
        lemma_seq_order_from(a.drop_first(), b.drop_first(), i - 1);
    } else {
        assert(a.subrange(0, a.len() as int) =~= a);
        assert(b.subrange(0, b.len() as int) =~= b);
    }
}

fn order_numbers(a: &Vec<u32>, b: &Vec<u32>) -> (r: i8)
    ensures
        r == seq_order(a@, b@),
        -1 <= r <= 1,
{
    let mut i: usize = 0;
    while i < a.len() && i < b.len()
        invariant
            i <= a@.len(),
            i <= b@.len(),
            forall|j: int| 0 <= j < i ==> a@[j] == b@[j],
        decreases a@.len() - i,
    {
        if a[i] != b[i] {
            proof {
                lemma_seq_order_from(a@, b@, i as int);
            }
            return if a[i] < b[i] {
                -1
            } else {
                1
            };
        }
        i += 1;
    }
    proof {
        lemma_seq_order_from(a@, b@, i as int);
    }
    if i == a.len() && i == b.len() {
        0
    } else if i == a.len() {
        -1
    } else {
        1
    }
}

/// Compare two version strings numerically, component-by-component.
pub fn compare_versions(a: &str, b: &str) -> (r: Ordering)
    ensures
        match r {
            Ordering::Less => version_order(a@, b@) == -1,
            Ordering::Equal => version_order(a@, b@) == 0,
            Ordering::Greater => version_order(a@, b@) == 1,
        },
{
    let x = version_numbers(a);
    let y = version_numbers(b);
    let o = order_numbers(&x, &y);
    if o < 0 {
        Ordering::Less
    } else if o == 0 {
        Ordering::Equal
    } else {
        Ordering::Greater
    }
}

} // verus!

verus! {

/// A release version is made of digits and dots only (e.g. `1.21.1`);
/// snapshots and modded profiles are not.
pub open spec fn is_release(v: Seq<char>) -> bool {
    forall|i: int| 0 <= i < v.len() ==> ('0' <= #[trigger] v[i] <= '9' || v[i] == '.')
}

/// True for a release version name: digits and dots only.
pub fn is_release_version(v: &str) -> (r: bool)
    ensures
        r == is_release(v@),
{
    let n = v.unicode_len();
    let mut i: usize = 0;
    while i < n
        invariant
            i <= n,
            n == v@.len(),
            forall|j: int| 0 <= j < i ==> ('0' <= #[trigger] v@[j] <= '9' || v@[j] == '.'),
        decreases n - i,
    {
        let c = v.get_char(i);
        if !(('0' <= c && c <= '9') || c == '.') {
            return false;
        }
        i += 1;
    }
    true
}

/// The launcher profile to load: among the release profiles, the one used
/// last (by the launcher's `lastUsed` text), the first of equals winning.
pub open spec fn best_profile(ps: Seq<(Seq<char>, Seq<char>)>) -> Option<(Seq<char>, Seq<char>)>
    decreases ps.len(),
{
    if ps.len() == 0 {
        None
    } else {
        let b = best_profile(ps.drop_last());
        let p = ps.last();
        if !is_release(p.1) {
            b
        } else {
            match b {
                None => Some(p),
                Some(q) => if char_seq_less(q.0, p.0) {
                    Some(p)
                } else {
                    b
                },
            }
        }
    }
}

/// The version of the most recently used release profile, from the
/// launcher's profiles as `(lastUsed, lastVersionId)` pairs in the order
/// the launcher file lists them.
pub fn pick_profile_version(profiles: &[(String, String)]) -> (r: Option<String>)
    ensures
        match r {
            Some(v) => best_profile(profiles@.map_values(|p: (String, String)| (p.0@, p.1@))) matches Some(b) && b.1 == v@,
            None => best_profile(profiles@.map_values(|p: (String, String)| (p.0@, p.1@))) is None,
        },
{
    let ghost ps = profiles@.map_values(|p: (String, String)| (p.0@, p.1@));
    let mut best: Option<usize> = None;
    let mut k: usize = 0;
    while k < profiles.len()
        invariant
            k <= profiles@.len(),
            ps == profiles@.map_values(|p: (String, String)| (p.0@, p.1@)),
            match best {
                Some(i) => i < k && best_profile(ps.take(k as int)) == Some(ps[i as int]),
                None => best_profile(ps.take(k as int)) is None,
            },
        decreases profiles@.len() - k,
    {
        proof {
            assert(ps.take(k + 1).drop_last() =~= ps.take(k as int));
            assert(ps.take(k + 1).last() == ps[k as int]);
        }
        if is_release_version(profiles[k].1.as_str()) {
            match best {
                None => {
                    best = Some(k);
                },
                Some(i) => {
                    if str_less(profiles[i].0.as_str(), profiles[k].0.as_str()) {
                        best = Some(k);
                    }
                },
            }
        }
        k += 1;
    }
    assert(ps.take(k as int) =~= ps);
    match best {
        Some(i) => Some(profiles[i].1.clone()),
        None => None,
    }
}

/// The newest of some versions: the last of the greatest, as the last
/// element of a stable sort by [`compare_versions`] is.
pub open spec fn newest(cs: Seq<Seq<char>>) -> Option<Seq<char>>
    decreases cs.len(),
{
    if cs.len() == 0 {
        None
    } else {
        match newest(cs.drop_last()) {
            None => Some(cs.last()),
            Some(b) => if version_order(b, cs.last()) <= 0 {
                Some(cs.last())
            } else {
                Some(b)
            },
        }
    }
}

proof fn lemma_seq_order_antisym(a: Seq<u32>, b: Seq<u32>)
    ensures
        seq_order(a, b) == -seq_order(b, a),
        -1 <= seq_order(a, b) <= 1,
    decreases a.len(),
{
    if a.len() > 0 && b.len() > 0 && a[0] == b[0] {
        lemma_seq_order_antisym(a.drop_first(), b.drop_first());
    }
}

proof fn lemma_seq_order_trans(a: Seq<u32>, b: Seq<u32>, c: Seq<u32>)
    requires
        seq_order(a, b) <= 0,
        seq_order(b, c) <= 0,
    ensures
        seq_order(a, c) <= 0,
    decreases a.len(),
{
    if a.len() > 0 && b.len() > 0 && c.len() > 0 && a[0] == b[0] && b[0] == c[0] {
        lemma_seq_order_trans(a.drop_first(), b.drop_first(), c.drop_first());
    }
}

proof fn lemma_newest_is_greatest(cs: Seq<Seq<char>>)
    ensures
        cs.len() == 0 <==> newest(cs) is None,
        newest(cs) matches Some(b) ==> cs.contains(b) && forall|i: int|
            0 <= i < cs.len() ==> version_order(#[trigger] cs[i], b) <= 0,
    decreases cs.len(),
{
    if cs.len() > 0 {
        let d = cs.drop_last();
        lemma_newest_is_greatest(d);
        let b = newest(cs).unwrap();
        let last = cs.last();
        match newest(d) {
            None => {
                assert(cs[cs.len() - 1] == last);
                assert forall|i: int| 0 <= i < cs.len() implies version_order(#[trigger] cs[i], b) <= 0 by {
                    lemma_seq_order_antisym(version_components(cs[i]), version_components(b));
                }
            },
            Some(p) => {
                lemma_seq_order_antisym(version_components(p), version_components(last));
                if version_order(p, last) <= 0 {
                    assert(cs[cs.len() - 1] == last);
                    assert forall|i: int| 0 <= i < cs.len() implies version_order(#[trigger] cs[i], b) <= 0 by {
                        if i < cs.len() - 1 {
                            assert(cs[i] == d[i]);
                            lemma_seq_order_trans(
                                version_components(cs[i]),
                                version_components(p),
                                version_components(last),
                            );
                        } else {
                            lemma_seq_order_antisym(version_components(last), version_components(last));
                        }
                    }
                } else {
                    let j = choose|j: int| 0 <= j < d.len() && d[j] == p;
                    assert(cs[j] == p);
                    assert forall|i: int| 0 <= i < cs.len() implies version_order(#[trigger] cs[i], b) <= 0 by {
                        if i < cs.len() - 1 {
                            assert(cs[i] == d[i]);
                        }
                    }
                }
            },
        }
    }
}

/// `a` is a newer version than `b`.
fn version_greater(a: &str, b: &str) -> (r: bool)
    ensures
        r == (version_order(a@, b@) == 1),
{
    match compare_versions(a, b) {
        Ordering::Greater => true,
        _ => false,
    }
}

/// The newest of the installed release versions: the last of the greatest
/// by [`compare_versions`]. It is one of them, and none is newer.
pub fn newest_version(candidates: &[String]) -> (r: Option<String>)
    ensures
        match r {
            Some(v) => newest(candidates@.map_values(|c: String| c@)) == Some(v@),
            None => candidates@.len() == 0,
        },
        r matches Some(v) ==> (exists|i: int| 0 <= i < candidates@.len() && candidates@[i]@ == v@)
            && forall|i: int| 0 <= i < candidates@.len() ==> version_order(#[trigger] candidates@[i]@, v@) <= 0,
{
    let ghost cs = candidates@.map_values(|c: String| c@);
    let mut best: Option<usize> = None;
    let mut k: usize = 0;
    while k < candidates.len()
        invariant
            k <= candidates@.len(),
            cs == candidates@.map_values(|c: String| c@),
            match best {
                Some(i) => i < k && newest(cs.take(k as int)) == Some(cs[i as int]),
                None => k == 0,
            },
        decreases candidates@.len() - k,
    {
        proof {
            assert(cs.take(k + 1).drop_last() =~= cs.take(k as int));
            assert(cs.take(k + 1).last() == cs[k as int]);
        }
        match best {
            None => {
                best = Some(k);
            },
            Some(i) => {
                proof {
                    lemma_seq_order_antisym(
                        version_components(cs[i as int]),
                        version_components(cs[k as int]),
                    );
                }
                if !version_greater(candidates[i].as_str(), candidates[k].as_str()) {
                    best = Some(k);
                }
            },
        }
        k += 1;
    }
    assert(cs.take(k as int) =~= cs);
    proof {
        lemma_newest_is_greatest(cs);
    }
    match best {
        Some(i) => {
            proof {
                let v = cs[i as int];
                assert forall|j: int| 0 <= j < candidates@.len() implies version_order(
                    #[trigger] candidates@[j]@,
                    v,
                ) <= 0 by {
                    assert(cs[j] == candidates@[j]@);
                }
                assert(cs.contains(v));
                let w = choose|w: int| 0 <= w < cs.len() && cs[w] == v;
                assert(candidates@[w]@ == v);
            }
            Some(candidates[i].clone())
        },
        None => None,
    }
}

} // verus!

verus! {

/// Version comparison is a total preorder, so sorting by it is sound:
/// swapping the arguments reverses the answer, and "not newer" chains.
pub proof fn law_version_order_is_a_total_preorder(a: Seq<char>, b: Seq<char>, c: Seq<char>)
    ensures
        version_order(a, b) == -version_order(b, a),
        -1 <= version_order(a, b) <= 1,
        version_order(a, a) == 0,
        version_order(a, b) <= 0 && version_order(b, c) <= 0 ==> version_order(a, c) <= 0,
{
    lemma_seq_order_antisym(version_components(a), version_components(b));
    lemma_seq_order_antisym(version_components(a), version_components(a));
    if version_order(a, b) <= 0 && version_order(b, c) <= 0 {
        lemma_seq_order_trans(version_components(a), version_components(b), version_components(c));
    }
}

} // verus!

verus! {

/// The block textures among the first `k` entries of an archive, in entry
/// order, as `(texture name, PNG bytes)`; `None` when one of those entries
/// cannot be opened, or a texture among them cannot be read.
pub open spec fn jar_textures_upto(bytes: Seq<u8>, k: nat) -> Option<Seq<(Seq<char>, Seq<u8>)>>
    decreases k,
{
    if k == 0 {
        Some(Seq::empty())
    } else {
        match jar_textures_upto(bytes, (k - 1) as nat) {
            None => None,
            Some(prev) => match crate::archive::zip_entry_name(bytes, (k - 1) as nat) {
                None => None,
                Some(n) => match spec_block_texture_name(n) {
                    None => Some(prev),
                    Some(t) => match crate::archive::zip_entry_bytes(bytes, (k - 1) as nat) {
                        None => None,
                        Some(d) => Some(prev.push((t, d))),
                    },
                },
            },
        }
    }
}

proof fn lemma_textures_fail_on(bytes: Seq<u8>, k: nat, n: nat)
    requires
        k <= n,
        jar_textures_upto(bytes, k) is None,
    ensures
        jar_textures_upto(bytes, n) is None,
    decreases n - k,
{
    if k < n {
        lemma_textures_fail_on(bytes, k + 1, n);
        assert(jar_textures_upto(bytes, (k + 1) as nat) is None);
    }
}

/// The block textures of a whole archive; `None` when it is not an archive
/// or one of its entries cannot be read.
pub open spec fn jar_textures_of(bytes: Seq<u8>) -> Option<Seq<(Seq<char>, Seq<u8>)>> {
    match crate::archive::zip_count(bytes) {
        None => None,
        Some(n) => jar_textures_upto(bytes, n),
    }
}

impl JarTextureLoader {
    /// Load the block textures of a client JAR from its bytes: every entry
    /// under `assets/minecraft/textures/block/` ending in `.png`, a later
    /// entry of a name replacing an earlier one. Fails when the bytes are
    /// not a ZIP archive, an entry cannot be opened or a texture read, or
    /// the archive holds no block texture.
    pub fn from_jar_bytes(bytes: &[u8], version: String, jar_label: &str) -> (r: Result<JarTextureLoader, String>)
        ensures
            match jar_textures_of(bytes@) {
                None => r is Err,
                Some(ts) => if ts.len() == 0 {
                    r is Err
                } else {
                    r matches Ok(l) && l.well_formed() && l.version_text() == version@ && forall|n: Seq<char>|
                        #[trigger] l.stored(n) == lookup_bytes(ts, n)
                },
            },
    {
        let mut archive = match crate::archive::open_archive(bytes) {
            Some(a) => a,
            None => return Err(String::from_str("Cannot read JAR as ZIP")),
        };
        let ghost src = bytes@;
        let n = crate::archive::archive_len(&archive);
        let mut textures: Vec<(String, Vec<u8>)> = Vec::new();
        let mut i: usize = 0;
        while i < n
            invariant
                i <= n,
                src == bytes@,
                crate::archive::archive_source(archive) == src,
                crate::archive::zip_count(src) == Some(n as nat),
                jar_textures_upto(src, i as nat) == Some(textures@.map_values(|e: (String, Vec<u8>)| (e.0@, e.1@))),
            decreases n - i,
        {
            let ghost before = textures@.map_values(|e: (String, Vec<u8>)| (e.0@, e.1@));
            let name = match crate::archive::entry_name(&mut archive, i) {
                Some(s) => s,
                None => {
                    proof {
                        assert(jar_textures_upto(src, (i + 1) as nat) is None);
                        lemma_textures_fail_on(src, (i + 1) as nat, n as nat);
                    }
                    return Err(String::from_str("Cannot read JAR entry"));
                },
            };
            if let Some(texture_name) = block_texture_name(name.as_str()) {
                let data = match crate::archive::entry_bytes(&mut archive, i) {
                    Some(d) => d,
                    None => {
                        proof {
                            assert(jar_textures_upto(src, (i + 1) as nat) is None);
                            lemma_textures_fail_on(src, (i + 1) as nat, n as nat);
                        }
                        let mut m = String::from_str("Cannot read texture ");
                        m.append(name.as_str());
                        return Err(m);
                    },
                };
                textures.push((texture_name.to_string(), data));
                assert(textures@.map_values(|e: (String, Vec<u8>)| (e.0@, e.1@)) =~= before.push((texture_name@, data@)));
            }
            i += 1;
        }
        let ghost ts = textures@.map_values(|e: (String, Vec<u8>)| (e.0@, e.1@));
        match JarTextureLoader::from_textures(textures, version) {
            Some(l) => Ok(l),
            None => {
                let mut m = String::from_str("No block textures found in JAR ");
                m.append(jar_label);
                Err(m)
            },
        }
    }
}

} // verus!

verus! {

/// A launcher profile as `(lastUsed, lastVersionId)`: `None` when it has
/// no `lastVersionId` text; a missing `lastUsed` reads as empty.
pub open spec fn profile_pair(p: Json) -> Option<(Seq<char>, Seq<char>)> {
    match member(p, "lastVersionId"@) {
        Some(v) => match json_str(v) {
            Some(version) => Some(
                (
                    match member(p, "lastUsed"@) {
                        Some(u) => match json_str(u) {
                            Some(t) => t,
                            None => Seq::empty(),
                        },
                        None => Seq::empty(),
                    },
                    version,
                ),
            ),
            None => None,
        },
        None => None,
    }
}

/// The profile pairs of the first `k` members of a `profiles` object.
pub open spec fn profile_pairs_upto(es: Seq<(Seq<char>, Json)>, k: int) -> Seq<(Seq<char>, Seq<char>)>
    decreases k,
{
    if k <= 0 {
        Seq::empty()
    } else {
        let prev = profile_pairs_upto(es, k - 1);
        match profile_pair(es[k - 1].1) {
            Some(pp) => prev.push(pp),
            None => prev,
        }
    }
}

/// The `(lastUsed, lastVersionId)` pairs of a `launcher_profiles.json`, in
/// the order its `profiles` object walks; `None` when it is not JSON.
pub open spec fn spec_profile_pairs(j: Option<Json>) -> Option<Seq<(Seq<char>, Seq<char>)>> {
    match j {
        None => None,
        Some(root) => Some(
            match member(root, "profiles"@) {
                Some(Json::Object(m)) => profile_pairs_upto(object_listing(m), object_listing(m).len() as int),
                _ => Seq::empty(),
            },
        ),
    }
}

/// The `(lastUsed, lastVersionId)` pairs of the launcher's
/// `launcher_profiles.json`, one per profile that names a version, in the
/// order of its `profiles` object; `None` when the file is not JSON.
pub fn launcher_profile_pairs(content: &[u8]) -> (r: Option<Vec<(String, String)>>)
    ensures
        match r {
            Some(v) => spec_profile_pairs(json_text(content@)) == Some(
                v@.map_values(|p: (String, String)| (p.0@, p.1@)),
            ),
            None => spec_profile_pairs(json_text(content@)) is None,
        },
{
    let root = match parse_json(content) {
        Some(v) => v,
        None => return None,
    };
    let mut out: Vec<(String, String)> = Vec::new();
    let profiles = match json_get(&root, "profiles") {
        Some(p) => p,
        None => {
            assert(out@.map_values(|p: (String, String)| (p.0@, p.1@)) =~= Seq::<(Seq<char>, Seq<char>)>::empty());
            return Some(out);
        },
    };
    let es = match json_object_members(profiles) {
        Some(es) => es,
        None => {
            assert(out@.map_values(|p: (String, String)| (p.0@, p.1@)) =~= Seq::<(Seq<char>, Seq<char>)>::empty());
            return Some(out);
        },
    };
    let ghost m = match json_of(profiles) {
        Json::Object(m) => m,
        _ => Map::empty(),
    };
    let ghost listing = es@.map_values(|e: (&String, &serde_json::Value)| (e.0@, json_of(e.1)));
    proof {
        let s = object_listing(m);
        assert(names_rising(listing) && lists_members(listing, m));
        assert(names_rising(s) && lists_members(s, m));
        lemma_listing_unique(listing, s);
    }
    let mut i: usize = 0;
    assert(out@.map_values(|p: (String, String)| (p.0@, p.1@)) =~= Seq::<(Seq<char>, Seq<char>)>::empty());
    while i < es.len()
        invariant
            i <= es@.len(),
            listing == es@.map_values(|e: (&String, &serde_json::Value)| (e.0@, json_of(e.1))),
            out@.map_values(|p: (String, String)| (p.0@, p.1@)) == profile_pairs_upto(listing, i as int),
        decreases es@.len() - i,
    {
        let ghost before = out@.map_values(|p: (String, String)| (p.0@, p.1@));
        let p = es[i].1;
        assert(listing[i as int].1 == json_of(p));
        let version = match json_get(p, "lastVersionId") {
            Some(v) => json_as_str(v),
            None => None,
        };
        if let Some(version) = version {
            let last_used = match json_get(p, "lastUsed") {
                Some(u) => match json_as_str(u) {
                    Some(t) => t,
                    None => "",
                },
                None => "",
            };
            proof {
                reveal_strlit("");
            }
            assert(profile_pair(json_of(p)) == Some((last_used@, version@)));
            out.push((last_used.to_string(), version.to_string()));
            assert(out@.map_values(|q: (String, String)| (q.0@, q.1@)) =~= before.push((last_used@, version@)));
        } else {
            assert(profile_pair(json_of(p)) is None);
        }
        assert(profile_pairs_upto(listing, i + 1) == match profile_pair(listing[i as int].1) {
            Some(pp) => before.push(pp),
            None => before,
        });
        i += 1;
    }
    Some(out)
}


} // verus!
