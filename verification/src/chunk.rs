//! Chunk decoding: turns chunk NBT into an addressable block grid.
//!
//! Supports both the modern layout (1.18+, `sections` with `block_states`)
//! and the legacy one (`Level.Sections` with `Palette`/`BlockStates`).

use vstd::prelude::*;
use crate::text::str_eq;

verus! {

/// The block id without its namespace: everything after the last `:`, or
/// the whole id when it has none.
pub open spec fn spec_strip_namespace(s: Seq<char>) -> Seq<char>
    decreases s.len(),
{
    if s.len() == 0 {
        s
    } else if s.last() == ':' {
        Seq::empty()
    } else {
        spec_strip_namespace(s.drop_last()).push(s.last())
    }
}

/// Stripping the namespace keeps what follows the last `:`: the result is
/// the end of the name, holds no `:`, and is preceded in the name by a `:`
/// when it is shorter than the name; a name with no `:` is left as it is.
pub proof fn law_namespace_is_cut_at_the_last_colon(s: Seq<char>)
    ensures
        spec_strip_namespace(s) == s.subrange(s.len() - spec_strip_namespace(s).len(), s.len() as int),
        !spec_strip_namespace(s).contains(':'),
        spec_strip_namespace(s).len() < s.len() ==> s[s.len() - spec_strip_namespace(s).len() - 1] == ':',
        !s.contains(':') ==> spec_strip_namespace(s) == s,
{
    lemma_strip_namespace_suffix(s);
    let r = spec_strip_namespace(s);
    let k = s.len() - r.len();
    assert(!r.contains(':')) by {
        if r.contains(':') {
            let j = choose|j: int| 0 <= j < r.len() && r[j] == ':';
            assert(s[k + j] == ':');
        }
    }
    if !s.contains(':') && r.len() < s.len() {
        assert(s[k - 1] == ':');
    }
    if r.len() == s.len() {
        assert(r =~= s);
    }
}

proof fn lemma_strip_namespace_suffix(s: Seq<char>)
    ensures
        spec_strip_namespace(s).len() <= s.len(),
        spec_strip_namespace(s) == s.subrange(s.len() - spec_strip_namespace(s).len(), s.len() as int),
        forall|i: int| s.len() - spec_strip_namespace(s).len() <= i < s.len() ==> s[i] != ':',
        spec_strip_namespace(s).len() < s.len() ==> s[s.len() - spec_strip_namespace(s).len() - 1] == ':',
    decreases s.len(),
{
    if s.len() > 0 && s.last() != ':' {
        let d = s.drop_last();
        lemma_strip_namespace_suffix(d);
        let k = spec_strip_namespace(d).len();
        assert(d.subrange(d.len() - k, d.len() as int) =~= s.subrange(s.len() - 1 - k, s.len() - 1));
        assert(spec_strip_namespace(s) =~= s.subrange(s.len() - 1 - k, s.len() as int));
        assert forall|i: int| s.len() - (k + 1) <= i < s.len() implies s[i] != ':' by {
            if i < s.len() - 1 {
                assert(d[i] == s[i]);
            }
        }
        if k + 1 < s.len() {
            assert(d[d.len() - k - 1] == s[s.len() - k - 2]);
        }
    }
}

/// Strip the `minecraft:` namespace from a block id.
pub fn strip_namespace(name: &str) -> (r: &str)
    ensures
        r@ == spec_strip_namespace(name@),
{
    let n = name.unicode_len();
    let mut i = n;
    while i > 0
        invariant
            i <= n,
            n == name@.len(),
            forall|j: int| i <= j < n ==> name@[j] != ':',
        ensures
            i == 0 || name@[i - 1] == ':',
        decreases i,
    {
        if name.get_char(i - 1) == ':' {
            break;
        }
        i -= 1;
    }
    proof {
        lemma_strip_namespace_suffix(name@);
        let k = spec_strip_namespace(name@).len();
        if k < n {
            assert(n - k - 1 < i);
        }
        assert(n - k <= i);
        if i > 0 {
            assert(name@[i - 1] == ':');
            assert(i == n - k);
        }
    }
    name.substring_char(i, n)
}

/// Blocks that do not hide the faces behind them.
pub open spec fn see_through(s: Seq<char>) -> bool {
    ||| s == "air"@
    ||| s == "cave_air"@
    ||| s == "void_air"@
    ||| s == "water"@
    ||| s == "lava"@
    ||| s == "glass"@
    ||| s == "glass_pane"@
    ||| s == "tinted_glass"@
    ||| s == "grass"@
    ||| s == "short_grass"@
    ||| s == "tall_grass"@
    ||| s == "fern"@
    ||| s == "large_fern"@
    ||| s == "oak_leaves"@
    ||| s == "spruce_leaves"@
    ||| s == "birch_leaves"@
    ||| s == "jungle_leaves"@
    ||| s == "acacia_leaves"@
    ||| s == "dark_oak_leaves"@
    ||| s == "mangrove_leaves"@
    ||| s == "cherry_leaves"@
    ||| s == "azalea_leaves"@
    ||| s == "flowering_azalea_leaves"@
    ||| s == "torch"@
    ||| s == "wall_torch"@
    ||| s == "soul_torch"@
    ||| s == "soul_wall_torch"@
    ||| s == "lantern"@
    ||| s == "soul_lantern"@
    ||| s == "redstone_torch"@
    ||| s == "redstone_wall_torch"@
    ||| s == "dandelion"@
    ||| s == "poppy"@
    ||| s == "blue_orchid"@
    ||| s == "allium"@
    ||| s == "azure_bluet"@
    ||| s == "oxeye_daisy"@
    ||| s == "cornflower"@
    ||| s == "lily_of_the_valley"@
    ||| s == "red_tulip"@
    ||| s == "orange_tulip"@
    ||| s == "white_tulip"@
    ||| s == "pink_tulip"@
    ||| s == "sunflower"@
    ||| s == "lilac"@
    ||| s == "rose_bush"@
    ||| s == "peony"@
    ||| s == "snow"@
    ||| s == "vine"@
    ||| s == "ladder"@
    ||| s == "rail"@
    ||| s == "powered_rail"@
    ||| s == "detector_rail"@
    ||| s == "activator_rail"@
    ||| s == "lever"@
    ||| s == "tripwire"@
    ||| s == "fire"@
    ||| s == "soul_fire"@
    ||| s == "cobweb"@
    ||| s == "dead_bush"@
    ||| s == "seagrass"@
}

/// The blocks the face culler sees through, as the original lists them:
/// the air variants, water and lava, glass, glass panes and tinted glass,
/// plants, leaves, torches and lanterns, flowers, rails and the like.
pub open spec fn listed_see_through() -> Seq<Seq<char>> {
    seq![
        "air"@,
        "cave_air"@,
        "void_air"@,
        "water"@,
        "lava"@,
        "glass"@,
        "glass_pane"@,
        "tinted_glass"@,
        "grass"@,
        "short_grass"@,
        "tall_grass"@,
        "fern"@,
        "large_fern"@,
        "oak_leaves"@,
        "spruce_leaves"@,
        "birch_leaves"@,
        "jungle_leaves"@,
        "acacia_leaves"@,
        "dark_oak_leaves"@,
        "mangrove_leaves"@,
        "cherry_leaves"@,
        "azalea_leaves"@,
        "flowering_azalea_leaves"@,
        "torch"@,
        "wall_torch"@,
        "soul_torch"@,
        "soul_wall_torch"@,
        "lantern"@,
        "soul_lantern"@,
        "redstone_torch"@,
        "redstone_wall_torch"@,
        "dandelion"@,
        "poppy"@,
        "blue_orchid"@,
        "allium"@,
        "azure_bluet"@,
        "oxeye_daisy"@,
        "cornflower"@,
        "lily_of_the_valley"@,
        "red_tulip"@,
        "orange_tulip"@,
        "white_tulip"@,
        "pink_tulip"@,
        "sunflower"@,
        "lilac"@,
        "rose_bush"@,
        "peony"@,
        "snow"@,
        "vine"@,
        "ladder"@,
        "rail"@,
        "powered_rail"@,
        "detector_rail"@,
        "activator_rail"@,
        "lever"@,
        "tripwire"@,
        "fire"@,
        "soul_fire"@,
        "cobweb"@,
        "dead_bush"@,
        "seagrass"@
    ]
}

/// Exactly the listed see-through blocks are not opaque cubes, whatever
/// namespace they carry: `is_opaque_cube` is false for each of them (glass
/// does not hide the faces behind it) and true for every other block.
pub proof fn law_listed_blocks_are_not_opaque(name: Seq<char>)
    ensures
        see_through(spec_strip_namespace(name)) <==> listed_see_through().contains(spec_strip_namespace(name)),
{
    let l = listed_see_through();
    let s = spec_strip_namespace(name);
    assert(l[0] == "air"@);
    assert(l[1] == "cave_air"@);
    assert(l[2] == "void_air"@);
    assert(l[3] == "water"@);
    assert(l[4] == "lava"@);
    assert(l[5] == "glass"@);
    assert(l[6] == "glass_pane"@);
    assert(l[7] == "tinted_glass"@);
    assert(l[8] == "grass"@);
    assert(l[9] == "short_grass"@);
    assert(l[10] == "tall_grass"@);
    assert(l[11] == "fern"@);
    assert(l[12] == "large_fern"@);
    assert(l[13] == "oak_leaves"@);
    assert(l[14] == "spruce_leaves"@);
    assert(l[15] == "birch_leaves"@);
    assert(l[16] == "jungle_leaves"@);
    assert(l[17] == "acacia_leaves"@);
    assert(l[18] == "dark_oak_leaves"@);
    assert(l[19] == "mangrove_leaves"@);
    assert(l[20] == "cherry_leaves"@);
    assert(l[21] == "azalea_leaves"@);
    assert(l[22] == "flowering_azalea_leaves"@);
    assert(l[23] == "torch"@);
    assert(l[24] == "wall_torch"@);
    assert(l[25] == "soul_torch"@);
    assert(l[26] == "soul_wall_torch"@);
    assert(l[27] == "lantern"@);
    assert(l[28] == "soul_lantern"@);
    assert(l[29] == "redstone_torch"@);
    assert(l[30] == "redstone_wall_torch"@);
    assert(l[31] == "dandelion"@);
    assert(l[32] == "poppy"@);
    assert(l[33] == "blue_orchid"@);
    assert(l[34] == "allium"@);
    assert(l[35] == "azure_bluet"@);
    assert(l[36] == "oxeye_daisy"@);
    assert(l[37] == "cornflower"@);
    assert(l[38] == "lily_of_the_valley"@);
    assert(l[39] == "red_tulip"@);
    assert(l[40] == "orange_tulip"@);
    assert(l[41] == "white_tulip"@);
    assert(l[42] == "pink_tulip"@);
    assert(l[43] == "sunflower"@);
    assert(l[44] == "lilac"@);
    assert(l[45] == "rose_bush"@);
    assert(l[46] == "peony"@);
    assert(l[47] == "snow"@);
    assert(l[48] == "vine"@);
    assert(l[49] == "ladder"@);
    assert(l[50] == "rail"@);
    assert(l[51] == "powered_rail"@);
    assert(l[52] == "detector_rail"@);
    assert(l[53] == "activator_rail"@);
    assert(l[54] == "lever"@);
    assert(l[55] == "tripwire"@);
    assert(l[56] == "fire"@);
    assert(l[57] == "soul_fire"@);
    assert(l[58] == "cobweb"@);
    assert(l[59] == "dead_bush"@);
    assert(l[60] == "seagrass"@);
    if l.contains(s) {
        let i = choose|i: int| 0 <= i < l.len() && l[i] == s;
        assert(see_through(l[i]));
    }
}

/// Rough opacity classification used for face culling. Unknown blocks are
/// treated as opaque — culling stays conservative and correct-looking.
pub fn is_opaque_cube(name: &str) -> (r: bool)
    ensures
        r == !see_through(spec_strip_namespace(name@)),
{
    let short = strip_namespace(name);
    !(
        str_eq(short, "air") ||
        str_eq(short, "cave_air") ||
        str_eq(short, "void_air") ||
        str_eq(short, "water") ||
        str_eq(short, "lava") ||
        str_eq(short, "glass") ||
        str_eq(short, "glass_pane") ||
        str_eq(short, "tinted_glass") ||
        str_eq(short, "grass") ||
        str_eq(short, "short_grass") ||
        str_eq(short, "tall_grass") ||
        str_eq(short, "fern") ||
        str_eq(short, "large_fern") ||
        str_eq(short, "oak_leaves") ||
        str_eq(short, "spruce_leaves") ||
        str_eq(short, "birch_leaves") ||
        str_eq(short, "jungle_leaves") ||
        str_eq(short, "acacia_leaves") ||
        str_eq(short, "dark_oak_leaves") ||
        str_eq(short, "mangrove_leaves") ||
        str_eq(short, "cherry_leaves") ||
        str_eq(short, "azalea_leaves") ||
        str_eq(short, "flowering_azalea_leaves") ||
        str_eq(short, "torch") ||
        str_eq(short, "wall_torch") ||
        str_eq(short, "soul_torch") ||
        str_eq(short, "soul_wall_torch") ||
        str_eq(short, "lantern") ||
        str_eq(short, "soul_lantern") ||
        str_eq(short, "redstone_torch") ||
        str_eq(short, "redstone_wall_torch") ||
        str_eq(short, "dandelion") ||
        str_eq(short, "poppy") ||
        str_eq(short, "blue_orchid") ||
        str_eq(short, "allium") ||
        str_eq(short, "azure_bluet") ||
        str_eq(short, "oxeye_daisy") ||
        str_eq(short, "cornflower") ||
        str_eq(short, "lily_of_the_valley") ||
        str_eq(short, "red_tulip") ||
        str_eq(short, "orange_tulip") ||
        str_eq(short, "white_tulip") ||
        str_eq(short, "pink_tulip") ||
        str_eq(short, "sunflower") ||
        str_eq(short, "lilac") ||
        str_eq(short, "rose_bush") ||
        str_eq(short, "peony") ||
        str_eq(short, "snow") ||
        str_eq(short, "vine") ||
        str_eq(short, "ladder") ||
        str_eq(short, "rail") ||
        str_eq(short, "powered_rail") ||
        str_eq(short, "detector_rail") ||
        str_eq(short, "activator_rail") ||
        str_eq(short, "lever") ||
        str_eq(short, "tripwire") ||
        str_eq(short, "fire") ||
        str_eq(short, "soul_fire") ||
        str_eq(short, "cobweb") ||
        str_eq(short, "dead_bush") ||
        str_eq(short, "seagrass"))
}

} // verus!

verus! {

/// The value of the first property named `key`.
pub open spec fn lookup(props: Seq<(Seq<char>, Seq<char>)>, key: Seq<char>) -> Option<Seq<char>>
    decreases props.len(),
{
    if props.len() == 0 {
        None
    } else if props[0].0 == key {
        Some(props[0].1)
    } else {
        lookup(props.drop_first(), key)
    }
}

/// A property value, or `default` when the property is absent.
pub open spec fn lookup_or(props: Seq<(Seq<char>, Seq<char>)>, key: Seq<char>, default: Seq<char>) -> Seq<char> {
    match lookup(props, key) {
        Some(v) => v,
        None => default,
    }
}

/// No key occurs twice among the properties.
pub open spec fn keys_unique(props: Seq<(Seq<char>, Seq<char>)>) -> bool {
    forall|i: int, j: int| 0 <= i < j < props.len() ==> (#[trigger] props[i]).0 != (#[trigger] props[j]).0
}

/// Some pair of the list has key `k`.
pub open spec fn has_key(props: Seq<(Seq<char>, Seq<char>)>, k: Seq<char>) -> bool {
    exists|j: int| 0 <= j < props.len() && (#[trigger] props[j]).0 == k
}

/// Setting a property keeps every key once: the keys after are the keys
/// before and the one set.
pub proof fn lemma_put_keeps_keys_unique(m: Seq<(Seq<char>, Seq<char>)>, k: Seq<char>, v: Seq<char>)
    requires
        keys_unique(m),
    ensures
        keys_unique(crate::bedrock::put_pair(m, k, v)),
        forall|x: Seq<char>| #[trigger] has_key(crate::bedrock::put_pair(m, k, v), x) <==> (has_key(m, x) || x == k),
    decreases m.len(),
{
    let r = crate::bedrock::put_pair(m, k, v);
    if m.len() == 0 {
        assert(r == seq![(k, v)]);
        assert forall|x: Seq<char>| has_key(r, x) <==> (has_key(m, x) || x == k) by {
            if x == k {
                assert(r[0].0 == k);
            }
        }
    } else if m[0].0 == k {
        assert(r == m.update(0, (k, v)));
        assert forall|x: Seq<char>| has_key(r, x) <==> (has_key(m, x) || x == k) by {
            if has_key(m, x) {
                let j = choose|j: int| 0 <= j < m.len() && (#[trigger] m[j]).0 == x;
                assert(r[j].0 == x);
            }
            if x == k {
                assert(r[0].0 == k);
            }
            if has_key(r, x) {
                let j = choose|j: int| 0 <= j < r.len() && (#[trigger] r[j]).0 == x;
                assert(m[j].0 == x);
            }
        }
    } else {
        let t = m.drop_first();
        assert(keys_unique(t)) by {
            assert forall|i: int, j: int| 0 <= i < j < t.len() implies (#[trigger] t[i]).0 != (#[trigger] t[j]).0 by {
                assert(t[i] == m[i + 1] && t[j] == m[j + 1]);
            }
        }
        lemma_put_keeps_keys_unique(t, k, v);
        let rt = crate::bedrock::put_pair(t, k, v);
        assert(r == seq![m[0]] + rt);
        assert(!has_key(rt, m[0].0)) by {
            if has_key(t, m[0].0) {
                let j = choose|j: int| 0 <= j < t.len() && (#[trigger] t[j]).0 == m[0].0;
                assert(m[j + 1].0 == m[0].0);
            }
        }
        assert forall|i: int, j: int| 0 <= i < j < r.len() implies (#[trigger] r[i]).0 != (#[trigger] r[j]).0 by {
            if i == 0 {
                assert(r[j] == rt[j - 1]);
            } else {
                assert(r[i] == rt[i - 1] && r[j] == rt[j - 1]);
            }
        }
        assert forall|x: Seq<char>| has_key(r, x) <==> (has_key(m, x) || x == k) by {
            if has_key(r, x) {
                let j = choose|j: int| 0 <= j < r.len() && (#[trigger] r[j]).0 == x;
                if j == 0 {
                    assert(m[0].0 == x);
                } else {
                    assert(rt[j - 1].0 == x);
                    assert(has_key(rt, x));
                    if has_key(t, x) {
                        let q = choose|q: int| 0 <= q < t.len() && (#[trigger] t[q]).0 == x;
                        assert(m[q + 1].0 == x);
                    }
                }
            }
            if has_key(m, x) {
                let j = choose|j: int| 0 <= j < m.len() && (#[trigger] m[j]).0 == x;
                if j == 0 {
                    assert(r[0].0 == x);
                } else {
                    assert(t[j - 1].0 == x);
                    assert(has_key(t, x));
                    assert(has_key(rt, x));
                    let q = choose|q: int| 0 <= q < rt.len() && (#[trigger] rt[q]).0 == x;
                    assert(r[q + 1].0 == x);
                }
            }
            if x == k {
                assert(has_key(rt, x));
                let q = choose|q: int| 0 <= q < rt.len() && (#[trigger] rt[q]).0 == x;
                assert(r[q + 1].0 == x);
            }
        }
    }
}

/// A fully decoded block state: namespaced block ID plus optional key-value
/// properties.
#[derive(Debug, Clone)]
pub struct BlockState {
    /// Namespaced block ID (`minecraft:oak_stairs`).
    pub name: String,
    /// Property key-value pairs (`facing -> north`); lookups take the first
    /// pair with a given key.
    pub properties: Vec<(String, String)>,
}

/// The texture-lookup key of a block state: its name, plus `|colour` when it
/// has a `color` property.
pub open spec fn texture_key_of(b: BlockState) -> Seq<char> {
    match lookup(b.props(), "color"@) {
        Some(c) => b.name@ + "|"@ + c,
        None => b.name@,
    }
}

impl BlockState {
    /// The properties as text pairs.
    pub open spec fn props(&self) -> Seq<(Seq<char>, Seq<char>)> {
        self.properties@.map_values(|p: (String, String)| (p.0@, p.1@))
    }

    /// Every property key occurs once, as in a map.
    pub open spec fn well_formed(&self) -> bool {
        keys_unique(self.props())
    }

    /// A block state with no properties.
    pub fn new(name: String) -> (b: Self)
        ensures
            b.name@ == name@,
            b.props() == Seq::<(Seq<char>, Seq<char>)>::empty(),
            b.well_formed(),
    {
        let b = Self { name, properties: Vec::new() };
        assert(b.props() =~= Seq::<(Seq<char>, Seq<char>)>::empty());
        b
    }

    /// Set property `key` to `value`, as a map insert: the value of an
    /// existing key is replaced, a new key is appended.
    pub fn set_property(&mut self, key: &str, value: &str)
        ensures
            final(self).name == old(self).name,
            final(self).props() == crate::bedrock::put_pair(old(self).props(), key@, value@),
            old(self).well_formed() ==> final(self).well_formed(),
    {
        crate::bedrock::put(&mut self.properties, key, value);
        proof {
            if keys_unique(old(self).props()) {
                lemma_put_keeps_keys_unique(old(self).props(), key@, value@);
            }
        }
    }

    /// Short block ID without namespace (`oak_stairs`).
    pub fn short_name(&self) -> (r: &str)
        ensures
            r@ == spec_strip_namespace(self.name@),
    {
        strip_namespace(self.name.as_str())
    }

    /// The value of property `key`, if present.
    pub fn property(&self, key: &str) -> (r: Option<&str>)
        ensures
            match lookup(self.props(), key@) {
                Some(v) => r matches Some(s) && s@ == v,
                None => r is None,
            },
    {
        let mut i: usize = 0;
        assert(self.props().skip(0) =~= self.props());
        while i < self.properties.len()
            invariant
                i <= self.properties@.len(),
                lookup(self.props(), key@) == lookup(self.props().skip(i as int), key@),
            decreases self.properties@.len() - i,
        {
            proof {
                assert(self.props().skip(i + 1) =~= self.props().skip(i as int).drop_first());
            }
            if str_eq(self.properties[i].0.as_str(), key) {
                return Some(self.properties[i].1.as_str());
            }
            i += 1;
        }
        None
    }

    /// Facing direction property (`north`, `south`, `east`, `west`). Default: `south`.
    pub fn facing(&self) -> (r: &str)
        ensures
            r@ == lookup_or(self.props(), "facing"@, "south"@),
    {
        match self.property("facing") {
            Some(v) => v,
            None => "south",
        }
    }

    /// Vertical half property (`top`, `bottom`), falling back to `type`.
    /// Default: `bottom`.
    pub fn half(&self) -> (r: &str)
        ensures
            r@ == match lookup(self.props(), "half"@) {
                Some(v) => v,
                None => lookup_or(self.props(), "type"@, "bottom"@),
            },
    {
        match self.property("half") {
            Some(v) => v,
            None => match self.property("type") {
                Some(v) => v,
                None => "bottom",
            },
        }
    }

    /// Log/pillar axis property (`x`, `y`, `z`). Default: `y`.
    pub fn axis(&self) -> (r: &str)
        ensures
            r@ == lookup_or(self.props(), "axis"@, "y"@),
    {
        match self.property("axis") {
            Some(v) => v,
            None => "y",
        }
    }

    /// Bed half property (`head`, `foot`). Default: `foot`, vanilla's own
    /// default for a bed placed with no explicit `part`.
    pub fn part(&self) -> (r: &str)
        ensures
            r@ == lookup_or(self.props(), "part"@, "foot"@),
    {
        match self.property("part") {
            Some(v) => v,
            None => "foot",
        }
    }

    /// Dye colour property (`white`, `red`, `light_blue`, ...). Default:
    /// `white`, matching the legacy Bedrock data value of 0.
    pub fn color(&self) -> (r: &str)
        ensures
            r@ == lookup_or(self.props(), "color"@, "white"@),
    {
        match self.property("color") {
            Some(v) => v,
            None => "white",
        }
    }

    /// Texture-lookup key: the block name, plus `|colour` when the block
    /// carries a `color` property, so that colour variants of one legacy
    /// block name resolve to different atlas swatches.
    pub fn texture_key(&self) -> (r: String)
        ensures
            r@ == texture_key_of(*self),
    {
        match self.property("color") {
            Some(color) => {
                let mut s = self.name.clone();
                s.append("|");
                s.append(color);
                s
            },
            None => self.name.clone(),
        }
    }
}

/// One 16×16×16 chunk section: a palette plus a palette index per block.
#[derive(Clone)]
pub struct SectionData {
    /// Section Y coordinate (world Y = `y * 16`).
    pub y: i8,
    /// Namespaced block states (`minecraft:stone`).
    pub palette: Vec<BlockState>,
    /// 4096 palette indices in `y << 8 | z << 4 | x` order (empty when the
    /// palette has a single entry).
    pub indices: Vec<u16>,
}

/// Every block state of the section's palette holds each property key once.
pub open spec fn section_states_well_formed(s: SectionData) -> bool {
    forall|j: int| 0 <= j < s.palette@.len() ==> (#[trigger] s.palette@[j]).well_formed()
}

/// Every block state of every section holds each property key once.
pub open spec fn states_well_formed(ss: Seq<SectionData>) -> bool {
    forall|i: int| 0 <= i < ss.len() ==> section_states_well_formed(#[trigger] ss[i])
}

/// A decoded chunk column (16 blocks × world height × 16 blocks).
pub struct Chunk {
    /// Chunk X coordinate.
    pub x: i32,
    /// Chunk Z coordinate.
    pub z: i32,
    /// The decoded sections, in storage order.
    pub sections: Vec<SectionData>,
}

/// Lowest section Y of a non-empty list.
pub open spec fn min_section_y(s: Seq<SectionData>) -> int
    decreases s.len(),
{
    if s.len() <= 1 {
        s[0].y as int
    } else {
        let m = min_section_y(s.drop_last());
        if s.last().y < m {
            s.last().y as int
        } else {
            m
        }
    }
}

/// Highest section Y of a non-empty list.
pub open spec fn max_section_y(s: Seq<SectionData>) -> int
    decreases s.len(),
{
    if s.len() <= 1 {
        s[0].y as int
    } else {
        let m = max_section_y(s.drop_last());
        if s.last().y > m {
            s.last().y as int
        } else {
            m
        }
    }
}

/// Index of the first section at height `sy`, or -1.
pub open spec fn section_index(s: Seq<SectionData>, sy: i8) -> int
    decreases s.len(),
{
    if s.len() == 0 {
        -1
    } else if s[0].y == sy {
        0
    } else {
        let j = section_index(s.drop_first(), sy);
        if j < 0 {
            -1
        } else {
            j + 1
        }
    }
}

proof fn lemma_section_index(s: Seq<SectionData>, sy: i8)
    ensures
        -1 <= section_index(s, sy) < s.len(),
        section_index(s, sy) >= 0 ==> s[section_index(s, sy)].y == sy,
        forall|j: int| 0 <= j < s.len() && (section_index(s, sy) < 0 || j < section_index(s, sy)) ==> s[j].y != sy,
    decreases s.len(),
{
    if s.len() > 0 && s[0].y != sy {
        lemma_section_index(s.drop_first(), sy);
        assert forall|j: int| 0 <= j < s.len() && (section_index(s, sy) < 0 || j < section_index(s, sy)) implies s[j].y != sy by {
            if j > 0 {
                assert(s[j] == s.drop_first()[j - 1]);
            }
        }
    }
}

/// Whether world height `y` falls in a section that an `i8` section
/// coordinate can name, i.e. inside the world's height.
pub open spec fn in_world_height(y: int) -> bool {
    -128 <= y / 16 <= 127
}

/// The section coordinate of world height `y` (meaningful where
/// `in_world_height(y)`).
pub open spec fn section_of(y: int) -> i8 {
    (y / 16) as i8
}

/// Where the block at local `(x, z)` and world `y` is found: the section
/// index and the palette index, or `None` when no block is there.
pub open spec fn spec_locate(s: Seq<SectionData>, x: int, y: int, z: int) -> Option<(int, int)> {
    let i = section_index(s, section_of(y));
    if !in_world_height(y) {
        None
    } else if i < 0 {
        None
    } else if s[i].palette@.len() == 0 {
        None
    } else {
        let p = if s[i].indices@.len() == 0 {
            0
        } else {
            let b = (y % 16) * 256 + z * 16 + x;
            if b < s[i].indices@.len() {
                s[i].indices@[b] as int
            } else {
                -1
            }
        };
        if 0 <= p < s[i].palette@.len() {
            Some((i, p))
        } else {
            None
        }
    }
}

impl Chunk {
    /// The chunk's sections, in storage order.
    pub open spec fn sections(&self) -> Seq<SectionData> {
        self.sections@
    }

    /// Build a chunk directly from decoded sections (Bedrock subchunks,
    /// structure files).
    pub fn from_sections(x: i32, z: i32, sections: Vec<SectionData>) -> (c: Self)
        ensures
            c.x == x,
            c.z == z,
            c.sections() == sections@,
    {
        Self { x, z, sections }
    }

    /// World-Y range covered by this chunk's sections, `(min_y, max_y)`.
    /// `None` when the chunk has no sections.
    pub fn y_range(&self) -> (r: Option<(i32, i32)>)
        ensures
            self.sections().len() == 0 ==> r is None,
            self.sections().len() > 0 ==> r == Some(
                ((min_section_y(self.sections()) * 16) as i32, ((max_section_y(self.sections()) + 1) * 16) as i32),
            ),
    {
        if self.sections.len() == 0 {
            return None;
        }
        let mut lo: i32 = self.sections[0].y as i32;
        let mut hi: i32 = self.sections[0].y as i32;
        let mut i: usize = 1;
        while i < self.sections.len()
            invariant
                1 <= i <= self.sections@.len(),
                lo == min_section_y(self.sections@.take(i as int)),
                hi == max_section_y(self.sections@.take(i as int)),
                -128 <= lo <= 127,
                -128 <= hi <= 127,
            decreases self.sections@.len() - i,
        {
            proof {
                assert(self.sections@.take(i + 1).drop_last() =~= self.sections@.take(i as int));
            }
            let y = self.sections[i].y as i32;
            if y < lo {
                lo = y;
            }
            if y > hi {
                hi = y;
            }
            i += 1;
        }
        proof {
            assert(self.sections@.take(i as int) =~= self.sections@);
        }
        Some((lo * 16, (hi + 1) * 16))
    }

    /// BlockState at local `(x, z)` (0..16) and world `y`.
    pub fn block_state_at(&self, x: usize, y: i32, z: usize) -> (r: Option<&BlockState>)
        requires
            x < 16,
            z < 16,
        ensures
            match spec_locate(self.sections(), x as int, y as int, z as int) {
                Some((i, p)) => r == Some(&self.sections()[i].palette@[p]),
                None => r is None,
            },
    {
        let q: i32 = if y >= 0 {
            y / 16
        } else {
            -((-(y + 1)) / 16) - 1
        };
        if q < -128 || q > 127 {
            return None;
        }
        let sy: i8 = q as i8;
        let ly: usize = (y - q * 16) as usize;
        proof {
            assert(q == (y as int) / 16);
            assert(ly == (y as int) % 16);
            lemma_section_index(self.sections@, sy);
        }
        let mut i: usize = 0;
        while i < self.sections.len()
            invariant
                i <= self.sections@.len(),
                sy == section_of(y as int),
                in_world_height(y as int),
                x < 16,
                z < 16,
                ly < 16,
                ly == (y as int) % 16,
                -1 <= section_index(self.sections@, sy) < self.sections@.len(),
                section_index(self.sections@, sy) >= 0 ==> self.sections@[section_index(self.sections@, sy)].y == sy,
                forall|j: int|
                    0 <= j < self.sections@.len() && (section_index(self.sections@, sy) < 0 || j < section_index(
                        self.sections@,
                        sy,
                    )) ==> self.sections@[j].y != sy,
                section_index(self.sections@, sy) < 0 || i <= section_index(self.sections@, sy),
            decreases self.sections@.len() - i,
        {
            if self.sections[i].y == sy {
                let section = &self.sections[i];
                if section.palette.len() == 0 {
                    return None;
                }
                let p: usize = if section.indices.len() == 0 {
                    0
                } else {
                    let b = (ly << 8) | (z << 4) | x;
                    proof {
                        assert(b == ly * 256 + z * 16 + x) by (bit_vector)
                            requires ly < 16, z < 16, x < 16, b == (ly << 8) | (z << 4) | x;
                    }
                    if b < section.indices.len() {
                        section.indices[b] as usize
                    } else {
                        return None;
                    }
                };
                if p < section.palette.len() {
                    return Some(&section.palette[p]);
                } else {
                    return None;
                }
            }
            i += 1;
        }
        None
    }

    /// Namespaced block id at local `(x, z)` (0..16) and world `y`, or
    /// `None` when no block is stored there.
    pub fn block_at(&self, x: usize, y: i32, z: usize) -> (r: Option<&str>)
        requires
            x < 16,
            z < 16,
        ensures
            match spec_locate(self.sections(), x as int, y as int, z as int) {
                Some((i, p)) => r matches Some(s) && s@ == self.sections()[i].palette@[p].name@,
                None => r is None,
            },
    {
        match self.block_state_at(x, y, z) {
            Some(s) => Some(s.name.as_str()),
            None => None,
        }
    }
}

} // verus!

verus! {

/// Every palette entry's name, section by section.
pub open spec fn flat_names(s: Seq<SectionData>) -> Seq<Seq<char>>
    decreases s.len(),
{
    if s.len() == 0 {
        Seq::empty()
    } else {
        flat_names(s.drop_last()) + s.last().palette@.map_values(|b: BlockState| b.name@)
    }
}

/// Every palette entry's texture key, section by section.
pub open spec fn flat_keys(s: Seq<SectionData>) -> Seq<Seq<char>>
    decreases s.len(),
{
    if s.len() == 0 {
        Seq::empty()
    } else {
        flat_keys(s.drop_last()) + s.last().palette@.map_values(|b: BlockState| texture_key_of(b))
    }
}

/// The first occurrence of every distinct item, in order.
pub open spec fn distinct(s: Seq<Seq<char>>) -> Seq<Seq<char>>
    decreases s.len(),
{
    if s.len() == 0 {
        Seq::empty()
    } else {
        let d = distinct(s.drop_last());
        if d.contains(s.last()) {
            d
        } else {
            d.push(s.last())
        }
    }
}

/// Whether `names` holds `name`.
fn contains_str(names: &Vec<&str>, name: &str) -> (r: bool)
    ensures
        r == names@.map_values(|s: &str| s@).contains(name@),
{
    let mut i: usize = 0;
    while i < names.len()
        invariant
            i <= names@.len(),
            forall|j: int| 0 <= j < i ==> names@[j]@ != name@,
        decreases names@.len() - i,
    {
        if str_eq(names[i], name) {
            assert(names@.map_values(|s: &str| s@)[i as int] == name@);
            return true;
        }
        i += 1;
    }
    false
}

/// Whether `keys` holds `key`.
fn contains_string(keys: &Vec<String>, key: &String) -> (r: bool)
    ensures
        r == keys@.map_values(|s: String| s@).contains(key@),
{
    let mut i: usize = 0;
    while i < keys.len()
        invariant
            i <= keys@.len(),
            forall|j: int| 0 <= j < i ==> keys@[j]@ != key@,
        decreases keys@.len() - i,
    {
        if keys[i] == *key {
            assert(keys@.map_values(|s: String| s@)[i as int] == key@);
            return true;
        }
        i += 1;
    }
    false
}

impl Chunk {
    /// Every distinct block id in this chunk's palettes (air included), in
    /// first-seen order.
    pub fn block_names(&self) -> (names: Vec<&str>)
        ensures
            names@.map_values(|s: &str| s@) == distinct(flat_names(self.sections())),
    {
        let mut names: Vec<&str> = Vec::new();
        let mut i: usize = 0;
        while i < self.sections.len()
            invariant
                i <= self.sections@.len(),
                names@.map_values(|s: &str| s@) == distinct(flat_names(self.sections@.take(i as int))),
            decreases self.sections@.len() - i,
        {
            let section = &self.sections[i];
            let ghost before = flat_names(self.sections@.take(i as int));
            let mut j: usize = 0;
            while j < section.palette.len()
                invariant
                    j <= section.palette@.len(),
                    names@.map_values(|s: &str| s@) == distinct(
                        before + section.palette@.take(j as int).map_values(|b: BlockState| b.name@),
                    ),
                decreases section.palette@.len() - j,
            {
                let ghost prev = before + section.palette@.take(j as int).map_values(|b: BlockState| b.name@);
                let ghost next = before + section.palette@.take(j + 1).map_values(|b: BlockState| b.name@);
                proof {
                    assert(next.drop_last() =~= prev);
                    assert(next.last() == section.palette@[j as int].name@);
                }
                let name = section.palette[j].name.as_str();
                if !contains_str(&names, name) {
                    names.push(name);
                    assert(names@.map_values(|s: &str| s@) =~= distinct(prev).push(name@));
                }
                j += 1;
            }
            proof {
                assert(section.palette@.take(section.palette@.len() as int) =~= section.palette@);
                assert(self.sections@.take(i + 1).drop_last() =~= self.sections@.take(i as int));
            }
            i += 1;
        }
        proof {
            assert(self.sections@.take(i as int) =~= self.sections@);
        }
        names
    }

    /// Every distinct [`BlockState::texture_key`] in this chunk's palettes
    /// (air included), in first-seen order. Unlike [`Self::block_names`],
    /// this tells colour variants of legacy blocks apart.
    pub fn texture_keys(&self) -> (keys: Vec<String>)
        ensures
            keys@.map_values(|s: String| s@) == distinct(flat_keys(self.sections())),
    {
        let mut keys: Vec<String> = Vec::new();
        let mut i: usize = 0;
        while i < self.sections.len()
            invariant
                i <= self.sections@.len(),
                keys@.map_values(|s: String| s@) == distinct(flat_keys(self.sections@.take(i as int))),
            decreases self.sections@.len() - i,
        {
            let section = &self.sections[i];
            let ghost before = flat_keys(self.sections@.take(i as int));
            let mut j: usize = 0;
            while j < section.palette.len()
                invariant
                    j <= section.palette@.len(),
                    keys@.map_values(|s: String| s@) == distinct(
                        before + section.palette@.take(j as int).map_values(|b: BlockState| texture_key_of(b)),
                    ),
                decreases section.palette@.len() - j,
            {
                let ghost prev = before + section.palette@.take(j as int).map_values(|b: BlockState| texture_key_of(b));
                let ghost next = before + section.palette@.take(j + 1).map_values(|b: BlockState| texture_key_of(b));
                proof {
                    assert(next.drop_last() =~= prev);
                    assert(next.last() == texture_key_of(section.palette@[j as int]));
                }
                let key = section.palette[j].texture_key();
                if !contains_string(&keys, &key) {
                    let ghost kv = key@;
                    keys.push(key);
                    assert(keys@.map_values(|s: String| s@) =~= distinct(prev).push(kv));
                }
                j += 1;
            }
            proof {
                assert(section.palette@.take(section.palette@.len() as int) =~= section.palette@);
                assert(self.sections@.take(i + 1).drop_last() =~= self.sections@.take(i as int));
            }
            i += 1;
        }
        proof {
            assert(self.sections@.take(i as int) =~= self.sections@);
        }
        keys
    }
}

} // verus!

verus! {

/// 2 to the power `n`.
pub open spec fn pow2(n: nat) -> nat
    decreases n,
{
    if n == 0 {
        1
    } else {
        2 * pow2((n - 1) as nat)
    }
}

pub(crate) proof fn lemma_pow2_mono(a: nat, b: nat)
    requires
        a <= b,
    ensures
        pow2(a) <= pow2(b),
        pow2(a) >= 1,
    decreases b,
{
    if b > a {
        lemma_pow2_mono(a, (b - 1) as nat);
    } else if a > 0 {
        lemma_pow2_mono((a - 1) as nat, (a - 1) as nat);
    }
}

pub(crate) proof fn lemma_pow2_add(a: nat, b: nat)
    ensures
        pow2(a + b) == pow2(a) * pow2(b),
    decreases b,
{
    if b == 0 {
        assert(pow2(0) == 1);
        assert(pow2(a) * 1 == pow2(a));
    } else {
        let b1 = (b - 1) as nat;
        lemma_pow2_add(a, b1);
        let x = pow2(a);
        let y = pow2(b1);
        let z = pow2(a + b1);
        assert(pow2(a + b) == 2 * z);
        assert(pow2(b) == 2 * y);
        assert(x * (2 * y) == 2 * (x * y)) by (nonlinear_arith);
    }
}

pub(crate) proof fn lemma_pow2_63()
    ensures
        pow2(8) == 256,
        pow2(16) == 65536,
        pow2(32) == 0x1_0000_0000,
        pow2(63) == 0x8000_0000_0000_0000,
        pow2(64) == 0x1_0000_0000_0000_0000,
{
    reveal_with_fuel(pow2, 9);
    assert(pow2(8) == 256);
    lemma_pow2_add(8, 8);
    assert(pow2(16) == 65536);
    lemma_pow2_add(16, 16);
    assert(pow2(32) == 0x1_0000_0000);
    lemma_pow2_add(32, 32);
    assert(pow2(64) == 0x1_0000_0000_0000_0000);
    assert(pow2(64) == 2 * pow2(63));
}

/// `2^n` as a machine number.
pub(crate) fn pow2_exec(n: u32) -> (p: u128)
    requires
        n < 64,
    ensures
        p == pow2(n as nat),
        1 <= p <= 0x8000_0000_0000_0000,
{
    proof {
        lemma_pow2_63();
    }
    let mut p: u128 = 1;
    let mut i: u32 = 0;
    while i < n
        invariant
            i <= n < 64,
            p == pow2(i as nat),
            pow2(63) == 0x8000_0000_0000_0000,
        decreases n - i,
    {
        proof {
            lemma_pow2_mono(i as nat, 62);
        }
        p = p * 2;
        i += 1;
    }
    proof {
        lemma_pow2_mono(n as nat, 63);
    }
    p
}

/// Number of binary digits of `v` (0 for 0).
pub open spec fn bit_length(v: nat) -> nat
    decreases v,
{
    if v == 0 {
        0
    } else {
        1 + bit_length(v / 2)
    }
}

proof fn lemma_bit_length_bound(v: nat, k: nat)
    requires
        v < pow2(k),
    ensures
        bit_length(v) <= k,
    decreases v,
{
    if v > 0 {
        assert(k > 0);
        assert(v / 2 < pow2((k - 1) as nat));
        lemma_bit_length_bound(v / 2, (k - 1) as nat);
    }
}

/// Bits per palette index for a palette of `n` entries: enough to number
/// every entry, and at least 4.
pub open spec fn index_bits(n: nat) -> nat {
    let b = bit_length((n - 1) as nat);
    if b < 4 {
        4
    } else {
        b
    }
}

/// The unsigned reading of a stored signed long.
pub open spec fn unsigned64(w: i64) -> nat {
    if w < 0 {
        (w + 0x1_0000_0000_0000_0000) as nat
    } else {
        w as nat
    }
}

fn as_unsigned(w: i64) -> (u: u64)
    ensures
        u == unsigned64(w),
{
    if w < 0 {
        ((w + 0x7fff_ffff_ffff_ffff + 1) as u64) + 0x8000_0000_0000_0000
    } else {
        w as u64
    }
}

/// Palette index `k` of a section packed without crossing longs: each long
/// holds `64 / bits` indices, lowest bits first; the top bits are unused.
pub open spec fn packed_index(data: Seq<i64>, bits: nat, k: int) -> int {
    let per: int = 64int / (bits as int);
    (((unsigned64(data[k / per]) / pow2(((k % per) * bits) as nat)) % pow2(bits)) % 65536) as int
}

/// Palette index `k` of a section packed as one continuous little-endian
/// bit stream across longs.
pub open spec fn stream_index(data: Seq<i64>, bits: nat, k: int) -> int {
    let long = (k * bits) / 64;
    let off = (k * bits) % 64;
    let hi = if long + 1 < data.len() {
        unsigned64(data[long + 1])
    } else {
        0
    };
    ((((unsigned64(data[long]) + 0x1_0000_0000_0000_0000 * hi) as nat / pow2(off as nat)) % pow2(bits)) % 65536) as int
}

/// The indices `unpack_indices` gives: none for a palette of at most one
/// entry; else, at `index_bits` bits each, up to 4096 indices, as many as
/// the longs hold (whole indices per long when they do not span longs, a
/// started index counting when they do).
pub open spec fn unpacked(data: Seq<i64>, palette_len: nat, spans: bool) -> Seq<u16> {
    if palette_len <= 1 {
        Seq::empty()
    } else {
        let bits = index_bits(palette_len);
        if !spans {
            let per: int = 64int / (bits as int);
            let n: int = if data.len() * per < 4096 {
                data.len() * per
            } else {
                4096
            };
            Seq::new(n as nat, |k: int| packed_index(data, bits, k) as u16)
        } else {
            let need: int = (64 * data.len() + bits - 1) / (bits as int);
            let n: int = if need < 4096 {
                need
            } else {
                4096
            };
            Seq::new(n as nat, |k: int| stream_index(data, bits, k) as u16)
        }
    }
}

/// Unpack bit-packed palette indices (at most 4096). Modern chunks (1.16+)
/// never span longs; legacy chunks (pre-1.16) bit-pack continuously across
/// longs.
pub fn unpack_indices(data: &[i64], palette_len: usize, spans_longs: bool) -> (out: Vec<u16>)
    requires
        palette_len <= 0x8000_0000_0000_0000,
    ensures
        out@ == unpacked(data@, palette_len as nat, spans_longs),
        palette_len <= 1 ==> out@.len() == 0,
        palette_len > 1 && !spans_longs ==> {
            let per: int = 64int / (index_bits(palette_len as nat) as int);
            &&& out@.len() == if data@.len() * per < 4096 { data@.len() * per } else { 4096 }
            &&& forall|k: int| 0 <= k < out@.len() ==> out@[k] == packed_index(data@, index_bits(palette_len as nat), k)
        },
        palette_len > 1 && spans_longs ==> {
            let bits = index_bits(palette_len as nat);
            &&& out@.len() <= 4096
            &&& (out@.len() == 4096 || out@.len() * bits >= 64 * data@.len())
            &&& forall|k: int| 0 <= k < out@.len() ==> #[trigger] (k * bits) < 64 * data@.len()
            &&& forall|k: int| 0 <= k < out@.len() ==> out@[k] == stream_index(data@, bits, k)
        },
{
    if palette_len <= 1 {
        return Vec::new();
    }
    let mut v: usize = palette_len - 1;
    let mut b: u32 = 0;
    proof {
        lemma_pow2_63();
        lemma_bit_length_bound((palette_len - 1) as nat, 63);
    }
    while v > 0
        invariant
            b + bit_length(v as nat) == bit_length((palette_len - 1) as nat),
            bit_length((palette_len - 1) as nat) <= 63,
        decreases v,
    {
        v = v / 2;
        b += 1;
    }
    let bits: u32 = if b < 4 { 4 } else { b };
    assert(bits == index_bits(palette_len as nat));
    let mask_mod: u128 = pow2_exec(bits);
    let mut out: Vec<u16> = Vec::new();
    if spans_longs {
        let mut bit_index: usize = 0;
        let mut long: usize = 0;
        while out.len() < 4096 && long < data.len()
            invariant
                4 <= bits <= 63,
                mask_mod == pow2(bits as nat),
                mask_mod >= 1,
                out@.len() <= 4096,
                bit_index <= 4096 * 63,
                bit_index == out@.len() * bits,
                long == bit_index / 64,
                forall|k: int| 0 <= k < out@.len() ==> #[trigger] (k * bits) < 64 * data@.len(),
                forall|k: int| 0 <= k < out@.len() ==> out@[k] == stream_index(data@, bits as nat, k),
            decreases 4096 - out@.len(),
        {
            let off = (bit_index % 64) as u32;
            let lo = as_unsigned(data[long]) as u128;
            let hi: u128 = if long + 1 < data.len() {
                as_unsigned(data[long + 1]) as u128
            } else {
                0
            };
            let p = pow2_exec(off);
            proof {
                lemma_pow2_mono(off as nat, 63);
                assert(lo + 0x1_0000_0000_0000_0000 * hi <= u128::MAX);
            }
            let combined: u128 = lo + 0x1_0000_0000_0000_0000 * hi;
            let field = (combined / p) % mask_mod;
            let value = (field % 65536) as u16;
            proof {
                let k = out@.len() as int;
                assert(k * bits < 64 * data@.len()) by (nonlinear_arith)
                    requires bit_index == k * bits, long == bit_index / 64, long < data@.len();
            }
            out.push(value);
            proof {
                assert((out@.len() as int) * bits == bit_index + bits) by (nonlinear_arith)
                    requires bit_index == (out@.len() - 1) * bits, bits > 0;
                assert((out@.len() as int) * bits <= 4096 * 63) by (nonlinear_arith)
                    requires out@.len() <= 4096, bits <= 63;
            }
            bit_index = bit_index + bits as usize;
            long = bit_index / 64;
        }
        proof {
            if out@.len() < 4096 {
                assert(out@.len() * bits >= 64 * data@.len()) by (nonlinear_arith)
                    requires long >= data@.len(), long == bit_index / 64, bit_index == out@.len() * bits;
            }
        }
    } else {
        let per: usize = (64 / bits) as usize;
        assert(1 <= per <= 16) by (nonlinear_arith)
            requires per == 64int / (bits as int), 4 <= bits <= 63;
        let mut long: usize = 0;
        while long < data.len()
            invariant
                4 <= bits <= 63,
                per == 64int / (bits as int),
                1 <= per <= 16,
                mask_mod == pow2(bits as nat),
                mask_mod >= 1,
                long <= data@.len(),
                out@.len() == if long * per < 4096 { long * per } else { 4096 },
                forall|k: int| 0 <= k < out@.len() ==> out@[k] == packed_index(data@, bits as nat, k),
            ensures
                long == data@.len() || out@.len() == 4096,
                out@.len() == if long * per < 4096 { long * per } else { 4096 },
                forall|k: int| 0 <= k < out@.len() ==> out@[k] == packed_index(data@, bits as nat, k),
            decreases data@.len() - long,
        {
            if out.len() == 4096 {
                break;
            }
            let packed = as_unsigned(data[long]) as u128;
            let mut i: usize = 0;
            while i < per
                invariant
                    4 <= bits <= 63,
                    per == 64int / (bits as int),
                    1 <= per <= 16,
                    mask_mod == pow2(bits as nat),
                    mask_mod >= 1,
                    long < data@.len(),
                    packed == unsigned64(data@[long as int]),
                    i <= per,
                    long * per < 4096,
                    out@.len() == if long * per + i < 4096 { long * per + i } else { 4096 },
                    forall|k: int| 0 <= k < out@.len() ==> out@[k] == packed_index(data@, bits as nat, k),
                ensures
                    i == per || out@.len() == 4096,
                    out@.len() == if long * per + i < 4096 { long * per + i } else { 4096 },
                    forall|k: int| 0 <= k < out@.len() ==> out@[k] == packed_index(data@, bits as nat, k),
                decreases per - i,
            {
                if out.len() == 4096 {
                    break;
                }
                proof {
                    assert(i * bits < 64) by (nonlinear_arith)
                        requires i < per, per == 64int / (bits as int), bits > 0;
                }
                let p = pow2_exec((i as u32) * bits);
                let field = (packed / p) % mask_mod;
                let value = (field % 65536) as u16;
                proof {
                    let k = long * per + i;
                    assert(k / (per as int) == long && k % (per as int) == i) by (nonlinear_arith)
                        requires k == long * per + i, i < per, per > 0;
                }
                out.push(value);
                i += 1;
            }
            proof {
                assert((long + 1) * per == long * per + per) by (nonlinear_arith);
            }
            long += 1;
        }
        proof {
            if long < data@.len() {
                assert(long * per <= data@.len() * per) by (nonlinear_arith)
                    requires long < data@.len(), per >= 1;
            }
        }
    }
    proof {
        if palette_len > 1 {
            let bits = index_bits(palette_len as nat);
            if spans_longs {
                let d = data@.len() as int;
                let n = out@.len() as int;
                let need: int = (64 * d + bits - 1) / (bits as int);
                if n > 0 {
                    assert((n - 1) * bits < 64 * d);
                }
                if n < 4096 {
                    assert(n == need) by (nonlinear_arith)
                        requires
                            n * bits >= 64 * d,
                            n > 0 ==> (n - 1) * bits < 64 * d,
                            bits >= 4,
                            need == (64 * d + bits - 1) / (bits as int),
                            n >= 0,
                            d >= 0,
                    ;
                } else {
                    assert(need >= 4096) by (nonlinear_arith)
                        requires
                            4095 * bits < 64 * d,
                            bits >= 4,
                            need == (64 * d + bits - 1) / (bits as int),
                    ;
                }
            }
            assert(out@ =~= unpacked(data@, palette_len as nat, spans_longs));
        } else {
            assert(out@ =~= unpacked(data@, palette_len as nat, spans_longs));
        }
    }
    out
}

} // verus!
