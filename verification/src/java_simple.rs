//! Exterior blocks of a Java world, kept as position → block name, with the
//! block names in first-seen order.
//!
//! A position is stored under one 128-bit integer key that packs its three
//! coordinates, so lookups go through a hash map with an integer key.

use vstd::prelude::*;
use vstd::arithmetic::div_mod::lemma_fundamental_div_mod_converse;
use vstd::set_lib::lemma_map_size;
use std::collections::HashMap;

verus! {

broadcast use vstd::std_specs::hash::group_hash_axioms;

/// The key a position is stored under: `x·2⁶⁴ + (y + 2³¹)·2³² + (z + 2³¹)`.
pub open spec fn pos_key(p: (i32, i32, i32)) -> i128 {
    (p.0 as int * 0x1_0000_0000_0000_0000 + (p.1 as int + 0x8000_0000) * 0x1_0000_0000 + (p.2 as int
        + 0x8000_0000)) as i128
}

/// The position a key stands for.
pub open spec fn key_pos(k: i128) -> (i32, i32, i32) {
    let t = k as int / 0x1_0000_0000;
    (
        (t / 0x1_0000_0000) as i32,
        (t % 0x1_0000_0000 - 0x8000_0000) as i32,
        (k as int % 0x1_0000_0000 - 0x8000_0000) as i32,
    )
}

/// Keys fit in an `i128` and give their position back.
proof fn lemma_key_round_trip(p: (i32, i32, i32))
    ensures
        pos_key(p) as int == p.0 as int * 0x1_0000_0000_0000_0000 + (p.1 as int + 0x8000_0000)
            * 0x1_0000_0000 + (p.2 as int + 0x8000_0000),
        key_pos(pos_key(p)) == p,
{
    let a = p.0 as int;
    let b = p.1 as int + 0x8000_0000;
    let c = p.2 as int + 0x8000_0000;
    let t = a * 0x1_0000_0000 + b;
    let k = t * 0x1_0000_0000 + c;
    assert(k == a * 0x1_0000_0000_0000_0000 + b * 0x1_0000_0000 + c);
    assert(i128::MIN <= k <= i128::MAX);
    lemma_fundamental_div_mod_converse(k, 0x1_0000_0000, t, c);
    lemma_fundamental_div_mod_converse(t, 0x1_0000_0000, a, b);
}

/// Two positions share a key only when they are the same position.
proof fn lemma_key_injective(p: (i32, i32, i32), q: (i32, i32, i32))
    ensures
        pos_key(p) == pos_key(q) <==> p == q,
{
    lemma_key_round_trip(p);
    lemma_key_round_trip(q);
}

/// The key of a position.
fn key_of(x: i32, y: i32, z: i32) -> (k: i128)
    ensures
        k == pos_key((x, y, z)),
{
    proof {
        lemma_key_round_trip((x, y, z));
    }
    (x as i128) * 0x1_0000_0000_0000_0000i128 + ((y as i128) + 0x8000_0000i128) * 0x1_0000_0000i128 + ((
    z as i128) + 0x8000_0000i128)
}

/// The map after placing `name` at each of `ps` in turn.
pub open spec fn placed(
    m: Map<(i32, i32, i32), Seq<char>>,
    name: Seq<char>,
    ps: Seq<(i32, i32, i32)>,
) -> Map<(i32, i32, i32), Seq<char>>
    decreases ps.len(),
{
    if ps.len() == 0 {
        m
    } else {
        placed(m, name, ps.drop_last()).insert(ps.last(), name)
    }
}

/// The blocks of a list of `(name, positions)` groups, taken in order: a
/// position named by a later group keeps the later name.
pub open spec fn grouped(gs: Seq<(String, Vec<(i32, i32, i32)>)>) -> Map<(i32, i32, i32), Seq<char>>
    decreases gs.len(),
{
    if gs.len() == 0 {
        Map::empty()
    } else {
        placed(grouped(gs.drop_last()), gs.last().0@, gs.last().1@)
    }
}

/// Exterior block positions grouped by block name.
pub struct ExteriorWorld {
    /// All exterior blocks: packed position (see `pos_key`) → block name.
    pub blocks: HashMap<i128, String>,
    /// Block names in first-seen order.
    pub names: Vec<String>,
}

impl ExteriorWorld {
    /// Every stored key is the key of a position.
    pub open spec fn well_formed(&self) -> bool {
        forall|k: i128| #[trigger] self.blocks@.contains_key(k) ==> k == pos_key(key_pos(k))
    }

    /// The exterior blocks: position → block name.
    pub open spec fn block_map(&self) -> Map<(i32, i32, i32), Seq<char>> {
        Map::new(
            |p: (i32, i32, i32)| self.blocks@.contains_key(pos_key(p)),
            |p: (i32, i32, i32)| self.blocks@[pos_key(p)]@,
        )
    }

    /// Collect exterior blocks from `(name, positions)` groups, in order; the
    /// names are kept in the order of the groups.
    pub fn from_groups(groups: Vec<(String, Vec<(i32, i32, i32)>)>) -> (r: Self)
        ensures
            r.well_formed(),
            r.block_map() == grouped(groups@),
            r.names@.len() == groups@.len(),
            forall|i: int| 0 <= i < groups@.len() ==> #[trigger] r.names@[i]@ == groups@[i].0@,
    {
        let mut world = ExteriorWorld { blocks: HashMap::new(), names: Vec::new() };
        assert(world.block_map() =~= grouped(groups@.take(0)));
        let mut gi: usize = 0;
        while gi < groups.len()
            invariant
                gi <= groups@.len(),
                world.well_formed(),
                world.block_map() == grouped(groups@.take(gi as int)),
                world.names@.len() == gi,
                forall|i: int| 0 <= i < gi ==> #[trigger] world.names@[i]@ == groups@[i].0@,
            decreases groups@.len() - gi,
        {
            let name = &groups[gi].0;
            let ps = &groups[gi].1;
            world.names.push(name.clone());
            let ghost start = world.block_map();
            let ghost names_now = world.names@;
            let mut pi: usize = 0;
            assert(placed(start, name@, ps@.take(0)) == start);
            while pi < ps.len()
                invariant
                    pi <= ps@.len(),
                    world.well_formed(),
                    world.block_map() == placed(start, name@, ps@.take(pi as int)),
                    world.names@ == names_now,
                decreases ps@.len() - pi,
            {
                let (x, y, z) = ps[pi];
                let k = key_of(x, y, z);
                let ghost before = world.block_map();
                world.blocks.insert(k, name.clone());
                proof {
                    lemma_key_round_trip((x, y, z));
                    assert forall|q: (i32, i32, i32)| #[trigger] world.blocks@.contains_key(pos_key(q)) == (
                    before.contains_key(q) || q == (x, y, z)) by {
                        lemma_key_injective(q, (x, y, z));
                    }
                    assert(world.block_map() =~= before.insert((x, y, z), name@)) by {
                        assert forall|q: (i32, i32, i32)| #[trigger]
                            world.block_map().contains_key(q) implies world.block_map()[q] == before.insert(
                            (x, y, z),
                            name@,
                        )[q] by {
                            lemma_key_injective(q, (x, y, z));
                        }
                    }
                    assert(ps@.take(pi + 1).drop_last() =~= ps@.take(pi as int));
                }
                pi += 1;
            }
            proof {
                assert(ps@.take(ps@.len() as int) =~= ps@);
                assert(groups@.take(gi + 1).drop_last() =~= groups@.take(gi as int));
            }
            gi += 1;
        }
        assert(groups@.take(groups@.len() as int) =~= groups@);
        world
    }

    /// Get the block name at a world position.
    pub fn block_at(&self, x: i32, y: i32, z: i32) -> (r: Option<&str>)
        ensures
            match r {
                Some(s) => self.block_map().contains_key((x, y, z)) && s@ == self.block_map()[(x, y, z)],
                None => !self.block_map().contains_key((x, y, z)),
            },
    {
        let k = key_of(x, y, z);
        match self.blocks.get(&k) {
            Some(s) => Some(s.as_str()),
            None => None,
        }
    }

    /// The number of stored keys equals the number of positions.
    proof fn lemma_len(&self)
        requires
            self.well_formed(),
        ensures
            self.block_map().dom().finite(),
            self.block_map().len() == self.blocks@.len(),
    {
        let keys = self.blocks@.dom();
        let f = |k: i128| key_pos(k);
        assert(keys.finite());
        assert forall|a: i128, b: i128| keys.contains(a) && keys.contains(b) && #[trigger] f(a) == #[trigger] f(b) implies a == b by {
            assert(self.blocks@.contains_key(a));
            assert(self.blocks@.contains_key(b));
        }
        assert(vstd::relations::injective_on(f, keys));
        assert forall|p: (i32, i32, i32)| #[trigger] self.block_map().dom().contains(p) <==> keys.map(f).contains(p) by {
            lemma_key_round_trip(p);
            if keys.map(f).contains(p) {
                let k = choose|k: i128| keys.contains(k) && f(k) == p;
                assert(self.blocks@.contains_key(k));
            }
            if self.block_map().dom().contains(p) {
                assert(keys.contains(pos_key(p)));
                assert(f(pos_key(p)) == p);
            }
        }
        assert(self.block_map().dom() =~= keys.map(f));
        lemma_map_size(keys, keys.map(f), f);
    }

    /// Number of exterior blocks.
    pub fn len(&self) -> (r: usize)
        requires
            self.well_formed(),
        ensures
            r == self.block_map().len(),
    {
        proof {
            self.lemma_len();
        }
        self.blocks.len()
    }

    /// True when the world has no exterior block.
    pub fn is_empty(&self) -> (r: bool)
        requires
            self.well_formed(),
        ensures
            r == (self.block_map().len() == 0),
    {
        self.len() == 0
    }
}

/// The position of the last group that lists `p`.
pub open spec fn last_group_with(gs: Seq<(String, Vec<(i32, i32, i32)>)>, p: (i32, i32, i32)) -> Option<int>
    decreases gs.len(),
{
    if gs.len() == 0 {
        None
    } else if gs.last().1@.contains(p) {
        Some(gs.len() - 1)
    } else {
        last_group_with(gs.drop_last(), p)
    }
}

/// The last group listing a position is one of the groups.
proof fn lemma_last_group_range(gs: Seq<(String, Vec<(i32, i32, i32)>)>, p: (i32, i32, i32))
    ensures
        last_group_with(gs, p) matches Some(i) ==> 0 <= i < gs.len(),
    decreases gs.len(),
{
    if gs.len() > 0 {
        lemma_last_group_range(gs.drop_last(), p);
    }
}

/// Placing a name at some positions sets exactly those.
proof fn lemma_placed(m: Map<(i32, i32, i32), Seq<char>>, name: Seq<char>, ps: Seq<(i32, i32, i32)>, p: (i32, i32, i32))
    ensures
        placed(m, name, ps).contains_key(p) <==> (ps.contains(p) || m.contains_key(p)),
        ps.contains(p) ==> placed(m, name, ps)[p] == name,
        !ps.contains(p) && m.contains_key(p) ==> placed(m, name, ps)[p] == m[p],
    decreases ps.len(),
{
    if ps.len() > 0 {
        lemma_placed(m, name, ps.drop_last(), p);
        if ps.drop_last().contains(p) {
            let i = choose|i: int| 0 <= i < ps.drop_last().len() && ps.drop_last()[i] == p;
            assert(ps[i] == p);
        }
        if ps.contains(p) && ps.last() != p {
            let i = choose|i: int| 0 <= i < ps.len() && ps[i] == p;
            assert(ps.drop_last()[i] == p);
        }
        if ps.last() == p {
            assert(ps[ps.len() - 1] == p);
        }
    }
}

/// A later group wins: after collecting `(name, positions)` groups, a
/// position holds the name of the last group that lists it, and positions
/// no group lists hold nothing.
pub proof fn law_later_groups_win(gs: Seq<(String, Vec<(i32, i32, i32)>)>, p: (i32, i32, i32))
    ensures
        match last_group_with(gs, p) {
            Some(i) => grouped(gs).contains_key(p) && grouped(gs)[p] == gs[i].0@,
            None => !grouped(gs).contains_key(p),
        },
    decreases gs.len(),
{
    if gs.len() > 0 {
        law_later_groups_win(gs.drop_last(), p);
        lemma_placed(grouped(gs.drop_last()), gs.last().0@, gs.last().1@, p);
        lemma_last_group_range(gs.drop_last(), p);
        if !gs.last().1@.contains(p) {
            if let Some(i) = last_group_with(gs.drop_last(), p) {
                assert(gs.drop_last()[i] == gs[i]);
            }
        }
    }
}

} // verus!
