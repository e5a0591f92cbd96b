//! Java Edition chunk NBT: a chunk column read from its decoded tag tree.
//!
//! Supports both the modern layout (1.18+, `sections` with `block_states`)
//! and the legacy one (`Level.Sections` with `Palette`/`BlockStates`).
//! The tag tree is the reader's [`NbtValue`]; [`Chunk::from_nbt`] reads it
//! from the big-endian bytes first (through `fastnbt`).

use vstd::prelude::*;
use crate::bedrock::{insert_sorted, keys_increasing, lists_map, pairs_map, pairs_view, sorted_entries};
use crate::chunk::{unpack_indices, unpacked, BlockState, Chunk, SectionData};
use crate::nbt_le::{tag_get, NbtValue, Tag};
use crate::java_nbt::{holds, java_nbt, java_tag};

verus! {

/// Why a chunk could not be read.
#[derive(Debug)]
pub enum ChunkError {
    /// The NBT payload was malformed (the decoder's message).
    Nbt(String),
    /// An expected tag was missing or had the wrong type.
    Missing(String),
}

/// The properties of a palette entry: the string-valued entries of its
/// `Properties` compound, in entry order, each key once (a later value of
/// a key replacing an earlier one, as a map insert does).
pub open spec fn string_props(es: Seq<(Seq<char>, Tag)>) -> Seq<(Seq<char>, Seq<char>)>
    decreases es.len(),
{
    if es.len() == 0 {
        Seq::empty()
    } else {
        let before = string_props(es.drop_last());
        match es.last().1 {
            Tag::Str(v) => crate::bedrock::put_pair(before, es.last().0, v),
            _ => before,
        }
    }
}

/// The string properties of a compound hold every key once.
proof fn lemma_string_props_unique(es: Seq<(Seq<char>, Tag)>)
    ensures
        crate::chunk::keys_unique(string_props(es)),
    decreases es.len(),
{
    if es.len() > 0 {
        lemma_string_props_unique(es.drop_last());
        match es.last().1 {
            Tag::Str(v) => {
                crate::chunk::lemma_put_keeps_keys_unique(string_props(es.drop_last()), es.last().0, v);
            },
            _ => {},
        }
    }
}

/// A palette entry: its `Name` and string properties; or the tag that is
/// missing.
pub open spec fn spec_palette_entry(t: Tag) -> Result<(Seq<char>, Seq<(Seq<char>, Seq<char>)>), Seq<char>> {
    match t {
        Tag::Compound(_) => match tag_get(t, "Name"@) {
            Some(Tag::Str(n)) => Ok(
                (
                    n,
                    match tag_get(t, "Properties"@) {
                        Some(Tag::Compound(ps)) => string_props(ps),
                        _ => Seq::empty(),
                    },
                ),
            ),
            _ => Err("palette Name"@),
        },
        _ => Err("compound"@),
    }
}

/// The palette entries of a list, in order; or the first missing tag.
pub open spec fn spec_palette_list(items: Seq<Tag>) -> Result<Seq<(Seq<char>, Seq<(Seq<char>, Seq<char>)>)>, Seq<char>>
    decreases items.len(),
{
    if items.len() == 0 {
        Ok(Seq::empty())
    } else {
        match spec_palette_list(items.drop_last()) {
            Err(m) => Err(m),
            Ok(ps) => match spec_palette_entry(items.last()) {
                Err(m) => Err(m),
                Ok(e) => Ok(ps.push(e)),
            },
        }
    }
}

/// What a section tag decodes to: nothing for a section without `Y` or
/// without a palette; else its Y, palette and indices; or the tag that is
/// missing. A section without `block_states` is in the legacy layout,
/// whose indices span longs.
pub open spec fn spec_section(t: Tag) -> Result<
    Option<(i8, Seq<(Seq<char>, Seq<(Seq<char>, Seq<char>)>)>, Seq<u16>)>,
    Seq<char>,
> {
    match t {
        Tag::Compound(_) => match tag_get(t, "Y"@) {
            Some(Tag::Byte(y)) => {
                let legacy = !(tag_get(t, "block_states"@) matches Some(Tag::Compound(_)));
                let palette_value = if legacy {
                    tag_get(t, "Palette"@)
                } else {
                    tag_get(tag_get(t, "block_states"@).unwrap(), "palette"@)
                };
                let data_value = if legacy {
                    tag_get(t, "BlockStates"@)
                } else {
                    tag_get(tag_get(t, "block_states"@).unwrap(), "data"@)
                };
                match palette_value {
                    None => Ok(None),
                    Some(Tag::List(items)) => match spec_palette_list(items) {
                        Err(m) => Err(m),
                        Ok(ps) => match data_value {
                            None => Ok(Some((y, ps, Seq::empty()))),
                            Some(Tag::LongArray(d)) => Ok(Some((y, ps, unpacked(d, ps.len(), legacy)))),
                            Some(_) => Err("long array"@),
                        },
                    },
                    Some(_) => Err("list"@),
                }
            },
            _ => Ok(None),
        },
        _ => Err("compound"@),
    }
}

/// The palette list of a section tag holds at most `2^63` entries, as any
/// list in memory does.
pub open spec fn palette_fits(t: Tag) -> bool {
    let legacy = !(tag_get(t, "block_states"@) matches Some(Tag::Compound(_)));
    let palette_value = if legacy {
        tag_get(t, "Palette"@)
    } else {
        tag_get(tag_get(t, "block_states"@).unwrap(), "palette"@)
    };
    match palette_value {
        Some(Tag::List(items)) => items.len() <= 0x8000_0000_0000_0000,
        _ => true,
    }
}

/// A section as its Y, palette and indices.
pub open spec fn section_model(s: SectionData) -> (i8, Seq<(Seq<char>, Seq<(Seq<char>, Seq<char>)>)>, Seq<u16>) {
    (s.y, s.palette@.map_values(|b: BlockState| (b.name@, b.props())), s.indices@)
}

fn string_properties(c: &crate::nbt_le::NbtCompound) -> (r: Vec<(String, String)>)
    ensures
        pairs_view(r@) == string_props(c.model()),
{
    let ghost es = c.model();
    let mut out: Vec<(String, String)> = Vec::new();
    let mut k: usize = 0;
    assert(pairs_view(out@) =~= string_props(es.take(0)));
    while k < c.entries.len()
        invariant
            k <= c.entries@.len(),
            es == c.model(),
            es.len() == c.entries@.len(),
            pairs_view(out@) == string_props(es.take(k as int)),
        decreases c.entries@.len() - k,
    {
        proof {
            assert(es.take(k + 1).drop_last() =~= es.take(k as int));
            assert(es.take(k + 1).last() == es[k as int]);
            assert(es[k as int] == (c.entries@[k as int].0@, c.entries@[k as int].1.model()));
        }
        match &c.entries[k].1 {
            NbtValue::String(v) => {
                crate::bedrock::put(&mut out, c.entries[k].0.as_str(), v.as_str());
            },
            _ => {},
        }
        k += 1;
    }
    assert(es.take(k as int) =~= es);
    out
}

fn palette_entry(t: &NbtValue) -> (r: Result<BlockState, ChunkError>)
    ensures
        r matches Ok(b) ==> b.well_formed(),
        match spec_palette_entry(t.model()) {
            Ok((n, ps)) => r matches Ok(b) && b.name@ == n && b.props() == ps,
            Err(m) => r matches Err(ChunkError::Missing(x)) && x@ == m,
        },
{
    proof {
        reveal_strlit("compound");
        reveal_strlit("palette Name");
    }
    let c = match t.as_compound() {
        Some(c) => c,
        None => return Err(ChunkError::Missing(String::from_str("compound"))),
    };
    let name = match c.lookup("Name") {
        Some(NbtValue::String(n)) => n.clone(),
        _ => return Err(ChunkError::Missing(String::from_str("palette Name"))),
    };
    let properties = match c.lookup("Properties") {
        Some(NbtValue::Compound(ps)) => string_properties(ps),
        _ => Vec::new(),
    };
    let b = BlockState { name, properties };
    proof {
        lemma_string_props_unique(match tag_get(t.model(), "Properties"@) {
            Some(Tag::Compound(es)) => es,
            _ => Seq::empty(),
        });
        if !(tag_get(t.model(), "Properties"@) matches Some(Tag::Compound(_))) {
            assert(b.props() =~= Seq::<(Seq<char>, Seq<char>)>::empty());
        }
    }
    Ok(b)
}

/// Parse one section entry, or `None` for sections with no block data.
pub fn parse_section(value: &NbtValue) -> (r: Result<Option<SectionData>, ChunkError>)
    requires
        palette_fits(value.model()),
    ensures
        match spec_section(value.model()) {
            Ok(None) => r matches Ok(None),
            Ok(Some(m)) => r matches Ok(Some(s)) && section_model(s) == m,
            Err(m) => r matches Err(ChunkError::Missing(x)) && x@ == m,
        },
        r matches Ok(Some(s)) ==> crate::chunk::section_states_well_formed(s),
{
    proof {
        reveal_strlit("compound");
        reveal_strlit("list");
        reveal_strlit("long array");
    }
    let c = match value.as_compound() {
        Some(c) => c,
        None => return Err(ChunkError::Missing(String::from_str("compound"))),
    };
    let y: i8 = match c.lookup("Y") {
        Some(NbtValue::Byte(y)) => *y,
        _ => return Ok(None),
    };
    let block_states = match c.lookup("block_states") {
        Some(NbtValue::Compound(bs)) => Some(bs),
        _ => None,
    };
    let legacy = block_states.is_none();
    let (palette_value, data_value) = match block_states {
        Some(bs) => (bs.lookup("palette"), bs.lookup("data")),
        None => (c.lookup("Palette"), c.lookup("BlockStates")),
    };
    let items = match palette_value {
        None => return Ok(None),
        Some(NbtValue::List(items)) => items,
        Some(_) => return Err(ChunkError::Missing(String::from_str("list"))),
    };
    let ghost tags = crate::nbt_le::list_model(items@);
    let mut palette: Vec<BlockState> = Vec::new();
    let mut k: usize = 0;
    let mut failed: Option<ChunkError> = None;
    assert(palette@.map_values(|b: BlockState| (b.name@, b.props())) =~= Seq::<(Seq<char>, Seq<(Seq<char>, Seq<char>)>)>::empty());
    assert(tags.take(0) =~= Seq::<Tag>::empty());
    while k < items.len() && failed.is_none()
        invariant
            k <= items@.len(),
            tags == crate::nbt_le::list_model(items@),
            tags.len() == items@.len(),
            palette@.len() == k,
            forall|q: int| 0 <= q < k ==> (#[trigger] palette@[q]).well_formed(),
            failed is None ==> spec_palette_list(tags.take(k as int)) == Ok::<Seq<(Seq<char>, Seq<(Seq<char>, Seq<char>)>)>, Seq<char>>(
                palette@.map_values(|b: BlockState| (b.name@, b.props())),
            ),
            failed matches Some(e) ==> (spec_palette_list(tags) matches Err(m) && e matches ChunkError::Missing(x)
                && x@ == m),
        decreases items@.len() - k + if failed is None { 1int } else { 0int },
    {
        proof {
            assert(tags.take(k + 1).drop_last() =~= tags.take(k as int));
            assert(tags.take(k + 1).last() == tags[k as int]);
            assert(tags[k as int] == items@[k as int].model());
        }
        match palette_entry(&items[k]) {
            Err(e) => {
                proof {
                    lemma_palette_list_error(tags, (k + 1) as nat);
                }
                failed = Some(e);
            },
            Ok(b) => {
                let ghost before = palette@.map_values(|b: BlockState| (b.name@, b.props()));
                palette.push(b);
                assert(palette@.map_values(|b: BlockState| (b.name@, b.props())) =~= before.push((b.name@, b.props())));
                k += 1;
            },
        }
    }
    if let Some(e) = failed {
        return Err(e);
    }
    assert(tags.take(k as int) =~= tags);
    let indices = match data_value {
        None => Vec::new(),
        Some(NbtValue::LongArray(d)) => unpack_indices(d.as_slice(), palette.len(), legacy),
        Some(_) => return Err(ChunkError::Missing(String::from_str("long array"))),
    };
    Ok(Some(SectionData { y, palette, indices }))
}

proof fn lemma_palette_list_error(items: Seq<Tag>, k: nat)
    requires
        k <= items.len(),
        spec_palette_list(items.take(k as int)) is Err,
    ensures
        spec_palette_list(items) == spec_palette_list(items.take(k as int)),
    decreases items.len() - k,
{
    if k < items.len() {
        assert(items.take(k as int + 1).drop_last() =~= items.take(k as int));
        lemma_palette_list_error(items, k + 1);
    } else {
        assert(items.take(k as int) =~= items);
    }
}


/// The tag holding a chunk's coordinates and sections: `Level` in the
/// legacy layout, the root itself in the modern one.
pub open spec fn chunk_container(t: Tag) -> Tag {
    match tag_get(t, "Level"@) {
        Some(Tag::Compound(es)) => Tag::Compound(es),
        _ => t,
    }
}

/// The section list tag of a chunk (`sections`, or legacy `Sections`).
pub open spec fn sections_value(t: Tag) -> Option<Tag> {
    let c = chunk_container(t);
    match tag_get(c, "sections"@) {
        Some(v) => Some(v),
        None => tag_get(c, "Sections"@),
    }
}

/// Every section of a chunk tag has a palette that fits in memory.
pub open spec fn chunk_fits(t: Tag) -> bool {
    match sections_value(t) {
        Some(Tag::List(items)) => forall|i: int| 0 <= i < items.len() ==> palette_fits(#[trigger] items[i]),
        _ => true,
    }
}

/// The sections with block data of a section list, in order; or the first
/// missing tag.
pub open spec fn spec_sections(items: Seq<Tag>) -> Result<
    Seq<(i8, Seq<(Seq<char>, Seq<(Seq<char>, Seq<char>)>)>, Seq<u16>)>,
    Seq<char>,
>
    decreases items.len(),
{
    if items.len() == 0 {
        Ok(Seq::empty())
    } else {
        match spec_sections(items.drop_last()) {
            Err(m) => Err(m),
            Ok(ss) => match spec_section(items.last()) {
                Err(m) => Err(m),
                Ok(None) => Ok(ss),
                Ok(Some(sec)) => Ok(ss.push(sec)),
            },
        }
    }
}

/// What a chunk tag decodes to: its coordinates and sections; or the tag
/// that is missing.
pub open spec fn spec_chunk(t: Tag) -> Result<
    (i32, i32, Seq<(i8, Seq<(Seq<char>, Seq<(Seq<char>, Seq<char>)>)>, Seq<u16>)>),
    Seq<char>,
> {
    match t {
        Tag::Compound(_) => {
            let c = chunk_container(t);
            match tag_get(c, "xPos"@) {
                Some(Tag::Int(x)) => match tag_get(c, "zPos"@) {
                    Some(Tag::Int(z)) => match sections_value(t) {
                        None => Err("sections"@),
                        Some(Tag::List(items)) => match spec_sections(items) {
                            Err(m) => Err(m),
                            Ok(ss) => Ok((x, z, ss)),
                        },
                        Some(_) => Err("list"@),
                    },
                    _ => Err("zPos"@),
                },
                _ => Err("xPos"@),
            }
        },
        _ => Err("compound"@),
    }
}

proof fn lemma_sections_error(items: Seq<Tag>, k: nat)
    requires
        k <= items.len(),
        spec_sections(items.take(k as int)) is Err,
    ensures
        spec_sections(items) == spec_sections(items.take(k as int)),
    decreases items.len() - k,
{
    if k < items.len() {
        assert(items.take(k as int + 1).drop_last() =~= items.take(k as int));
        lemma_sections_error(items, k + 1);
    } else {
        assert(items.take(k as int) =~= items);
    }
}

impl Chunk {
    /// Decode a chunk from its NBT tag tree. Modern chunks store
    /// `xPos`/`zPos`/`sections` at the root; legacy chunks nest them under
    /// `Level` (which also uses `Sections`/`Palette`). Sections without
    /// block data are left out.
    pub fn from_nbt_value(root: &NbtValue) -> (r: Result<Chunk, ChunkError>)
        requires
            chunk_fits(root.model()),
        ensures
            match spec_chunk(root.model()) {
                Ok((x, z, ss)) => r matches Ok(c) && c.x == x && c.z == z && c.sections@.map_values(
                    |s: SectionData| section_model(s),
                ) == ss,
                Err(m) => r matches Err(ChunkError::Missing(t)) && t@ == m,
            },
            r matches Ok(c) ==> crate::chunk::states_well_formed(c.sections()),
    {
        proof {
            reveal_strlit("compound");
            reveal_strlit("xPos");
            reveal_strlit("zPos");
            reveal_strlit("sections");
            reveal_strlit("list");
        }
        let top = match root.as_compound() {
            Some(c) => c,
            None => return Err(ChunkError::Missing(String::from_str("compound"))),
        };
        let container = match top.lookup("Level") {
            Some(NbtValue::Compound(level)) => level,
            _ => top,
        };
        let x = match container.lookup("xPos") {
            Some(NbtValue::Int(x)) => *x,
            _ => return Err(ChunkError::Missing(String::from_str("xPos"))),
        };
        let z = match container.lookup("zPos") {
            Some(NbtValue::Int(z)) => *z,
            _ => return Err(ChunkError::Missing(String::from_str("zPos"))),
        };
        let sections_tag = match container.lookup("sections") {
            Some(v) => Some(v),
            None => container.lookup("Sections"),
        };
        let items = match sections_tag {
            None => return Err(ChunkError::Missing(String::from_str("sections"))),
            Some(NbtValue::List(items)) => items,
            Some(_) => return Err(ChunkError::Missing(String::from_str("list"))),
        };
        let ghost tags = crate::nbt_le::list_model(items@);
        assert(forall|i: int| 0 <= i < tags.len() ==> palette_fits(#[trigger] tags[i]));
        let mut sections: Vec<SectionData> = Vec::new();
        let mut failed: Option<ChunkError> = None;
        let mut k: usize = 0;
        assert(sections@.map_values(|s: SectionData| section_model(s)) =~= Seq::<(i8, Seq<(Seq<char>, Seq<(Seq<char>, Seq<char>)>)>, Seq<u16>)>::empty());
        assert(tags.take(0) =~= Seq::<Tag>::empty());
        while k < items.len() && failed.is_none()
            invariant
                k <= items@.len(),
                tags == crate::nbt_le::list_model(items@),
                tags.len() == items@.len(),
                forall|i: int| 0 <= i < tags.len() ==> palette_fits(#[trigger] tags[i]),
                crate::chunk::states_well_formed(sections@),
                failed is None ==> spec_sections(tags.take(k as int)) == Ok::<Seq<(i8, Seq<(Seq<char>, Seq<(Seq<char>, Seq<char>)>)>, Seq<u16>)>, Seq<char>>(
                    sections@.map_values(|s: SectionData| section_model(s)),
                ),
                failed matches Some(e) ==> (spec_sections(tags) matches Err(m) && e matches ChunkError::Missing(t)
                    && t@ == m),
            decreases items@.len() - k + if failed is None { 1int } else { 0int },
        {
            proof {
                assert(tags.take(k + 1).drop_last() =~= tags.take(k as int));
                assert(tags.take(k + 1).last() == tags[k as int]);
                assert(tags[k as int] == items@[k as int].model());
                assert(palette_fits(tags[k as int]));
            }
            match parse_section(&items[k]) {
                Err(e) => {
                    proof {
                        lemma_sections_error(tags, (k + 1) as nat);
                    }
                    failed = Some(e);
                },
                Ok(None) => {
                    k += 1;
                },
                Ok(Some(sec)) => {
                    let ghost before = sections@.map_values(|s: SectionData| section_model(s));
                    let ghost sbefore = sections@;
                    sections.push(sec);
                    assert(sections@.map_values(|s: SectionData| section_model(s)) =~= before.push(section_model(sec)));
                    assert(sections@ == sbefore.push(sec));
                    k += 1;
                },
            }
        }
        if let Some(e) = failed {
            return Err(e);
        }
        assert(tags.take(k as int) =~= tags);
        Ok(Chunk { x, z, sections })
    }
}

/// The cache key of a block state: its name, then `|key=value` for each
/// property in increasing key order (the first pair of a key counting).
pub open spec fn cache_key_of(name: Seq<char>, sorted: Seq<(Seq<char>, Seq<char>)>) -> Seq<char>
    decreases sorted.len(),
{
    if sorted.len() == 0 {
        name
    } else {
        cache_key_of(name, sorted.drop_last()) + seq!['|'] + sorted.last().0 + seq!['='] + sorted.last().1
    }
}

impl BlockState {
    /// A key naming the block state exactly: its name and every property,
    /// in increasing key order, as `name|k=v|k=v`.
    pub fn cache_key(&self) -> (r: String)
        ensures
            r@ == cache_key_of(self.name@, sorted_entries(pairs_map(self.props().reverse()))),
    {
        let ghost ps = self.props();
        let mut sorted: Vec<(String, String)> = Vec::new();
        let mut i: usize = self.properties.len();
        proof {
            assert(ps.reverse().take(0) =~= Seq::<(Seq<char>, Seq<char>)>::empty());
            assert(pairs_map(ps.reverse().take(0)) =~= Map::<Seq<char>, Seq<char>>::empty());
            assert(pairs_view(sorted@) =~= Seq::<(Seq<char>, Seq<char>)>::empty());
        }
        while i > 0
            invariant
                i <= self.properties@.len(),
                ps == self.props(),
                ps.len() == self.properties@.len(),
                keys_increasing(pairs_view(sorted@)),
                lists_map(pairs_view(sorted@), pairs_map(ps.reverse().take(ps.len() - i))),
            decreases i,
        {
            i -= 1;
            let ghost m0 = pairs_map(ps.reverse().take(ps.len() - i - 1));
            let ghost kv = (self.properties@[i as int].0@, self.properties@[i as int].1@);
            proof {
                let t = ps.reverse().take(ps.len() - i);
                assert(t.drop_last() =~= ps.reverse().take(ps.len() - i - 1));
                assert(t.last() == ps[i as int]);
                assert(ps[i as int] == kv);
            }
            insert_sorted(&mut sorted, self.properties[i].0.clone(), self.properties[i].1.clone());
        }
        proof {
            assert(ps.reverse().take(ps.len() as int) =~= ps.reverse());
            crate::bedrock::lemma_sorted_is_the_sorted_entries(pairs_view(sorted@), pairs_map(ps.reverse()));
        }
        let ghost sv = pairs_view(sorted@);
        let mut key = self.name.clone();
        let mut k: usize = 0;
        assert(sv.take(0) =~= Seq::<(Seq<char>, Seq<char>)>::empty());
        while k < sorted.len()
            invariant
                k <= sorted@.len(),
                sv == pairs_view(sorted@),
                key@ == cache_key_of(self.name@, sv.take(k as int)),
            decreases sorted@.len() - k,
        {
            proof {
                assert(sv.take(k + 1).drop_last() =~= sv.take(k as int));
                assert(sv.take(k + 1).last() == sv[k as int]);
                reveal_strlit("|");
                reveal_strlit("=");
            }
            key.append("|");
            key.append(sorted[k].0.as_str());
            key.append("=");
            key.append(sorted[k].1.as_str());
            assert(key@ =~= cache_key_of(self.name@, sv.take(k + 1)));
            k += 1;
        }
        assert(sv.take(k as int) =~= sv);
        key
    }
}

} // verus!

verus! {

/// Whether a section's palette fits in memory (`palette_fits`).
fn section_palette_fits(t: &NbtValue) -> (r: bool)
    ensures
        r == palette_fits(t.model()),
{
    let c = match t.as_compound() {
        Some(c) => c,
        None => return true,
    };
    let pv = match c.lookup("block_states") {
        Some(NbtValue::Compound(bs)) => bs.lookup("palette"),
        _ => c.lookup("Palette"),
    };
    match pv {
        Some(NbtValue::List(items)) => {
            proof {
                assert(crate::nbt_le::list_model(items@).len() == items@.len());
            }
            items.len() as u64 <= 0x8000_0000_0000_0000u64
        },
        _ => true,
    }
}

proof fn lemma_chunk_not_fits(t: Tag, tags: Seq<Tag>, k: int)
    requires
        sections_value(t) == Some(Tag::List(tags)),
        0 <= k < tags.len(),
        !palette_fits(tags[k]),
    ensures
        !chunk_fits(t),
{
    let sv = sections_value(t);
    assert(sv matches Some(Tag::List(x)) && x == tags);
    assert(!palette_fits(tags[k]));
    if chunk_fits(t) {
        assert(forall|i: int| 0 <= i < tags.len() ==> palette_fits(#[trigger] tags[i]));
        assert(palette_fits(tags[k]));
    }
}

/// Whether every section palette of a chunk tree fits in memory
/// (`chunk_fits`).
fn palettes_fit(root: &NbtValue) -> (r: bool)
    ensures
        r == chunk_fits(root.model()),
{
    let top = match root.as_compound() {
        Some(c) => c,
        None => return true,
    };
    let container = match top.lookup("Level") {
        Some(NbtValue::Compound(level)) => level,
        _ => top,
    };
    let sections = match container.lookup("sections") {
        Some(v) => Some(v),
        None => container.lookup("Sections"),
    };
    let items = match sections {
        Some(NbtValue::List(items)) => items,
        _ => return true,
    };
    let ghost tags = crate::nbt_le::list_model(items@);
    assert(chunk_container(root.model()) == Tag::Compound(container.model()));
    assert(sections_value(root.model()) == Some(Tag::List(tags)));
    let mut k: usize = 0;
    while k < items.len()
        invariant
            k <= items@.len(),
            tags == crate::nbt_le::list_model(items@),
            sections_value(root.model()) == Some(Tag::List(tags)),
            forall|i: int| 0 <= i < k ==> palette_fits(#[trigger] tags[i]),
        decreases items@.len() - k,
    {
        assert(tags[k as int] == items@[k as int].model());
        if !section_palette_fits(&items[k]) {
            assert(!palette_fits(tags[k as int]));
            assert(tags.len() == items@.len());
            proof {
                lemma_chunk_not_fits(root.model(), tags, k as int);
            }
            return false;
        }
        k += 1;
    }
    true
}

/// What reading a chunk gives for a tag tree: the chunk of `spec_chunk`, or
/// its missing tag; a decoder error when a palette is longer than any
/// machine holds (2^63 entries).
pub open spec fn chunk_read(t: Tag, r: Result<Chunk, ChunkError>) -> bool {
    if chunk_fits(t) {
        match spec_chunk(t) {
            Ok((x, z, ss)) => r matches Ok(c) && c.x == x && c.z == z && c.sections@.map_values(
                |s: SectionData| section_model(s),
            ) == ss,
            Err(m) => r matches Err(ChunkError::Missing(x)) && x@ == m,
        }
    } else {
        r matches Err(ChunkError::Nbt(_))
    }
}

impl Chunk {
    /// Decode a chunk from its (already decompressed) NBT bytes: `fastnbt`
    /// reads the bytes, and the tag tree is decoded as
    /// [`Chunk::from_nbt_value`] does. A payload that is not NBT gives the
    /// decoder's message.
    pub fn from_nbt(bytes: &[u8]) -> (r: Result<Chunk, ChunkError>)
        ensures
            java_tag(bytes@) is None ==> r matches Err(ChunkError::Nbt(_)),
            java_tag(bytes@) matches Some(j) ==> exists|t: Tag| holds(t, j) && #[trigger] chunk_read(t, r),
            r matches Ok(c) ==> crate::chunk::states_well_formed(c.sections()),
    {
        let root = match java_nbt(bytes) {
            Ok(v) => v,
            Err(e) => return Err(ChunkError::Nbt(e)),
        };
        if !palettes_fit(&root) {
            let r = Err(ChunkError::Nbt(String::from_str("palette longer than 2^63 entries")));
            assert(chunk_read(root.model(), r));
            return r;
        }
        let r = Chunk::from_nbt_value(&root);
        assert(chunk_read(root.model(), r));
        r
    }
}

} // verus!
