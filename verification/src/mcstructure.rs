//! Parser for Minecraft Bedrock Edition `.mcstructure` files.
//!
//! `.mcstructure` files are little-endian NBT (see [`crate::nbt_le`]). The
//! root compound contains:
//!
//! ```text
//! format_version: int (always 1)
//! size:           list[int; 3]  — [X, Y, Z] in blocks
//! structure:
//!   block_palette: list[compound]  — each has "name" string
//!   block_indices: list[list[int]] — two layers (terrain, waterlogged)
//!                  flat index = z*size_y*size_x + y*size_x + x
//!   entities:    list[compound]  (ignored)
//! structure_world_origin: list[int; 3]  (ignored for mesh purposes)
//! ```
//!
//! Block indices reference the `block_palette` list by position. Layer 0 is
//! terrain; layer 1 contains waterlogged / extra blocks.

use vstd::prelude::*;
use crate::nbt_le::{NbtValue, NbtCompound, NbtCursor, Tag, tag_get, list_model, spec_root, nbt_error_text};
use crate::text::decimal;
use crate::text::decimal_string;
use crate::chunk::{BlockState, SectionData, Chunk};

verus! {

/// Why reading a `.mcstructure` file failed.
#[derive(Debug)]
pub enum McStructureError {
    /// The NBT payload was malformed.
    Nbt(String),
    /// An expected field was absent or had the wrong type.
    Missing(String),
    /// The format version is not supported (only version 1 is understood).
    Unsupported(String),
}

/// The meaning of a [`McStructureError`].
pub ghost enum StructureFault {
    Nbt(Seq<char>),
    Missing(Seq<char>),
    Unsupported(Seq<char>),
}

impl McStructureError {
    pub open spec fn model(&self) -> StructureFault {
        match self {
            McStructureError::Nbt(m) => StructureFault::Nbt(m@),
            McStructureError::Missing(m) => StructureFault::Missing(m@),
            McStructureError::Unsupported(m) => StructureFault::Unsupported(m@),
        }
    }
}

/// A decoded `.mcstructure` file, ready to be converted to chunks.
pub struct McStructure {
    /// Bounding box width (X axis).
    pub size_x: i32,
    /// Bounding box height (Y axis).
    pub size_y: i32,
    /// Bounding box depth (Z axis).
    pub size_z: i32,
    /// Block palette: namespaced block names, e.g. `"minecraft:stone"`.
    pub palette: Vec<String>,
    /// Flat palette indices, `z*size_y*size_x + y*size_x + x`. Index -1
    /// means "no block" (air).
    pub indices: Vec<i32>,
}

/// The meaning of a decoded structure: sizes, palette names, indices.
pub type StructureModel = (i32, i32, i32, Seq<Seq<char>>, Seq<i32>);

/// The palette names of a `block_palette` list, or the first entry's fault.
pub open spec fn spec_palette(items: Seq<Tag>) -> Result<Seq<Seq<char>>, StructureFault>
    decreases items.len(),
{
    if items.len() == 0 {
        Ok(Seq::empty())
    } else {
        match items[0] {
            Tag::Compound(es) => match tag_get(items[0], "name"@) {
                Some(Tag::Str(n)) => match spec_palette(items.drop_first()) {
                    Ok(rest) => Ok(seq![n] + rest),
                    Err(f) => Err(f),
                },
                _ => Err(StructureFault::Missing("block_palette entry.name"@)),
            },
            _ => Err(StructureFault::Missing("block_palette entry must be compound"@)),
        }
    }
}

/// The int at position `i` of the size list.
pub open spec fn size_int(items: Seq<Tag>, i: int) -> Option<i32> {
    match items[i] {
        Tag::Int(v) => Some(v),
        _ => None,
    }
}

/// The palette index an entry of layer 0 denotes (-1 for non-ints).
pub open spec fn layer_index(t: Tag) -> i32 {
    match t {
        Tag::Int(i) => i,
        _ => -1i32,
    }
}

/// The format check and the `[X, Y, Z]` size list of a root compound.
pub open spec fn spec_sizes(root: Tag) -> Result<(i32, i32, i32), StructureFault> {
    if tag_get(root, "format_version"@) matches Some(Tag::Int(v)) && v != 1 {
        let v = tag_get(root, "format_version"@)->Some_0->Int_0;
        Err(StructureFault::Unsupported("format_version "@ + decimal(v as int) + " (expected 1)"@))
    } else if !(tag_get(root, "size"@) matches Some(Tag::List(_))) {
        Err(StructureFault::Missing("size (list)"@))
    } else {
        let size = tag_get(root, "size"@)->Some_0->List_0;
        if size.len() != 3 {
            Err(StructureFault::Missing("size must have exactly 3 elements"@))
        } else if size_int(size, 0) is None {
            Err(StructureFault::Missing("size[0] not int"@))
        } else if size_int(size, 1) is None {
            Err(StructureFault::Missing("size[1] not int"@))
        } else if size_int(size, 2) is None {
            Err(StructureFault::Missing("size[2] not int"@))
        } else {
            Ok((size_int(size, 0)->Some_0, size_int(size, 1)->Some_0, size_int(size, 2)->Some_0))
        }
    }
}

/// The palette and terrain layer of the `structure` compound, for a
/// structure of `volume` blocks.
pub open spec fn spec_body(st: Tag, volume: int) -> Result<(Seq<Seq<char>>, Seq<i32>), StructureFault> {
    if !(tag_get(st, "block_palette"@) matches Some(Tag::List(_))) {
        Err(StructureFault::Missing("structure.block_palette (list)"@))
    } else {
        match spec_palette(tag_get(st, "block_palette"@)->Some_0->List_0) {
            Err(f) => Err(f),
            Ok(palette) => if !(tag_get(st, "block_indices"@) matches Some(Tag::List(_))) {
                Err(StructureFault::Missing("structure.block_indices (list)"@))
            } else {
                let layers = tag_get(st, "block_indices"@)->Some_0->List_0;
                if layers.len() == 0 {
                    Err(StructureFault::Missing("block_indices has no layers"@))
                } else if !(layers[0] is List) {
                    Err(StructureFault::Missing("block_indices[0] must be a list"@))
                } else {
                    let layer0 = layers[0]->List_0;
                    if layer0.len() != volume {
                        Err(StructureFault::Nbt(
                            "block_indices[0] length "@ + decimal(layer0.len() as int) + " != volume "@
                                + decimal(volume),
                        ))
                    } else {
                        Ok((palette, layer0.map_values(|t: Tag| layer_index(t))))
                    }
                }
            },
        }
    }
}

/// Whether a structure's size can be worked with: no extent is `i32::MIN`
/// and the products of the extents stay inside `i32`.
pub open spec fn size_in_range(x: i32, y: i32, z: i32) -> bool {
    &&& x > i32::MIN
    &&& y > i32::MIN
    &&& z > i32::MIN
    &&& i32::MIN <= x * y <= i32::MAX
    &&& i32::MIN <= x * y * z <= i32::MAX
}

/// The number of blocks a structure of the given size holds, as the
/// reader computes it: the `i32` product, then as `usize`.
pub open spec fn spec_volume(x: i32, y: i32, z: i32) -> int {
    (((x * y * z) as i32) as usize) as int
}

/// What a structure root compound denotes.
pub open spec fn spec_structure(root: Tag) -> Result<StructureModel, StructureFault> {
    if !(root is Compound) {
        Err(StructureFault::Missing("root compound"@))
    } else {
        match spec_sizes(root) {
            Err(f) => Err(f),
            Ok((x, y, z)) => if !size_in_range(x, y, z) {
                Err(StructureFault::Unsupported("size out of range"@))
            } else if !(tag_get(root, "structure"@) matches Some(Tag::Compound(_))) {
                Err(StructureFault::Missing("structure (compound)"@))
            } else {
                match spec_body(tag_get(root, "structure"@)->Some_0, spec_volume(x, y, z)) {
                    Err(f) => Err(f),
                    Ok((palette, indices)) => Ok((x, y, z, palette, indices)),
                }
            },
        }
    }
}

/// What a `.mcstructure` payload denotes.
pub open spec fn spec_mcstructure(bytes: Seq<u8>) -> Result<StructureModel, StructureFault> {
    match spec_root(bytes) {
        Err((e, _k)) => Err(StructureFault::Nbt(nbt_error_text(e))),
        Ok((root, _c)) => spec_structure(root),
    }
}

fn missing(text: &str) -> (e: McStructureError)
    ensures
        e.model() == StructureFault::Missing(text@),
{
    McStructureError::Missing(String::from_str(text))
}

/// The block count `x * y * z` of a structure, when the size is in range.
fn checked_volume(x: i32, y: i32, z: i32) -> (r: Option<i32>)
    ensures
        match r {
            Some(v) => size_in_range(x, y, z) && v == x * y * z,
            None => !size_in_range(x, y, z),
        },
{
    if x == i32::MIN || y == i32::MIN || z == i32::MIN {
        return None;
    }
    assert(-0x4000_0000_0000_0000 <= (x as int) * (y as int) <= 0x4000_0000_0000_0000) by (nonlinear_arith)
        requires -0x8000_0000 <= x < 0x8000_0000, -0x8000_0000 <= y < 0x8000_0000;
    let xy: i64 = (x as i64) * (y as i64);
    if xy < i32::MIN as i64 || xy > i32::MAX as i64 {
        return None;
    }
    assert(-0x4000_0000_0000_0000 <= (xy as int) * (z as int) <= 0x4000_0000_0000_0000) by (nonlinear_arith)
        requires -0x8000_0000 <= xy < 0x8000_0000, -0x8000_0000 <= z < 0x8000_0000;
    let v: i64 = xy * (z as i64);
    if v < i32::MIN as i64 || v > i32::MAX as i64 {
        return None;
    }
    Some(v as i32)
}

/// The palette names of a `block_palette` list.
fn read_palette(items: &Vec<NbtValue>) -> (r: Result<Vec<String>, McStructureError>)
    ensures
        match spec_palette(list_model(items@)) {
            Ok(names) => r matches Ok(v) && v@.map_values(|s: String| s@) == names,
            Err(f) => r matches Err(e) && e.model() == f,
        },
{
    let ghost m = list_model(items@);
    let mut palette: Vec<String> = Vec::new();
    let mut i: usize = 0;
    proof {
        assert(m.skip(0) =~= m);
        assert(palette@.map_values(|s: String| s@) =~= Seq::<Seq<char>>::empty());
        assert forall|rest: Seq<Seq<char>>| #[trigger] (Seq::<Seq<char>>::empty() + rest) =~= rest by {}
    }
    while i < items.len()
        invariant
            i <= items@.len(),
            m == list_model(items@),
            spec_palette(m) == match spec_palette(m.skip(i as int)) {
                Ok(rest) => Ok(palette@.map_values(|s: String| s@) + rest),
                Err(f) => Err(f),
            },
        decreases items@.len() - i,
    {
        proof {
            assert(m.skip(i as int).drop_first() =~= m.skip(i + 1));
            assert(m.skip(i as int)[0] == items@[i as int].model());
        }
        let compound = match items[i].as_compound() {
            Some(c) => c,
            None => return Err(missing("block_palette entry must be compound")),
        };
        let name = match compound.lookup("name") {
            Some(v) => match v.as_str() {
                Some(s) => s,
                None => return Err(missing("block_palette entry.name")),
            },
            None => return Err(missing("block_palette entry.name")),
        };
        let ghost before = palette@.map_values(|s: String| s@);
        palette.push(String::from_str(name));
        proof {
            assert(palette@.map_values(|s: String| s@) =~= before.push(name@));
            assert forall|rest: Seq<Seq<char>>| before + (seq![name@] + rest) =~= before.push(name@) + rest by {}
        }
        i += 1;
    }
    proof {
        assert(m.skip(i as int) =~= Seq::<Tag>::empty());
        assert(palette@.map_values(|s: String| s@) + Seq::<Seq<char>>::empty() =~= palette@.map_values(|s: String| s@));
    }
    Ok(palette)
}

/// The format check and size list of a root compound.
fn read_sizes(root: &NbtCompound) -> (r: Result<(i32, i32, i32), McStructureError>)
    ensures
        match spec_sizes(Tag::Compound(root.model())) {
            Ok(t) => r == Ok::<(i32, i32, i32), McStructureError>(t),
            Err(f) => r matches Err(e) && e.model() == f,
        },
{
    match root.lookup("format_version") {
        Some(NbtValue::Int(v)) => {
            if *v != 1 {
                let mut m = String::from_str("format_version ");
                let d = decimal_string(*v as i64);
                m.append(d.as_str());
                m.append(" (expected 1)");
                return Err(McStructureError::Unsupported(m));
            }
        },
        _ => {},
    }
    let size = match root.lookup("size") {
        Some(NbtValue::List(items)) => items,
        _ => return Err(missing("size (list)")),
    };
    if size.len() != 3 {
        return Err(missing("size must have exactly 3 elements"));
    }
    proof {
        assert(list_model(size@)[0] == size@[0].model());
        assert(list_model(size@)[1] == size@[1].model());
        assert(list_model(size@)[2] == size@[2].model());
    }
    let size_x = match &size[0] {
        NbtValue::Int(v) => *v,
        _ => return Err(missing("size[0] not int")),
    };
    let size_y = match &size[1] {
        NbtValue::Int(v) => *v,
        _ => return Err(missing("size[1] not int")),
    };
    let size_z = match &size[2] {
        NbtValue::Int(v) => *v,
        _ => return Err(missing("size[2] not int")),
    };
    Ok((size_x, size_y, size_z))
}

/// The palette and terrain layer of the `structure` compound.
fn read_body(structure: &NbtCompound, volume: usize) -> (r: Result<(Vec<String>, Vec<i32>), McStructureError>)
    ensures
        match spec_body(Tag::Compound(structure.model()), volume as int) {
            Ok((names, idx)) => r matches Ok(p) && p.0@.map_values(|s: String| s@) == names && p.1@ == idx,
            Err(f) => r matches Err(e) && e.model() == f,
        },
{
    let block_palette_list = match structure.lookup("block_palette") {
        Some(NbtValue::List(items)) => items,
        _ => return Err(missing("structure.block_palette (list)")),
    };
    let palette = read_palette(block_palette_list)?;
    let layers = match structure.lookup("block_indices") {
        Some(NbtValue::List(items)) => items,
        _ => return Err(missing("structure.block_indices (list)")),
    };
    if layers.len() == 0 {
        return Err(missing("block_indices has no layers"));
    }
    proof {
        assert(list_model(layers@)[0] == layers@[0].model());
    }
    let layer0 = match &layers[0] {
        NbtValue::List(items) => items,
        _ => return Err(missing("block_indices[0] must be a list")),
    };
    if layer0.len() != volume {
        let mut m = String::from_str("block_indices[0] length ");
        let a = crate::text::decimal_string_u64(layer0.len() as u64);
        m.append(a.as_str());
        m.append(" != volume ");
        let b = crate::text::decimal_string_u64(volume as u64);
        m.append(b.as_str());
        return Err(McStructureError::Nbt(m));
    }
    let mut indices: Vec<i32> = Vec::new();
    let mut i: usize = 0;
    while i < layer0.len()
        invariant
            i <= layer0@.len(),
            indices@ == list_model(layer0@).take(i as int).map_values(|t: Tag| layer_index(t)),
        decreases layer0@.len() - i,
    {
        let v: i32 = match &layer0[i] {
            NbtValue::Int(x) => *x,
            _ => -1,
        };
        proof {
            assert(list_model(layer0@)[i as int] == layer0@[i as int].model());
            assert(list_model(layer0@).take(i + 1).map_values(|t: Tag| layer_index(t)) =~= list_model(
                layer0@,
            ).take(i as int).map_values(|t: Tag| layer_index(t)).push(v));
        }
        indices.push(v);
        i += 1;
    }
    proof {
        assert(list_model(layer0@).take(i as int) =~= list_model(layer0@));
    }
    Ok((palette, indices))
}

impl McStructure {
    /// The meaning of this structure.
    pub open spec fn model(&self) -> StructureModel {
        (self.size_x, self.size_y, self.size_z, self.palette@.map_values(|s: String| s@), self.indices@)
    }

    /// Parse a `.mcstructure` file from raw bytes. A size whose block count
    /// leaves the `i32` range is refused.
    pub fn from_bytes(bytes: &[u8]) -> (r: Result<Self, McStructureError>)
        ensures
            match spec_mcstructure(bytes@) {
                Ok(m) => r matches Ok(s) && s.model() == m,
                Err(f) => r matches Err(e) && e.model() == f,
            },
            r matches Ok(s) ==> sizes_fit(s.model()),
    {
        let mut cursor = NbtCursor::new(bytes);
        assert(cursor.rest() =~= bytes@);
        let root = match cursor.read_root() {
            Ok(v) => v,
            Err(e) => return Err(McStructureError::Nbt(e.message())),
        };
        let root = match root.as_compound() {
            Some(c) => c,
            None => return Err(missing("root compound")),
        };
        let (size_x, size_y, size_z) = read_sizes(root)?;
        let volume = match checked_volume(size_x, size_y, size_z) {
            Some(v) => v as usize,
            None => {
                proof {
                    reveal_strlit("size out of range");
                }
                return Err(McStructureError::Unsupported(String::from_str("size out of range")));
            },
        };
        let structure = match root.lookup("structure") {
            Some(NbtValue::Compound(c)) => c,
            _ => return Err(missing("structure (compound)")),
        };
        let (palette, indices) = read_body(structure, volume)?;
        Ok(Self { size_x, size_y, size_z, palette, indices })
    }
}

} // verus!

verus! {

/// One section as the structure converter builds it: section Y, palette
/// names, palette indices.
pub type SectionModel = (i8, Seq<Seq<char>>, Seq<u16>);

/// The `i8` a section number becomes (wrapping).
pub open spec fn wrap8(v: int) -> i8 {
    let m = v % 256;
    (if m < 128 {
        m
    } else {
        m - 256
    }) as i8
}

/// The block name stored at world position `(wx, wy, wz)` of a structure,
/// or `None` when that position holds air, no block, or an index outside
/// the palette.
pub open spec fn name_at(m: StructureModel, wx: int, wy: int, wz: int) -> Option<Seq<char>> {
    let (sx, sy, sz, palette, indices) = m;
    let flat = wz * sy * sx + wy * sx + wx;
    let idx: int = if 0 <= flat < indices.len() {
        indices[flat] as int
    } else {
        -1
    };
    if idx < 0 || idx >= palette.len() || crate::blocks::is_air_short(crate::chunk::spec_strip_namespace(palette[idx])) {
        None
    } else {
        Some(palette[idx])
    }
}

/// The block at slot `p` (`y << 8 | z << 4 | x`) of section `sy` in chunk
/// column `(cx, cz)`; `None` outside the structure or for air.
pub open spec fn cell(m: StructureModel, cx: int, cz: int, sy: int, p: int) -> Option<Seq<char>> {
    let wy = sy * 16 + p / 256;
    let wz = cz * 16 + (p / 16) % 16;
    let wx = cx * 16 + p % 16;
    if wy >= m.1 || wz >= m.2 || wx >= m.0 {
        None
    } else {
        name_at(m, wx, wy, wz)
    }
}

/// The non-air names of the first `n` slots of a section, in slot order.
pub open spec fn section_names(m: StructureModel, cx: int, cz: int, sy: int, n: int) -> Seq<Seq<char>>
    decreases n,
{
    if n <= 0 {
        Seq::empty()
    } else {
        let before = section_names(m, cx, cz, sy, n - 1);
        match cell(m, cx, cz, sy, n - 1) {
            Some(name) => before.push(name),
            None => before,
        }
    }
}

/// Position of the first occurrence of `x` in `s`, or -1.
pub open spec fn index_of(s: Seq<Seq<char>>, x: Seq<char>) -> int
    decreases s.len(),
{
    if s.len() == 0 {
        -1
    } else if s.last() == x {
        let j = index_of(s.drop_last(), x);
        if j < 0 {
            s.len() - 1
        } else {
            j
        }
    } else {
        index_of(s.drop_last(), x)
    }
}

/// The section built for `(cx, cz, sy)`: `minecraft:air` first, then each
/// distinct block name in slot order; every slot points at its name, air
/// slots at entry 0. `None` when the section holds no block.
pub open spec fn spec_section(m: StructureModel, cx: int, cz: int, sy: int) -> Option<SectionModel> {
    let names = section_names(m, cx, cz, sy, 4096);
    if names.len() == 0 {
        None
    } else {
        let d = crate::chunk::distinct(names);
        Some((
            wrap8(sy),
            seq!["minecraft:air"@] + d,
            Seq::new(
                4096,
                |p: int|
                    match cell(m, cx, cz, sy, p) {
                        Some(name) => (index_of(d, name) + 1) as u16,
                        None => 0u16,
                    },
            ),
        ))
    }
}

} // verus!

verus! {

proof fn lemma_index_of(s: Seq<Seq<char>>, x: Seq<char>)
    ensures
        -1 <= index_of(s, x) < s.len(),
        index_of(s, x) >= 0 ==> s[index_of(s, x)] == x,
        forall|k: int| 0 <= k < s.len() && (index_of(s, x) < 0 || k < index_of(s, x)) ==> s[k] != x,
    decreases s.len(),
{
    if s.len() > 0 {
        lemma_index_of(s.drop_last(), x);
        assert forall|k: int| 0 <= k < s.len() && (index_of(s, x) < 0 || k < index_of(s, x)) implies s[k] != x by {
            if k < s.len() - 1 {
                assert(s[k] == s.drop_last()[k]);
            }
        }
    }
}

proof fn lemma_index_of_push(d: Seq<Seq<char>>, x: Seq<char>, y: Seq<char>)
    requires
        index_of(d, y) >= 0,
    ensures
        index_of(d.push(x), y) == index_of(d, y),
{
    assert(d.push(x).drop_last() =~= d);
}

proof fn lemma_distinct_contains(s: Seq<Seq<char>>)
    ensures
        forall|i: int| 0 <= i < s.len() ==> crate::chunk::distinct(s).contains(#[trigger] s[i]),
    decreases s.len(),
{
    if s.len() > 0 {
        lemma_distinct_contains(s.drop_last());
        let d = crate::chunk::distinct(s.drop_last());
        assert forall|i: int| 0 <= i < s.len() implies crate::chunk::distinct(s).contains(#[trigger] s[i]) by {
            if i < s.len() - 1 {
                assert(s.drop_last()[i] == s[i]);
                assert(d.contains(s[i]));
                if !d.contains(s.last()) {
                    let j = choose|j: int| 0 <= j < d.len() && d[j] == s[i];
                    assert(d.push(s.last())[j] == s[i]);
                }
            } else {
                if !d.contains(s.last()) {
                    assert(d.push(s.last())[d.len() as int] == s.last());
                }
            }
        }
    }
}

proof fn lemma_contains_index_of(s: Seq<Seq<char>>, x: Seq<char>)
    requires
        s.contains(x),
    ensures
        index_of(s, x) >= 0,
{
    lemma_index_of(s, x);
}

/// The structure sizes keep every index computation of the converter
/// inside `i32`.
pub open spec fn sizes_fit(m: StructureModel) -> bool {
    &&& m.0 > i32::MIN
    &&& m.1 > i32::MIN
    &&& m.2 > i32::MIN
    &&& (m.0 > 0 && m.1 > 0 && m.2 > 0 ==> m.0 * m.1 * m.2 <= i32::MAX)
}

/// The highest 16-block group an extent reaches (`(size - 1) div 16`).
pub open spec fn last_group(size: int) -> int {
    (size - 1) / 16
}

fn last_group_exec(size: i32) -> (g: i32)
    requires
        size > i32::MIN,
    ensures
        g == last_group(size as int),
{
    let v = size - 1;
    if v >= 0 {
        v / 16
    } else {
        -((-(v + 1)) / 16) - 1
    }
}

impl McStructure {
    /// The palette index stored for world position `(wx, wy, wz)`, when it
    /// names a non-air block.
    fn block_index(&self, wx: i32, wy: i32, wz: i32) -> (r: Option<usize>)
        requires
            sizes_fit(self.model()),
            0 <= wx < self.size_x,
            0 <= wy < self.size_y,
            0 <= wz < self.size_z,
        ensures
            match name_at(self.model(), wx as int, wy as int, wz as int) {
                Some(n) => r matches Some(i) && i < self.palette@.len() && self.palette@[i as int]@ == n,
                None => r is None,
            },
    {
        proof {
            let (x, y, z) = (self.size_x as int, self.size_y as int, self.size_z as int);
            assert(wz * y * x + wy * x + wx < x * y * z) by (nonlinear_arith)
                requires 0 <= wx < x, 0 <= wy < y, 0 <= wz < z;
            assert(0 <= wz * y * x + wy * x + wx) by (nonlinear_arith)
                requires 0 <= wx < x, 0 <= wy < y, 0 <= wz < z;
            assert(wz * y <= wz * y * x) by (nonlinear_arith)
                requires 0 <= wz, 0 < y, 0 < x;
            assert(wz * y * x <= x * y * z) by (nonlinear_arith)
                requires 0 <= wz < z, 0 < y, 0 < x;
            assert(wy * x <= x * y * z) by (nonlinear_arith)
                requires 0 <= wy < y, 0 < x, 0 < z;
        }
        let flat = (wz * self.size_y * self.size_x + wy * self.size_x + wx) as usize;
        let idx: i32 = if flat < self.indices.len() {
            self.indices[flat]
        } else {
            -1
        };
        if idx < 0 || idx as usize >= self.palette.len() {
            return None;
        }
        let i = idx as usize;
        if crate::blocks::is_air(self.palette[i].as_str()) {
            return None;
        }
        Some(i)
    }
}

} // verus!

verus! {

/// The palette names of a section, as text.
pub open spec fn palette_names(p: Seq<BlockState>) -> Seq<Seq<char>> {
    p.map_values(|b: BlockState| b.name@)
}

/// Every palette entry is a bare name without properties.
pub open spec fn bare(p: Seq<BlockState>) -> bool {
    forall|i: int| 0 <= i < p.len() ==> (#[trigger] p[i]).props().len() == 0
}

impl McStructure {
    /// Builds section `sy` of chunk column `(cx, cz)`, or `None` when it
    /// holds no block.
    fn build_section(&self, cx: i32, cz: i32, sy: i32) -> (r: Option<SectionData>)
        requires
            sizes_fit(self.model()),
            0 <= cx <= last_group(self.size_x as int),
            0 <= cz <= last_group(self.size_z as int),
            0 <= sy <= last_group(self.size_y as int),
        ensures
            match spec_section(self.model(), cx as int, cz as int, sy as int) {
                None => r is None,
                Some((y, names, idx)) => r matches Some(sd) && sd.y == y && palette_names(sd.palette@) == names
                    && bare(sd.palette@) && sd.indices@ == idx,
            },
    {
        let ghost m = self.model();
        let mut palette: Vec<BlockState> = Vec::new();
        palette.push(BlockState::new(String::from_str("minecraft:air")));
        let mut indices: Vec<u16> = Vec::new();
        let mut p: usize = 0;
        proof {
            assert(palette_names(palette@) =~= seq!["minecraft:air"@] + crate::chunk::distinct(section_names(m, cx as int, cz as int, sy as int, 0)));
        }
        while p < 4096
            invariant
                p <= 4096,
                m == self.model(),
                sizes_fit(m),
                0 <= cx <= last_group(self.size_x as int),
                0 <= cz <= last_group(self.size_z as int),
                0 <= sy <= last_group(self.size_y as int),
                palette_names(palette@) == seq!["minecraft:air"@] + crate::chunk::distinct(section_names(m, cx as int, cz as int, sy as int, p as int)),
                bare(palette@),
                palette@.len() <= p + 1,
                indices@.len() == p,
                forall|q: int| 0 <= q < p ==> #[trigger] indices@[q] == match cell(m, cx as int, cz as int, sy as int, q) {
                    Some(name) => (index_of(crate::chunk::distinct(section_names(m, cx as int, cz as int, sy as int, p as int)), name) + 1) as u16,
                    None => 0u16,
                },
                forall|q: int| 0 <= q < p ==> ((#[trigger] cell(m, cx as int, cz as int, sy as int, q)) matches Some(name) ==>
                    crate::chunk::distinct(section_names(m, cx as int, cz as int, sy as int, p as int)).contains(name)),
            decreases 4096 - p,
        {
            let ghost names = section_names(m, cx as int, cz as int, sy as int, p as int);
            let ghost d = crate::chunk::distinct(names);
            let ly = (p / 256) as i32;
            let lz = ((p / 16) % 16) as i32;
            let lx = (p % 16) as i32;
            proof {
                assert(sy * 16 + 15 <= i32::MAX) by (nonlinear_arith)
                    requires sy <= last_group(self.size_y as int), self.size_y <= i32::MAX;
                assert(cz * 16 + 15 <= i32::MAX) by (nonlinear_arith)
                    requires cz <= last_group(self.size_z as int), self.size_z <= i32::MAX;
                assert(cx * 16 + 15 <= i32::MAX) by (nonlinear_arith)
                    requires cx <= last_group(self.size_x as int), self.size_x <= i32::MAX;
            }
            let wy = sy * 16 + ly;
            let wz = cz * 16 + lz;
            let wx = cx * 16 + lx;
            let found: Option<usize> = if wy >= self.size_y || wz >= self.size_z || wx >= self.size_x {
                None
            } else {
                self.block_index(wx, wy, wz)
            };
            match found {
                None => {
                    proof {
                        assert(cell(m, cx as int, cz as int, sy as int, p as int) is None);
                        assert(section_names(m, cx as int, cz as int, sy as int, p + 1) == names);
                    }
                    indices.push(0);
                },
                Some(pi) => {
                    let name = &self.palette[pi];
                    proof {
                        assert(cell(m, cx as int, cz as int, sy as int, p as int) == Some(name@));
                        assert(section_names(m, cx as int, cz as int, sy as int, p + 1) == names.push(name@));
                        assert(names.push(name@).drop_last() =~= names);
                        lemma_index_of(d, name@);
                    }
                    let mut j: usize = 1;
                    proof {
                        assert(palette_names(palette@).len() == palette@.len());
                    }
                    while j < palette.len()
                        invariant
                            1 <= j <= palette@.len(),
                            palette@.len() == d.len() + 1,
                            palette_names(palette@) == seq!["minecraft:air"@] + d,
                            -1 <= index_of(d, name@) < d.len(),
                            index_of(d, name@) >= 0 ==> d[index_of(d, name@)] == name@,
                            forall|k: int| 0 <= k < d.len() && (index_of(d, name@) < 0 || k < index_of(d, name@)) ==> d[k] != name@,
                            index_of(d, name@) < 0 || j <= index_of(d, name@) + 1,
                        ensures
                            j < palette@.len() ==> j == index_of(d, name@) + 1,
                            j == palette@.len() ==> index_of(d, name@) < 0,
                        decreases palette@.len() - j,
                    {
                        proof {
                            assert(palette_names(palette@)[j as int] == palette@[j as int].name@);
                            assert(palette_names(palette@)[j as int] == d[j - 1]);
                        }
                        if palette[j].name == *name {
                            break;
                        }
                        j += 1;
                    }
                    if j == palette.len() {
                        let ghost old_pal = palette@;
                        palette.push(BlockState::new(name.clone()));
                        proof {
                            assert(!d.contains(name@)) by {
                                if d.contains(name@) {
                                    lemma_contains_index_of(d, name@);
                                }
                            }
                            let d2 = crate::chunk::distinct(names.push(name@));
                            assert(names.push(name@).drop_last() =~= names);
                            assert(names.push(name@).last() == name@);
                            assert(d2 == d.push(name@));
                            assert(palette@[old_pal.len() as int].name@ == name@);
                            assert(palette_names(palette@) =~= palette_names(old_pal).push(name@));
                            assert(palette_names(palette@) =~= seq!["minecraft:air"@] + d2);
                            assert(index_of(d2, name@) == d.len()) by {
                                assert(d2.drop_last() =~= d);
                                assert(index_of(d, name@) < 0);
                            }
                            assert forall|q: int| 0 <= q < p implies ((#[trigger] cell(m, cx as int, cz as int, sy as int, q)) matches Some(n2) ==> index_of(d2, n2) == index_of(d, n2) && d2.contains(n2)) by {
                                if let Some(n2) = cell(m, cx as int, cz as int, sy as int, q) {
                                    lemma_contains_index_of(d, n2);
                                    lemma_index_of_push(d, name@, n2);
                                    lemma_index_of(d, n2);
                                    assert(d2[index_of(d, n2)] == n2);
                                }
                            }
                            assert(bare(palette@)) by {
                                assert forall|i: int| 0 <= i < palette@.len() implies (#[trigger] palette@[i]).props().len() == 0 by {
                                    if i < old_pal.len() {
                                        assert(palette@[i] == old_pal[i]);
                                    }
                                }
                            }
                            lemma_index_of(d2, name@);
                        }
                    } else {
                        proof {
                            assert(d.contains(name@)) by {
                                assert(d[index_of(d, name@)] == name@);
                            }
                            assert(names.push(name@).drop_last() =~= names);
                            assert(names.push(name@).last() == name@);
                            assert(crate::chunk::distinct(names.push(name@)) == d);
                        }
                    }
                    proof {
                        assert(j <= 4096);
                    }
                    indices.push(j as u16);
                },
            }
            proof {
                let d_next = crate::chunk::distinct(section_names(m, cx as int, cz as int, sy as int, p + 1));
                assert forall|q: int| 0 <= q < p + 1 implies #[trigger] indices@[q] == match cell(m, cx as int, cz as int, sy as int, q) {
                    Some(name) => (index_of(d_next, name) + 1) as u16,
                    None => 0u16,
                } by {
                    if q < p {
                        if let Some(n2) = cell(m, cx as int, cz as int, sy as int, q) {
                            if d_next != d {
                                lemma_contains_index_of(d, n2);
                                lemma_index_of_push(d, d_next.last(), n2);
                                assert(d_next.drop_last() =~= d);
                            }
                        }
                    }
                }
                assert forall|q: int| 0 <= q < p + 1 implies ((#[trigger] cell(m, cx as int, cz as int, sy as int, q)) matches Some(name) ==> d_next.contains(name)) by {
                    lemma_distinct_contains(section_names(m, cx as int, cz as int, sy as int, p + 1));
                    if let Some(n2) = cell(m, cx as int, cz as int, sy as int, q) {
                        if q < p {
                            if d_next != d {
                                let k = choose|k: int| 0 <= k < d.len() && d[k] == n2;
                                assert(d_next.drop_last() =~= d);
                                assert(d_next[k] == n2);
                            }
                        } else {
                            let s1 = section_names(m, cx as int, cz as int, sy as int, p + 1);
                            assert(s1[s1.len() - 1] == n2);
                        }
                    }
                }
            }
            p += 1;
        }
        if palette.len() == 1 {
            proof {
                assert(crate::chunk::distinct(section_names(m, cx as int, cz as int, sy as int, 4096)).len() == 0);
                lemma_distinct_contains(section_names(m, cx as int, cz as int, sy as int, 4096));
                let s = section_names(m, cx as int, cz as int, sy as int, 4096);
                if s.len() > 0 {
                    assert(crate::chunk::distinct(s).contains(s[0]));
                }
            }
            return None;
        }
        let y = wrap_section(sy);
        proof {
            let s = section_names(m, cx as int, cz as int, sy as int, 4096);
            if s.len() == 0 {
                assert(crate::chunk::distinct(s) =~= Seq::<Seq<char>>::empty());
            }
            let d = crate::chunk::distinct(s);
            assert(indices@ =~= Seq::new(
                4096,
                |q: int|
                    match cell(m, cx as int, cz as int, sy as int, q) {
                        Some(name) => (index_of(d, name) + 1) as u16,
                        None => 0u16,
                    },
            ));
        }
        Some(SectionData { y, palette, indices })
    }
}

/// The `i8` a section number becomes.
fn wrap_section(sy: i32) -> (y: i8)
    ensures
        y == wrap8(sy as int),
{
    let m: i32 = ((sy % 256) + 256) % 256;
    if m < 128 {
        m as i8
    } else {
        (m - 256) as i8
    }
}

} // verus!

verus! {

/// A chunk as the structure converter builds it: `(x, z, sections)`.
pub type ChunkModel = (int, int, Seq<SectionModel>);

/// The sections below `n` of chunk column `(cx, cz)` that hold a block.
pub open spec fn spec_column(m: StructureModel, cx: int, cz: int, n: int) -> Seq<SectionModel>
    decreases n,
{
    if n <= 0 {
        Seq::empty()
    } else {
        let prev = spec_column(m, cx, cz, n - 1);
        match spec_section(m, cx, cz, n - 1) {
            Some(s) => prev.push(s),
            None => prev,
        }
    }
}

/// The non-empty chunk columns `cz < n` of row `cx`.
pub open spec fn spec_row(m: StructureModel, cx: int, n: int) -> Seq<ChunkModel>
    decreases n,
{
    if n <= 0 {
        Seq::empty()
    } else {
        let prev = spec_row(m, cx, n - 1);
        let col = spec_column(m, cx, n - 1, last_group(m.1 as int) + 1);
        if col.len() == 0 {
            prev
        } else {
            prev.push((cx, n - 1, col))
        }
    }
}

/// The non-empty chunk columns of rows `cx < n`, row by row.
pub open spec fn spec_chunks(m: StructureModel, n: int) -> Seq<ChunkModel>
    decreases n,
{
    if n <= 0 {
        Seq::empty()
    } else {
        spec_chunks(m, n - 1) + spec_row(m, n - 1, last_group(m.2 as int) + 1)
    }
}

/// A built section, as text.
pub open spec fn section_model(s: SectionData) -> SectionModel {
    (s.y, palette_names(s.palette@), s.indices@)
}

/// A built chunk, as text.
pub open spec fn chunk_model(c: Chunk) -> ChunkModel {
    (c.x as int, c.z as int, c.sections@.map_values(|s: SectionData| section_model(s)))
}

/// Every section of every chunk has a bare palette.
pub open spec fn all_bare(cs: Seq<Chunk>) -> bool {
    forall|i: int, j: int| 0 <= i < cs.len() && 0 <= j < cs[i].sections@.len() ==> bare(#[trigger] cs[i].sections@[j].palette@)
}

impl McStructure {
    /// Convert the structure to chunks, with its lower-west-south corner at
    /// the origin `(0, 0, 0)`. Chunk columns come row by row (X outer, Z
    /// inner); only columns and sections holding a block are emitted.
    /// Blocks outside the palette or with index -1 are treated as air.
    pub fn to_chunks(&self) -> (r: Vec<Chunk>)
        requires
            sizes_fit(self.model()),
        ensures
            r@.map_values(|c: Chunk| chunk_model(c)) == spec_chunks(self.model(), last_group(self.size_x as int) + 1),
            all_bare(r@),
    {
        let ghost m = self.model();
        let max_cx = last_group_exec(self.size_x);
        let max_cz = last_group_exec(self.size_z);
        let max_sy = last_group_exec(self.size_y);
        let mut chunks: Vec<Chunk> = Vec::new();
        let mut cx: i32 = 0;
        proof {
            assert(chunks@.map_values(|c: Chunk| chunk_model(c)) =~= spec_chunks(m, 0));
        }
        if max_cx < 0 {
            return chunks;
        }
        while cx <= max_cx
            invariant
                m == self.model(),
                sizes_fit(m),
                max_cx == last_group(self.size_x as int),
                max_cz == last_group(self.size_z as int),
                max_sy == last_group(self.size_y as int),
                0 <= cx <= max_cx + 1,
                max_cx < i32::MAX,
                chunks@.map_values(|c: Chunk| chunk_model(c)) == spec_chunks(m, cx as int),
                all_bare(chunks@),
            decreases max_cx + 1 - cx,
        {
            let mut cz: i32 = 0;
            let ghost before = chunks@.map_values(|c: Chunk| chunk_model(c));
            proof {
                assert(before + spec_row(m, cx as int, 0) =~= before);
                assert(max_cz < i32::MAX) by (nonlinear_arith)
                    requires max_cz == (self.size_z - 1) / 16, self.size_z <= i32::MAX;
                assert(max_sy < i32::MAX) by (nonlinear_arith)
                    requires max_sy == (self.size_y - 1) / 16, self.size_y <= i32::MAX;
            }
            while cz <= max_cz
                invariant
                    m == self.model(),
                    sizes_fit(m),
                    max_cx == last_group(self.size_x as int),
                    max_cz == last_group(self.size_z as int),
                    max_sy == last_group(self.size_y as int),
                    0 <= cx <= max_cx,
                    0 <= cz <= max_cz + 1 || (max_cz < 0 && cz == 0),
                    max_cz < i32::MAX,
                    max_sy < i32::MAX,
                    chunks@.map_values(|c: Chunk| chunk_model(c)) == before + spec_row(m, cx as int, cz as int),
                    all_bare(chunks@),
                decreases max_cz + 1 - cz,
            {
                let mut sections: Vec<SectionData> = Vec::new();
                let mut sy: i32 = 0;
                proof {
                    assert(sections@.map_values(|s: SectionData| section_model(s)) =~= spec_column(m, cx as int, cz as int, 0));
                }
                while sy <= max_sy
                    invariant
                        m == self.model(),
                        sizes_fit(m),
                        max_cx == last_group(self.size_x as int),
                        max_cz == last_group(self.size_z as int),
                        max_sy == last_group(self.size_y as int),
                        0 <= cx <= max_cx,
                        0 <= cz <= max_cz,
                        0 <= sy <= max_sy + 1 || (max_sy < 0 && sy == 0),
                        max_sy < i32::MAX,
                        sections@.map_values(|s: SectionData| section_model(s)) == spec_column(m, cx as int, cz as int, sy as int),
                        forall|j: int| 0 <= j < sections@.len() ==> bare(#[trigger] sections@[j].palette@),
                    decreases max_sy + 1 - sy,
                {
                    let built = self.build_section(cx, cz, sy);
                    match built {
                        Some(sd) => {
                            let ghost sm = section_model(sd);
                            let ghost old_s = sections@;
                            sections.push(sd);
                            proof {
                                assert(sections@.map_values(|s: SectionData| section_model(s)) =~= old_s.map_values(
                                    |s: SectionData| section_model(s),
                                ).push(sm));
                                assert forall|j: int| 0 <= j < sections@.len() implies bare(#[trigger] sections@[j].palette@) by {
                                    if j < old_s.len() {
                                        assert(sections@[j] == old_s[j]);
                                    }
                                }
                            }
                        },
                        None => {},
                    }
                    sy += 1;
                }
                proof {
                    if max_sy < 0 {
                        assert(spec_column(m, cx as int, cz as int, max_sy + 1) =~= Seq::<SectionModel>::empty());
                    }
                }
                if sections.len() > 0 {
                    let ghost col = sections@.map_values(|s: SectionData| section_model(s));
                    let ghost old_c = chunks@;
                    let c = Chunk::from_sections(cx, cz, sections);
                    chunks.push(c);
                    proof {
                        assert(chunks@.map_values(|c: Chunk| chunk_model(c)) =~= old_c.map_values(|c: Chunk| chunk_model(c)).push(
                            (cx as int, cz as int, col),
                        ));
                        assert forall|i: int, j: int| 0 <= i < chunks@.len() && 0 <= j < chunks@[i].sections@.len() implies bare(#[trigger] chunks@[i].sections@[j].palette@) by {
                            if i < old_c.len() {
                                assert(chunks@[i] == old_c[i]);
                            }
                        }
                    }
                } else {
                    proof {
                        assert(spec_column(m, cx as int, cz as int, max_sy + 1).len() == 0);
                    }
                }
                cz += 1;
            }
            proof {
                if max_cz < 0 {
                    assert(spec_row(m, cx as int, max_cz + 1) =~= Seq::<ChunkModel>::empty());
                }
            }
            cx += 1;
        }
        chunks
    }
}

/// A cell's block is among the section's names.
proof fn lemma_cell_in_names(m: StructureModel, cx: int, cz: int, sy: int, p: int, n: int)
    requires
        0 <= p < n,
        cell(m, cx, cz, sy, p) is Some,
    ensures
        section_names(m, cx, cz, sy, n).contains(cell(m, cx, cz, sy, p).unwrap()),
    decreases n,
{
    let names = section_names(m, cx, cz, sy, n);
    if p == n - 1 {
        assert(names[names.len() - 1] == cell(m, cx, cz, sy, p).unwrap());
    } else {
        lemma_cell_in_names(m, cx, cz, sy, p, n - 1);
        let before = section_names(m, cx, cz, sy, n - 1);
        let i = choose|i: int| 0 <= i < before.len() && before[i] == cell(m, cx, cz, sy, p).unwrap();
        assert(names[i] == before[i]);
    }
}

/// A section has at most one name per slot.
proof fn lemma_section_names_len(m: StructureModel, cx: int, cz: int, sy: int, n: int)
    ensures
        section_names(m, cx, cz, sy, n).len() <= if n < 0 { 0 } else { n },
    decreases n,
{
    if n > 0 {
        lemma_section_names_len(m, cx, cz, sy, n - 1);
    }
}

/// Keeping the first of each name keeps at most all of them.
proof fn lemma_distinct_len(s: Seq<Seq<char>>)
    ensures
        crate::chunk::distinct(s).len() <= s.len(),
    decreases s.len(),
{
    if s.len() > 0 {
        lemma_distinct_len(s.drop_last());
    }
}

/// Every block lands where it belongs: in a section built from a
/// structure, the palette entry of each slot's index is the block the
/// structure holds at that slot's position, and air where it holds none.
pub proof fn law_sections_hold_their_blocks(m: StructureModel, cx: int, cz: int, sy: int, p: int)
    requires
        spec_section(m, cx, cz, sy) is Some,
        0 <= p < 4096,
    ensures
        ({
            let (y, palette, indices) = spec_section(m, cx, cz, sy).unwrap();
            palette[indices[p] as int] == match cell(m, cx, cz, sy, p) {
                Some(name) => name,
                None => "minecraft:air"@,
            }
        }),
{
    let names = section_names(m, cx, cz, sy, 4096);
    let d = crate::chunk::distinct(names);
    let (y, palette, indices) = spec_section(m, cx, cz, sy).unwrap();
    assert(palette == seq!["minecraft:air"@] + d);
    match cell(m, cx, cz, sy, p) {
        Some(name) => {
            lemma_cell_in_names(m, cx, cz, sy, p, 4096);
            lemma_distinct_contains(names);
            let i = choose|i: int| 0 <= i < names.len() && names[i] == name;
            assert(d.contains(names[i]));
            lemma_index_of(d, name);
            lemma_section_names_len(m, cx, cz, sy, 4096);
            lemma_distinct_len(names);
            if index_of(d, name) < 0 {
                let k = choose|k: int| 0 <= k < d.len() && d[k] == name;
                assert(d[k] != name);
            }
            assert(indices[p] == (index_of(d, name) + 1) as u16);
            assert(indices[p] as int == index_of(d, name) + 1);
        },
        None => {
            assert(indices[p] == 0u16);
        },
    }
}

} // verus!
