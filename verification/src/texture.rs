//! Texture atlas building for the viewport renderer and OBJ exporter.
//!
//! An atlas covers a set of names with one 16×16 RGBA tile each, laid out
//! row-major, sixteen tiles to a row. This module holds the parts of atlas
//! building that are pure bookkeeping: the set of names, the buffer size,
//! where each tile goes, and the biome tints multiplied into textures the
//! game ships in grayscale. Decoding PNGs and drawing procedural tiles are
//! left to the caller.

use vstd::prelude::*;
use vstd::arithmetic::div_mod::{lemma_fundamental_div_mod, lemma_fundamental_div_mod_converse};
use crate::text::{char_seq_less, lemma_char_seq_less_order, str_eq, str_less};
use crate::block_model::FaceTextures;
use crate::model_textures::{face_textures_with, spec_face_textures_with};
use crate::chunk::{spec_strip_namespace, strip_namespace};
use crate::jar_textures::JarTextureLoader;

verus! {

/// Tile edge in pixels (Minecraft's native texture resolution).
pub const TILE: usize = 16;
/// Tiles per atlas row.
pub const TILES_PER_ROW: usize = 16;

/// Plains-biome grass green (#79C05A).
pub open spec fn plains_grass() -> [u8; 3] {
    [0x79u8, 0xC0u8, 0x5Au8]
}

/// Plains-biome foliage green (#59AE30).
pub open spec fn plains_foliage() -> [u8; 3] {
    [0x59u8, 0xAEu8, 0x30u8]
}

/// Standard blue for water in plains/temperate biomes (#3F76E4).
pub open spec fn plains_water() -> [u8; 3] {
    [0x3Fu8, 0x76u8, 0xE4u8]
}

/// The fixed colour of spruce leaves.
pub open spec fn spruce_green() -> [u8; 3] {
    [0x61u8, 0x99u8, 0x61u8]
}

/// The fixed colour of a lily pad.
pub open spec fn lily_pad_green() -> [u8; 3] {
    [0x20u8, 0x80u8, 0x30u8]
}

/// Texture names the game colours from the grass colormap.
pub open spec fn grass_tinted(n: Seq<char>) -> bool {
    ||| n == "grass_block_top"@
    ||| n == "grass_block_overlay"@
    ||| n == "grass_block_side_overlay"@
    ||| n == "short_grass"@
    ||| n == "grass"@
    ||| n == "tall_grass"@
    ||| n == "tall_grass_top"@
    ||| n == "tall_grass_bottom"@
    ||| n == "fern"@
    ||| n == "large_fern"@
    ||| n == "large_fern_top"@
    ||| n == "large_fern_bottom"@
    ||| n == "melon_stem"@
    ||| n == "pumpkin_stem"@
    ||| n == "attached_melon_stem"@
    ||| n == "attached_pumpkin_stem"@
}

/// Texture names the game colours from the foliage colormap.
pub open spec fn foliage_tinted(n: Seq<char>) -> bool {
    ||| n == "oak_leaves"@
    ||| n == "acacia_leaves"@
    ||| n == "dark_oak_leaves"@
    ||| n == "mangrove_leaves"@
    ||| n == "birch_leaves"@
    ||| n == "pale_oak_leaves"@
    ||| n == "vine"@
    ||| n == "bush"@
    ||| n == "leaf_litter"@
}

/// Texture names the game colours as water.
pub open spec fn water_tinted(n: Seq<char>) -> bool {
    ||| n == "water"@
    ||| n == "water_still"@
    ||| n == "water_flow"@
    ||| n == "water_overlay"@
}

/// The tint multiplied into a grayscale JAR texture, if it needs one.
pub open spec fn spec_tint_for(n: Seq<char>) -> Option<[u8; 3]> {
    if grass_tinted(n) {
        Some(plains_grass())
    } else if foliage_tinted(n) {
        Some(plains_foliage())
    } else if n == "spruce_leaves"@ {
        Some(spruce_green())
    } else if n == "lily_pad"@ || n == "lilypad"@ {
        Some(lily_pad_green())
    } else if water_tinted(n) {
        Some(plains_water())
    } else {
        None
    }
}

/// The water textures the game colours as water — `water`, `water_still`,
/// `water_flow` and `water_overlay` — each take the plains water colour
/// #3F76E4 from `biome_tint`, and no other texture takes that colour.
pub proof fn law_water_textures_take_the_water_colour(n: Seq<char>)
    ensures
        (n == "water"@ || n == "water_still"@ || n == "water_flow"@ || n == "water_overlay"@) <==> spec_tint_for(n)
            == Some([0x3Fu8, 0x76u8, 0xE4u8]),
{
    reveal_strlit("grass_block_top");
    assert("grass_block_top"@.len() == 15 && "grass_block_top"@[0] == 'g');
    reveal_strlit("grass_block_overlay");
    assert("grass_block_overlay"@.len() == 19 && "grass_block_overlay"@[0] == 'g');
    reveal_strlit("grass_block_side_overlay");
    assert("grass_block_side_overlay"@.len() == 24 && "grass_block_side_overlay"@[0] == 'g');
    reveal_strlit("short_grass");
    assert("short_grass"@.len() == 11 && "short_grass"@[0] == 's');
    reveal_strlit("grass");
    assert("grass"@.len() == 5 && "grass"@[0] == 'g');
    reveal_strlit("tall_grass");
    assert("tall_grass"@.len() == 10 && "tall_grass"@[0] == 't');
    reveal_strlit("tall_grass_top");
    assert("tall_grass_top"@.len() == 14 && "tall_grass_top"@[0] == 't');
    reveal_strlit("tall_grass_bottom");
    assert("tall_grass_bottom"@.len() == 17 && "tall_grass_bottom"@[0] == 't');
    reveal_strlit("fern");
    assert("fern"@.len() == 4 && "fern"@[0] == 'f');
    reveal_strlit("large_fern");
    assert("large_fern"@.len() == 10 && "large_fern"@[0] == 'l');
    reveal_strlit("large_fern_top");
    assert("large_fern_top"@.len() == 14 && "large_fern_top"@[0] == 'l');
    reveal_strlit("large_fern_bottom");
    assert("large_fern_bottom"@.len() == 17 && "large_fern_bottom"@[0] == 'l');
    reveal_strlit("melon_stem");
    assert("melon_stem"@.len() == 10 && "melon_stem"@[0] == 'm');
    reveal_strlit("pumpkin_stem");
    assert("pumpkin_stem"@.len() == 12 && "pumpkin_stem"@[0] == 'p');
    reveal_strlit("attached_melon_stem");
    assert("attached_melon_stem"@.len() == 19 && "attached_melon_stem"@[0] == 'a');
    reveal_strlit("attached_pumpkin_stem");
    assert("attached_pumpkin_stem"@.len() == 21 && "attached_pumpkin_stem"@[0] == 'a');
    reveal_strlit("oak_leaves");
    assert("oak_leaves"@.len() == 10 && "oak_leaves"@[0] == 'o');
    reveal_strlit("acacia_leaves");
    assert("acacia_leaves"@.len() == 13 && "acacia_leaves"@[0] == 'a');
    reveal_strlit("dark_oak_leaves");
    assert("dark_oak_leaves"@.len() == 15 && "dark_oak_leaves"@[0] == 'd');
    reveal_strlit("mangrove_leaves");
    assert("mangrove_leaves"@.len() == 15 && "mangrove_leaves"@[0] == 'm');
    reveal_strlit("birch_leaves");
    assert("birch_leaves"@.len() == 12 && "birch_leaves"@[0] == 'b');
    reveal_strlit("pale_oak_leaves");
    assert("pale_oak_leaves"@.len() == 15 && "pale_oak_leaves"@[0] == 'p');
    reveal_strlit("vine");
    assert("vine"@.len() == 4 && "vine"@[0] == 'v');
    reveal_strlit("bush");
    assert("bush"@.len() == 4 && "bush"@[0] == 'b');
    reveal_strlit("leaf_litter");
    assert("leaf_litter"@.len() == 11 && "leaf_litter"@[0] == 'l');
    reveal_strlit("spruce_leaves");
    assert("spruce_leaves"@.len() == 13 && "spruce_leaves"@[0] == 's');
    reveal_strlit("lily_pad");
    assert("lily_pad"@.len() == 8 && "lily_pad"@[0] == 'l');
    reveal_strlit("lilypad");
    assert("lilypad"@.len() == 7 && "lilypad"@[0] == 'l');
    reveal_strlit("water");
    assert("water"@.len() == 5 && "water"@[0] == 'w');
    reveal_strlit("water_still");
    assert("water_still"@.len() == 11 && "water_still"@[0] == 'w');
    reveal_strlit("water_flow");
    assert("water_flow"@.len() == 10 && "water_flow"@[0] == 'w');
    reveal_strlit("water_overlay");
    assert("water_overlay"@.len() == 13 && "water_overlay"@[0] == 'w');
    let w = [0x3Fu8, 0x76u8, 0xE4u8];
    assert(plains_grass()[0] != w[0]);
    assert(plains_foliage()[0] != w[0]);
    assert(spruce_green()[0] != w[0]);
    assert(lily_pad_green()[0] != w[0]);
    assert(plains_water() == w);
}

/// Texture names that should receive a tint multiplied into their pixels
/// at atlas-build time, because the JAR ships them as grayscale and
/// expects the game engine to colour them from the biome colormap.
///
/// `sugar_cane`, `jungle_leaves` and `cherry_leaves` ship already coloured
/// and are left alone.
fn tint_for(tex_name: &str) -> (r: Option<[u8; 3]>)
    ensures
        r == spec_tint_for(tex_name@),
{
    let n = tex_name;
    if str_eq(n, "grass_block_top") || str_eq(n, "grass_block_overlay") || str_eq(
        n,
        "grass_block_side_overlay",
    ) || str_eq(n, "short_grass") || str_eq(n, "grass") || str_eq(n, "tall_grass") || str_eq(
        n,
        "tall_grass_top",
    ) || str_eq(n, "tall_grass_bottom") || str_eq(n, "fern") || str_eq(n, "large_fern")
        || str_eq(n, "large_fern_top") || str_eq(n, "large_fern_bottom") || str_eq(
        n,
        "melon_stem",
    ) || str_eq(n, "pumpkin_stem") || str_eq(n, "attached_melon_stem") || str_eq(
        n,
        "attached_pumpkin_stem",
    ) {
        Some([0x79u8, 0xC0u8, 0x5Au8])
    } else if str_eq(n, "oak_leaves") || str_eq(n, "acacia_leaves") || str_eq(
        n,
        "dark_oak_leaves",
    ) || str_eq(n, "mangrove_leaves") || str_eq(n, "birch_leaves") || str_eq(
        n,
        "pale_oak_leaves",
    ) || str_eq(n, "vine") || str_eq(n, "bush") || str_eq(n, "leaf_litter") {
        Some([0x59u8, 0xAEu8, 0x30u8])
    } else if str_eq(n, "spruce_leaves") {
        Some([0x61u8, 0x99u8, 0x61u8])
    } else if str_eq(n, "lily_pad") || str_eq(n, "lilypad") {
        Some([0x20u8, 0x80u8, 0x30u8])
    } else if str_eq(n, "water") || str_eq(n, "water_still") || str_eq(n, "water_flow")
        || str_eq(n, "water_overlay") {
        Some([0x3Fu8, 0x76u8, 0xE4u8])
    } else {
        None
    }
}

/// Biome tint for a texture the JAR ships as grayscale, if it needs one.
///
/// Exposed so consumers that write out raw JAR PNGs — the prototype exporter,
/// which emits one texture file per block rather than an atlas — apply the
/// same colour the atlas builder bakes in.
pub fn biome_tint(tex_name: &str) -> (r: Option<[u8; 3]>)
    ensures
        r == spec_tint_for(tex_name@),
{
    tint_for(tex_name)
}

/// One colour channel multiplied by a tint channel: `v * t / 255`.
pub open spec fn tinted(v: u8, t: u8) -> u8 {
    ((v as int * t as int) / 255) as u8
}

/// Multiply the colour channels of one RGBA pixel at `base` by `tint`.
fn tint_pixel(tile: &mut [u8; 1024], base: usize, tint: [u8; 3])
    requires
        base + 4 <= old(tile)@.len(),
    ensures
        final(tile)@.len() == old(tile)@.len(),
        forall|i: int|
            0 <= i < old(tile)@.len() ==> #[trigger] final(tile)@[i] == if base <= i < base + 3 {
                tinted(old(tile)@[i], tint[i - base])
            } else {
                old(tile)@[i]
            },
{
    let mut c: usize = 0;
    while c < 3
        invariant
            c <= 3,
            base + 4 <= tile@.len(),
            tile@.len() == old(tile)@.len(),
            forall|i: int|
                0 <= i < old(tile)@.len() ==> #[trigger] tile@[i] == if base <= i < base + c {
                    tinted(old(tile)@[i], tint[i - base])
                } else {
                    old(tile)@[i]
                },
        decreases 3 - c,
    {
        let v = tile[base + c];
        let t = tint[c];
        assert((v as int) * (t as int) <= 255 * 255) by (nonlinear_arith)
            requires
                v <= 255,
                t <= 255,
        ;
        let m: u32 = (v as u32) * (t as u32) / 255;
        assert(m <= 255) by (nonlinear_arith)
            requires
                m == (v as int) * (t as int) / 255,
                (v as int) * (t as int) <= 255 * 255,
        ;
        tile[base + c] = m as u8;
        c += 1;
    }
}

/// Multiply the RGB channels of every pixel of a tile by a tint; alpha is
/// left as it is.
pub fn apply_tint(tile: &mut [u8; 1024], tint: [u8; 3])
    ensures
        final(tile)@.len() == old(tile)@.len(),
        forall|i: int|
            0 <= i < old(tile)@.len() ==> #[trigger] final(tile)@[i] == if i % 4 < 3 {
                tinted(old(tile)@[i], tint[i % 4])
            } else {
                old(tile)@[i]
            },
{
    let n: usize = 1024;
    let mut p: usize = 0;
    while p < n
        invariant
            n == tile@.len(),
            tile@.len() == old(tile)@.len(),
            p % 4 == 0,
            p <= n,
            forall|i: int|
                0 <= i < n ==> #[trigger] tile@[i] == if i % 4 < 3 && i < p {
                    tinted(old(tile)@[i], tint[i % 4])
                } else {
                    old(tile)@[i]
                },
        decreases n - p,
    {
        tint_pixel(tile, p, tint);
        assert forall|i: int| 0 <= i < n implies #[trigger] tile@[i] == if i % 4 < 3 && i < p
            + 4 {
            tinted(old(tile)@[i], tint[i % 4])
        } else {
            old(tile)@[i]
        } by {
            if p <= i < p + 4 {
                assert(i % 4 == i - p);
            }
        }
        p += 4;
    }
}

/// Width, height and zeroed RGBA buffer of an atlas for `tile_count` tiles:
/// sixteen tiles to a row, at least one row.
pub open spec fn atlas_rows(tile_count: nat) -> nat {
    let tiles = if tile_count == 0 { 1 } else { tile_count };
    ((tiles + 15) / 16) as nat
}

/// Allocate atlas pixel buffer. Returns `(width, height, pixels)`.
pub fn alloc_atlas(tile_count: usize) -> (r: (u32, u32, Vec<u8>))
    requires
        atlas_rows(tile_count as nat) * 16 * 256 * 4 <= usize::MAX,
        atlas_rows(tile_count as nat) * 16 <= u32::MAX,
    ensures
        r.0 == 256,
        r.1 == atlas_rows(tile_count as nat) * 16,
        r.2@.len() == 256 * r.1 * 4,
        forall|i: int| 0 <= i < r.2@.len() ==> r.2@[i] == 0,
{
    let tiles = if tile_count == 0 { 1 } else { tile_count };
    let rows = tiles / TILES_PER_ROW + if tiles % TILES_PER_ROW == 0 { 0 } else { 1 };
    assert(rows == atlas_rows(tile_count as nat));
    let width: u32 = 256;
    let height: u32 = (rows * TILE) as u32;
    let len: usize = rows * TILE * 256 * 4;
    let pixels: Vec<u8> = vec![0u8; len];
    (width, height, pixels)
}


/// Strictly increasing in string order: sorted, no name twice.
pub open spec fn strictly_sorted(s: Seq<Seq<char>>) -> bool {
    forall|i: int, j: int| 0 <= i < j < s.len() ==> char_seq_less(#[trigger] s[i], #[trigger] s[j])
}

/// The names an atlas covers: the given ones, sorted, each once; the air
/// block when none are given.
pub open spec fn unique_names(out: Seq<Seq<char>>, names: Seq<Seq<char>>) -> bool {
    &&& strictly_sorted(out)
    &&& if names.len() == 0 {
        out == seq!["minecraft:air"@]
    } else {
        forall|n: Seq<char>| out.contains(n) <==> names.contains(n)
    }
}

/// The texts of a list of strings.
pub open spec fn texts(v: Seq<String>) -> Seq<Seq<char>> {
    v.map_values(|s: String| s@)
}

pub(crate) fn insert_unique(list: &mut Vec<String>, name: String)
    requires
        strictly_sorted(texts(old(list)@)),
    ensures
        strictly_sorted(texts(final(list)@)),
        forall|n: Seq<char>| texts(final(list)@).contains(n) <==> (texts(old(list)@).contains(n) || n == name@),
        final(list)@.len() <= old(list)@.len() + 1,
{
    let ghost before = texts(list@);
    let ghost k = name@;
    let mut p: usize = 0;
    while p < list.len() && str_less(list[p].as_str(), name.as_str())
        invariant
            p <= list@.len(),
            before == texts(list@),
            k == name@,
            forall|m: int| 0 <= m < p ==> char_seq_less(#[trigger] before[m], k),
        decreases list@.len() - p,
    {
        p += 1;
    }
    proof {
        assert forall|m: int| p <= m < before.len() implies !char_seq_less(#[trigger] before[m], k) by {
            if m > p {
                assert(char_seq_less(before[p as int], before[m]));
                lemma_char_seq_less_order(before[p as int], before[m], k);
            }
        }
    }
    if p < list.len() && str_eq(list[p].as_str(), name.as_str()) {
        proof {
            assert(before[p as int] == k);
            assert(before.contains(k));
        }
        return;
    }
    list.insert(p, name);
    proof {
        let after = texts(list@);
        assert(after =~= before.insert(p as int, k));
        assert forall|m: int| p <= m < before.len() implies char_seq_less(k, #[trigger] before[m]) by {
            lemma_char_seq_less_order(k, before[m], k);
            if m > p {
                assert(char_seq_less(before[p as int], before[m]));
                lemma_char_seq_less_order(k, before[p as int], before[m]);
                lemma_char_seq_less_order(before[p as int], k, k);
            }
        }
        assert forall|a: int, b: int| 0 <= a < b < after.len() implies char_seq_less(#[trigger] after[a], #[trigger] after[b]) by {
            if b < p {
                assert(char_seq_less(before[a], before[b]));
            } else if b == p {
            } else if a < p {
                assert(after[b] == before[b - 1]);
                lemma_char_seq_less_order(before[a], k, before[b - 1]);
            } else if a == p {
                assert(after[b] == before[b - 1]);
            } else {
                assert(after[a] == before[a - 1] && after[b] == before[b - 1]);
                assert(char_seq_less(before[a - 1], before[b - 1]));
            }
        }
        assert forall|n: Seq<char>| after.contains(n) <==> (before.contains(n) || n == k) by {
            if after.contains(n) {
                let a = choose|a: int| 0 <= a < after.len() && after[a] == n;
                if a < p {
                    assert(before[a] == n);
                } else if a > p {
                    assert(before[a - 1] == n);
                }
            }
            if before.contains(n) {
                let a = choose|a: int| 0 <= a < before.len() && before[a] == n;
                if a < p {
                    assert(after[a] == n);
                } else {
                    assert(after[a + 1] == n);
                }
            }
            if n == k {
                assert(after[p as int] == n);
            }
        }
    }
}

/// Collect and deduplicate block names: sorted, each once, and the air
/// block when there are none.
pub fn collect_unique(names: Vec<String>) -> (out: Vec<String>)
    ensures
        unique_names(texts(out@), texts(names@)),
        1 <= out@.len() <= names@.len() || (names@.len() == 0 && out@.len() == 1),
{
    let ghost input = texts(names@);
    let mut out: Vec<String> = Vec::new();
    let mut rest = names;
    let n = rest.len();
    let mut i: usize = 0;
    assert(texts(out@) =~= Seq::<Seq<char>>::empty());
    while i < n
        invariant
            i <= n,
            n == input.len(),
            texts(rest@) == input.skip(i as int),
            rest@.len() == n - i,
            strictly_sorted(texts(out@)),
            forall|x: Seq<char>| texts(out@).contains(x) <==> input.take(i as int).contains(x),
            out@.len() <= i,
            i > 0 ==> out@.len() >= 1,
        decreases n - i,
    {
        let ghost before_rest = rest@;
        let name = rest.remove(0);
        proof {
            assert(texts(before_rest)[0] == before_rest[0]@);
            assert(name@ == texts(before_rest)[0]);
            assert(name@ == input[i as int]);
            assert forall|j: int| 0 <= j < rest@.len() implies #[trigger] texts(rest@)[j] == input.skip(i + 1)[j] by {
                assert(rest@[j] == before_rest[j + 1]);
                assert(texts(before_rest)[j + 1] == input.skip(i as int)[j + 1]);
            }
            assert(texts(rest@) =~= input.skip(i + 1));
        }
        let ghost name_text = name@;
        insert_unique(&mut out, name);
        proof {
            assert(texts(out@).contains(name_text));
            assert(input.take(i + 1) =~= input.take(i as int).push(input[i as int]));
            assert forall|x: Seq<char>| texts(out@).contains(x) <==> input.take(i + 1).contains(x) by {
                let t1 = input.take(i + 1);
                let t0 = input.take(i as int);
                if t1.contains(x) {
                    let a = choose|a: int| 0 <= a < t1.len() && #[trigger] t1[a] == x;
                    if a < i {
                        assert(t0[a] == x);
                    }
                }
                if t0.contains(x) {
                    let a = choose|a: int| 0 <= a < t0.len() && #[trigger] t0[a] == x;
                    assert(t1[a] == x);
                }
                if x == name_text {
                    assert(t1[i as int] == x);
                }
            }
        }
        i += 1;
    }
    assert(input.take(n as int) =~= input);
    if out.len() == 0 {
        proof {
            if input.len() > 0 {
                assert(input.contains(input[0]));
                assert(texts(out@).contains(input[0]));
            }
        }
        out.push(String::from_str("minecraft:air"));
        proof {
            assert(texts(out@) =~= seq!["minecraft:air"@]);
        }
    } else {
        proof {
            if input.len() == 0 {
                assert(texts(out@).contains(texts(out@)[0]));
            }
        }
    }
    out
}

/// Where byte `i` of an atlas `width` pixels wide falls inside the slot of
/// tile `index` (sixteen slots to a row, 16×16 RGBA pixels each): its offset
/// in the tile's own bytes, or `None` outside the slot.
pub open spec fn slot_offset(i: int, width: int, index: int) -> Option<int> {
    let w = width * 4;
    let r = i / w;
    let q = i % w;
    let row = index / 16;
    let col = index % 16;
    if row * 16 <= r < row * 16 + 16 && col * 64 <= q < col * 64 + 64 {
        Some((r - row * 16) * 64 + (q - col * 64))
    } else {
        None
    }
}

/// The atlas after the first `done` bytes of `tile` (row by row) went into
/// slot `index`; every other byte as it was.
pub open spec fn partly_blitted(atlas: Seq<u8>, width: int, index: int, tile: Seq<u8>, done: int) -> Seq<u8> {
    Seq::new(
        atlas.len(),
        |i: int|
            match slot_offset(i, width, index) {
                Some(o) => if o < done {
                    tile[o]
                } else {
                    atlas[i]
                },
                None => atlas[i],
            },
    )
}

/// The atlas with `tile` copied into slot `index`.
pub open spec fn blitted(atlas: Seq<u8>, width: int, index: int, tile: Seq<u8>) -> Seq<u8> {
    partly_blitted(atlas, width, index, tile, 1024)
}

/// Byte `j` of a tile lands at byte `dst` of the atlas, and no other byte of
/// the slot has the same tile offset.
proof fn lemma_slot_position(width: int, index: int, j: int, dst: int)
    requires
        0 <= j < 1024,
        0 <= index,
        (index % 16) * 16 + 16 <= width,
        dst == ((index / 16 * 16 + j / 64) * width + (index % 16) * 16) * 4 + j % 64,
    ensures
        slot_offset(dst, width, index) == Some(j),
        forall|i: int| 0 <= i && #[trigger] slot_offset(i, width, index) == Some(j) ==> i == dst,
{
    let w = width * 4;
    let row = index / 16;
    let col = index % 16;
    let r = row * 16 + j / 64;
    let q = col * 64 + j % 64;
    assert(dst == r * w + q) by (nonlinear_arith)
        requires
            dst == ((row * 16 + j / 64) * width + col * 16) * 4 + j % 64,
            r == row * 16 + j / 64,
            q == col * 64 + j % 64,
            w == width * 4,
    ;
    assert(0 <= q < w);
    lemma_fundamental_div_mod_converse(dst, w, r, q);
    assert((r - row * 16) * 64 + (q - col * 64) == j);
    assert forall|i: int| 0 <= i && #[trigger] slot_offset(i, width, index) == Some(j) implies i == dst by {
        let ri = i / w;
        let qi = i % w;
        assert((ri - row * 16) * 64 + (qi - col * 64) == j);
        assert(ri == r && qi == q);
        lemma_fundamental_div_mod(i, w);
        assert(i == w * ri + qi);
        assert(w * ri == r * w) by (nonlinear_arith)
            requires
                ri == r,
        ;
    }
}

/// Copy a 16×16 RGBA tile into the atlas at `tile_index`.
fn blit_tile(pixels: &mut Vec<u8>, atlas_width: usize, tile_index: usize, tile: &[u8; 1024])
    requires
        (tile_index % 16) * 16 + 16 <= atlas_width,
        ((tile_index / 16) * 16 + 16) * atlas_width * 4 <= old(pixels)@.len(),
    ensures
        final(pixels)@ == blitted(old(pixels)@, atlas_width as int, tile_index as int, tile@),
{
    let ghost orig = pixels@;
    let ghost width = atlas_width as int;
    let ghost index = tile_index as int;
    let col = tile_index % 16;
    let row = tile_index / 16;
    let mut j: usize = 0;
    assert(pixels@ =~= partly_blitted(orig, width, index, tile@, 0));
    while j < 1024
        invariant
            j <= 1024,
            col == index % 16,
            row == index / 16,
            width == atlas_width,
            index == tile_index,
            col * 16 + 16 <= atlas_width,
            (row * 16 + 16) * atlas_width * 4 <= orig.len(),
            pixels@ == partly_blitted(orig, width, index, tile@, j as int),
        decreases 1024 - j,
    {
        let y = j / 64;
        let k = j % 64;
        assert((row * 16 + y) * atlas_width + col * 16 + 16 <= (row * 16 + 16) * atlas_width) by (nonlinear_arith)
            requires
                y < 16,
                col * 16 + 16 <= atlas_width,
        ;
        assert(((row * 16 + y) * atlas_width + col * 16) * 4 + k < (row * 16 + 16) * atlas_width * 4) by (nonlinear_arith)
            requires
                y < 16,
                k < 64,
                col * 16 + 16 <= atlas_width,
        ;
        assert((row * 16 + y) * atlas_width <= (row * 16 + 16) * atlas_width * 4) by (nonlinear_arith)
            requires
                y < 16,
        ;
        assert(pixels@.len() == orig.len());
        let plen = pixels.len();
        assert(plen == orig.len());
        let line = row * 16 + y;
        let start = line * atlas_width;
        let dst = (start + col * 16) * 4 + k;
        proof {
            lemma_slot_position(width, index, j as int, dst as int);
        }
        let ghost before = pixels@;
        pixels.set(dst, tile[j]);
        proof {
            assert forall|i: int| 0 <= i < orig.len() implies #[trigger] pixels@[i] == partly_blitted(
                orig,
                width,
                index,
                tile@,
                j + 1,
            )[i] by {
                if i != dst {
                    assert(before[i] == partly_blitted(orig, width, index, tile@, j as int)[i]);
                }
            }
            assert(pixels@ =~= partly_blitted(orig, width, index, tile@, j + 1));
        }
        j += 1;
    }
}

/// A tile with every colour channel multiplied by `tint`.
pub open spec fn tinted_tile(t: Seq<u8>, tint: [u8; 3]) -> Seq<u8> {
    Seq::new(t.len(), |i: int| if i % 4 < 3 { tinted(t[i], tint[i % 4]) } else { t[i] })
}

/// A tile with the colour of every pixel that is not fully transparent in
/// `overlay` replaced by the overlay's colour; alpha stays the base's.
pub open spec fn overlaid(base: Seq<u8>, overlay: Seq<u8>) -> Seq<u8> {
    Seq::new(
        base.len(),
        |i: int|
            if i % 4 < 3 && overlay[i - i % 4 + 3] > 0 {
                overlay[i]
            } else {
                base[i]
            },
    )
}

/// What the `image` crate decodes image bytes (PNG) to, converted to 8-bit
/// RGBA: the pixels row by row, the width and the height; `None` when the
/// bytes do not decode. It depends on the bytes alone.
pub uninterp spec fn png_rgba(bytes: Seq<u8>) -> Option<(Seq<u8>, u32, u32)>;

/// Decode image bytes into RGBA pixels with their width and height.
///
/// Trusted: calls `image::load_from_memory`, then `to_rgba8`, `dimensions`
/// and `into_raw`; the result is named (`png_rgba`), and an RGBA buffer
/// holds four bytes per pixel.
#[verifier::external_body]
pub(crate) fn decode_rgba(png: &[u8]) -> (r: Option<(Vec<u8>, u32, u32)>)
    ensures
        match r {
            Some(t) => png_rgba(png@) == Some((t.0@, t.1, t.2)) && t.0@.len() == t.1 as int * t.2 as int * 4,
            None => png_rgba(png@) is None,
        },
{
    match image::load_from_memory(png) {
        Ok(img) => {
            let rgba = img.to_rgba8();
            let (w, h) = rgba.dimensions();
            Some((rgba.into_raw(), w, h))
        },
        Err(_) => None,
    }
}

/// The rectangle `cw` × `ch` at `(x, y)` of an RGBA image `w` pixels wide,
/// row by row.
pub open spec fn cropped(px: Seq<u8>, w: int, x: int, y: int, cw: int, ch: int) -> Seq<u8> {
    Seq::new(
        (cw * ch * 4) as nat,
        |i: int| px[((y + (i / 4) / cw) * w + x + (i / 4) % cw) * 4 + i % 4],
    )
}

/// Cut the rectangle `cw` × `ch` at `(x, y)` out of an RGBA image.
///
/// Trusted: builds an `image::RgbaImage` of the pixels (`from_raw`, which
/// succeeds on a buffer of four bytes per pixel) and calls
/// `imageops::crop_imm`, `to_image` and `into_raw`; a crop inside the image
/// copies exactly that rectangle.
#[verifier::external_body]
pub(crate) fn crop_rgba(px: Vec<u8>, w: u32, h: u32, x: u32, y: u32, cw: u32, ch: u32) -> (r: Vec<u8>)
    requires
        px@.len() == w as int * h as int * 4,
        x + cw <= w,
        y + ch <= h,
    ensures
        r@ == cropped(px@, w as int, x as int, y as int, cw as int, ch as int),
{
    match image::RgbaImage::from_raw(w, h, px) {
        Some(img) => image::imageops::crop_imm(&img, x, y, cw, ch).to_image().into_raw(),
        None => Vec::new(),
    }
}

/// What `image::imageops::resize` with `FilterType::Nearest` makes of an
/// RGBA image `w` × `h` at the new size `nw` × `nh`. It depends on its
/// arguments alone.
pub uninterp spec fn nearest_resized(px: Seq<u8>, w: u32, h: u32, nw: u32, nh: u32) -> Seq<u8>;

/// Resample an RGBA image to `nw` × `nh` with nearest-neighbour filtering.
///
/// Trusted: builds an `image::RgbaImage` of the pixels (`from_raw`) and
/// calls `imageops::resize` with `FilterType::Nearest` and `into_raw`; the
/// result is named (`nearest_resized`) and holds `nw` × `nh` pixels.
#[verifier::external_body]
pub(crate) fn resize_nearest(px: Vec<u8>, w: u32, h: u32, nw: u32, nh: u32) -> (r: Vec<u8>)
    requires
        px@.len() == w as int * h as int * 4,
        nw as int * nh as int * 4 <= usize::MAX,
    ensures
        r@ == nearest_resized(px@, w, h, nw, nh),
        r@.len() == nw as int * nh as int * 4,
{
    match image::RgbaImage::from_raw(w, h, px) {
        Some(img) => image::imageops::resize(&img, nw, nh, image::imageops::FilterType::Nearest).into_raw(),
        None => Vec::new(),
    }
}

/// A 1024-byte tile as an array.
pub(crate) fn tile_array(v: &Vec<u8>) -> (t: [u8; 1024])
    requires
        v@.len() == 1024,
    ensures
        t@ == v@,
{
    let mut t = [0u8; 1024];
    let mut i: usize = 0;
    while i < 1024
        invariant
            i <= 1024,
            v@.len() == 1024,
            t@.len() == 1024,
            forall|j: int| 0 <= j < i ==> t@[j] == v@[j],
        decreases 1024 - i,
    {
        t[i] = v[i];
        i += 1;
    }
    assert(t@ =~= v@);
    t
}

/// The 16×16 RGBA tile of image bytes: decoded and resampled to 16×16 with
/// nearest-neighbour filtering; `None` when the bytes do not decode.
pub open spec fn png_tile(bytes: Seq<u8>) -> Option<Seq<u8>> {
    match png_rgba(bytes) {
        Some((px, w, h)) => Some(nearest_resized(px, w, h, 16, 16)),
        None => None,
    }
}

/// Decode PNG bytes into a 16×16 RGBA tile (nearest-neighbour resampled).
fn decode_tile(png_bytes: &[u8]) -> (r: Option<[u8; 1024]>)
    ensures
        match r {
            Some(t) => png_tile(png_bytes@) == Some(t@),
            None => png_tile(png_bytes@) is None,
        },
{
    let (px, w, h) = match decode_rgba(png_bytes) {
        Some(d) => d,
        None => return None,
    };
    let out = resize_nearest(px, w, h, 16, 16);
    Some(tile_array(&out))
}

/// Paint the colour of every visible overlay pixel over the tile.
fn composite_overlay(tile: &mut [u8; 1024], overlay: &[u8; 1024])
    ensures
        final(tile)@ == overlaid(old(tile)@, overlay@),
{
    let ghost orig = tile@;
    let mut p: usize = 0;
    while p < 1024
        invariant
            p % 4 == 0,
            p <= 1024,
            tile@.len() == 1024,
            orig.len() == 1024,
            overlay@.len() == 1024,
            forall|i: int|
                0 <= i < 1024 ==> #[trigger] tile@[i] == if i < p {
                    overlaid(orig, overlay@)[i]
                } else {
                    orig[i]
                },
        decreases 1024 - p,
    {
        if overlay[p + 3] > 0 {
            tile[p] = overlay[p];
            tile[p + 1] = overlay[p + 1];
            tile[p + 2] = overlay[p + 2];
        }
        proof {
            assert forall|i: int| p <= i < p + 4 implies #[trigger] overlaid(orig, overlay@)[i] == if i % 4 < 3 && overlay@[p + 3] > 0 {
                overlay@[i]
            } else {
                orig[i]
            } by {
                assert(i % 4 == i - p) by (nonlinear_arith)
                    requires
                        p % 4 == 0,
                        p <= i < p + 4,
                ;
                assert(p + 4 <= 1024);
            }
        }
        p += 4;
    }
    assert(tile@ =~= overlaid(orig, overlay@));
}

/// The tile a texture name gives: its PNG from the loader, decoded; for the
/// grass block side, the plains-tinted side overlay painted over it; then
/// the biome tint of the name, if it has one.
pub open spec fn spec_load_tile(l: JarTextureLoader, name: Seq<char>) -> Option<Seq<u8>> {
    match l.spec_get(name) {
        None => None,
        Some(bytes) => match png_tile(bytes) {
            None => None,
            Some(t) => {
                let with_overlay = if name == "grass_block_side"@ {
                    match l.spec_get("grass_block_side_overlay"@) {
                        Some(ob) => match png_tile(ob) {
                            Some(ov) => overlaid(t, tinted_tile(ov, plains_grass())),
                            None => t,
                        },
                        None => t,
                    }
                } else {
                    t
                };
                Some(
                    match spec_tint_for(name) {
                        Some(c) => tinted_tile(with_overlay, c),
                        None => with_overlay,
                    },
                )
            },
        },
    }
}

/// Try to load a 16×16 RGBA tile from the JAR loader by texture name, with
/// the grass side overlay and biome tint applied.
fn load_tile(loader: &JarTextureLoader, tex_name: &str) -> (r: Option<[u8; 1024]>)
    requires
        loader.well_formed(),
    ensures
        match r {
            Some(t) => spec_load_tile(*loader, tex_name@) == Some(t@),
            None => spec_load_tile(*loader, tex_name@) is None,
        },
{
    proof {
        reveal_strlit("grass_block_side");
        reveal_strlit("grass_block_side_overlay");
    }
    let bytes = match loader.get(tex_name) {
        Some(b) => b,
        None => {
            return None;
        },
    };
    let mut tile = match decode_tile(bytes) {
        Some(t) => t,
        None => {
            return None;
        },
    };
    let ghost decoded = tile@;
    if str_eq(tex_name, "grass_block_side") {
        if let Some(ob) = loader.get("grass_block_side_overlay") {
            if let Some(ov) = decode_tile(ob) {
                let mut overlay = ov;
                apply_tint(&mut overlay, [0x79u8, 0xC0u8, 0x5Au8]);
                assert(overlay@ =~= tinted_tile(ov@, plains_grass()));
                composite_overlay(&mut tile, &overlay);
            }
        }
    }
    let ghost with_overlay = tile@;
    if let Some(tint) = tint_for(tex_name) {
        apply_tint(&mut tile, tint);
        assert(tile@ =~= tinted_tile(with_overlay, tint));
    }
    Some(tile)
}

/// The tile that stands for a block in a one-tile-per-block atlas: its top
/// face's texture (the faces resolved from the vanilla definitions in
/// `faces`, else the built-in ones), else the texture named after the block
/// itself.
pub open spec fn representative_tile(
    l: JarTextureLoader,
    faces: Seq<(String, FaceTextures)>,
    block: Seq<char>,
) -> Option<Seq<u8>> {
    match spec_load_tile(l, spec_face_textures_with(faces, block).top) {
        Some(t) => Some(t),
        None => spec_load_tile(l, spec_strip_namespace(block)),
    }
}

/// Load the tile that stands for a block: its top face's texture, else the
/// texture named after the block.
pub fn block_tile(loader: &JarTextureLoader, faces: &[(String, FaceTextures)], block: &str) -> (r: Option<[u8; 1024]>)
    requires
        loader.well_formed(),
    ensures
        match r {
            Some(t) => representative_tile(*loader, faces@, block@) == Some(t@),
            None => representative_tile(*loader, faces@, block@) is None,
        },
{
    let ft = face_textures_with(faces, block);
    match load_tile(loader, ft.top.as_str()) {
        Some(t) => Some(t),
        None => load_tile(loader, strip_namespace(block)),
    }
}

/// An atlas of zeros with `tiles` copied into slots 0, 1, 2, … in turn.
pub open spec fn atlas_of(start: Seq<u8>, width: int, tiles: Seq<Seq<u8>>) -> Seq<u8>
    decreases tiles.len(),
{
    if tiles.len() == 0 {
        start
    } else {
        blitted(atlas_of(start, width, tiles.drop_last()), width, tiles.len() - 1, tiles.last())
    }
}

/// An atlas covering a set of block names: one tile each, row-major. The
/// tile of a name is at its position in `names`.
pub struct TileSet {
    /// The block names covered, in tile order.
    pub names: Vec<String>,
    /// Atlas width in pixels.
    pub width: u32,
    /// Atlas height in pixels.
    pub height: u32,
    /// RGBA pixels, row-major.
    pub pixels: Vec<u8>,
}

/// The tile chosen for a block name: the representative tile from the
/// loader, or else one the fallback may give for that name.
pub open spec fn chosen_tile<F: Fn(&String) -> [u8; 1024]>(
    l: JarTextureLoader,
    faces: Seq<(String, FaceTextures)>,
    fallback: F,
    name: String,
    tile: Seq<u8>,
) -> bool {
    match representative_tile(l, faces, name@) {
        Some(t) => tile == t,
        None => exists|out: [u8; 1024]| fallback.ensures((&name,), out) && tile == out@,
    }
}

/// `pixels` is a zeroed 256-pixel-wide atlas with `tiles` copied into its
/// slots in turn, and each tile is the one chosen for the name at its slot.
pub open spec fn atlas_built<F: Fn(&String) -> [u8; 1024]>(
    l: JarTextureLoader,
    faces: Seq<(String, FaceTextures)>,
    fallback: F,
    names: Seq<String>,
    pixels: Seq<u8>,
    tiles: Seq<Seq<u8>>,
) -> bool {
    &&& tiles.len() == names.len()
    &&& forall|i: int| 0 <= i < tiles.len() ==> chosen_tile(l, faces, fallback, #[trigger] names[i], tiles[i])
    &&& pixels == atlas_of(Seq::new(pixels.len(), |_i: int| 0u8), 256, tiles)
}

impl TileSet {
    /// A `TileSet` from raw pixel data, covering no block names.
    pub fn from_raw(pixels: Vec<u8>, width: u32, height: u32) -> (r: Self)
        ensures
            r.names@ == Seq::<String>::empty(),
            r.pixels == pixels,
            r.width == width,
            r.height == height,
    {
        TileSet { names: Vec::new(), pixels, width, height }
    }

    /// The block names covered by this atlas (tile order).
    pub fn names(&self) -> (r: &[String])
        ensures
            r@ == self.names@,
    {
        self.names.as_slice()
    }

    /// The tile slot of a block name: its position in the atlas, or 0 (the
    /// fallback slot) for a name the atlas does not cover.
    pub fn tile_index(&self, name: &str) -> (r: usize)
        ensures
            (r < self.names@.len() && self.names@[r as int]@ == name@ && forall|j: int|
                0 <= j < r ==> #[trigger] self.names@[j]@ != name@) || (r == 0 && forall|j: int|
                0 <= j < self.names@.len() ==> #[trigger] self.names@[j]@ != name@),
    {
        let mut i: usize = 0;
        while i < self.names.len()
            invariant
                i <= self.names@.len(),
                forall|j: int| 0 <= j < i ==> #[trigger] self.names@[j]@ != name@,
            decreases self.names@.len() - i,
        {
            if str_eq(self.names[i].as_str(), name) {
                return i;
            }
            i += 1;
        }
        0
    }

    /// Build a real-texture atlas: one tile per distinct block name (sorted),
    /// each the block's representative texture from the loader (its top face
    /// per `faces`, the faces resolved from the vanilla definitions, else the
    /// built-in ones), or the fallback's tile for the name when the loader
    /// has none.
    pub fn build_real<F: Fn(&String) -> [u8; 1024]>(
        names: Vec<String>,
        loader: &JarTextureLoader,
        faces: &[(String, FaceTextures)],
        fallback: F,
    ) -> (r: Self)
        requires
            loader.well_formed(),
            names@.len() * 1024 + 16384 <= usize::MAX,
            names@.len() + 16 <= u32::MAX,
            forall|n: &String| fallback.requires((n,)),
        ensures
            unique_names(texts(r.names@), texts(names@)),
            r.width == 256,
            r.height == atlas_rows(r.names@.len()) * 16,
            r.pixels@.len() == 256 * r.height * 4,
            exists|tiles: Seq<Seq<u8>>| #[trigger] atlas_built(*loader, faces@, fallback, r.names@, r.pixels@, tiles),
    {
        let ghost input_len = names@.len();
        let unique = collect_unique(names);
        let n = unique.len();
        assert(atlas_rows(n as nat) * 16 * 256 * 4 <= usize::MAX && atlas_rows(n as nat) * 16 <= u32::MAX) by {
            assert(n <= input_len || n == 1);
        }
        let (width, height, mut pixels) = alloc_atlas(n);
        let ghost zeros = pixels@;
        assert(zeros =~= Seq::new(pixels@.len(), |_i: int| 0u8));
        let ghost mut chosen: Seq<Seq<u8>> = Seq::empty();
        let mut index: usize = 0;
        while index < n
            invariant
                index <= n,
                n == unique@.len(),
                width == 256,
                height == atlas_rows(n as nat) * 16,
                pixels@.len() == 256 * height * 4,
                loader.well_formed(),
                forall|m: &String| fallback.requires((m,)),
                chosen.len() == index,
                forall|i: int| 0 <= i < index ==> chosen_tile(*loader, faces@, fallback, #[trigger] unique@[i], chosen[i]),
                pixels@ == atlas_of(zeros, 256, chosen),
            decreases n - index,
        {
            let tile = match block_tile(loader, faces, unique[index].as_str()) {
                Some(t) => t,
                None => fallback(&unique[index]),
            };
            assert(chosen_tile(*loader, faces@, fallback, unique@[index as int], tile@));
            assert((index / 16 * 16 + 16) * 256 * 4 <= pixels@.len()) by (nonlinear_arith)
                requires
                    index < n,
                    height == atlas_rows(n as nat) * 16,
                    pixels@.len() == 256 * height * 4,
                    atlas_rows(n as nat) == ((if n == 0 { 1 } else { n as int }) + 15) / 16,
            ;
            blit_tile(&mut pixels, 256, index, &tile);
            proof {
                let next = chosen.push(tile@);
                assert(next.drop_last() =~= chosen);
                chosen = next;
            }
            index += 1;
        }
        assert(atlas_built(*loader, faces@, fallback, unique@, pixels@, chosen));
        TileSet { names: unique, width, height, pixels }
    }
}

/// A byte lies in the slot of at most one tile.
proof fn lemma_one_slot(i: int, width: int, a: int, b: int)
    requires
        width > 0,
        0 <= a,
        0 <= b,
        slot_offset(i, width, a) is Some,
        slot_offset(i, width, b) is Some,
    ensures
        a == b,
{
    let w = width * 4;
    let r = i / w;
    let q = i % w;
    assert(r / 16 == a / 16 && r / 16 == b / 16);
    assert(q / 64 == a % 16 && q / 64 == b % 16);
}

/// One tile per slot: in an atlas built from zeros by copying `tiles` into
/// slots 0, 1, 2, … in turn, every byte of the slot of tile `k` is that
/// tile's byte, and every byte outside all the slots is still zero.
pub proof fn law_each_slot_holds_its_tile(len: nat, width: int, tiles: Seq<Seq<u8>>, i: int)
    requires
        width >= 16,
        0 <= i < len,
    ensures
        match slot_offset(i, width, (i / (width * 4)) / 16 * 16 + (i % (width * 4)) / 64) {
            Some(o) => {
                let k = (i / (width * 4)) / 16 * 16 + (i % (width * 4)) / 64;
                if k < tiles.len() {
                    atlas_of(Seq::new(len, |_j: int| 0u8), width, tiles)[i] == tiles[k][o]
                } else {
                    atlas_of(Seq::new(len, |_j: int| 0u8), width, tiles)[i] == 0
                }
            },
            None => atlas_of(Seq::new(len, |_j: int| 0u8), width, tiles)[i] == 0,
        },
    decreases tiles.len(),
{
    let zeros = Seq::new(len, |_j: int| 0u8);
    let w = width * 4;
    let k = (i / w) / 16 * 16 + (i % w) / 64;
    lemma_atlas_len(zeros, width, tiles);
    if tiles.len() > 0 {
        let n = tiles.len() - 1;
        law_each_slot_holds_its_tile(len, width, tiles.drop_last(), i);
        if slot_offset(i, width, n) is Some {
            if slot_offset(i, width, k) is Some {
                lemma_one_slot(i, width, k, n);
            } else {
                assert(k == n) by {
                    let r = i / w;
                    let q = i % w;
                    assert(r / 16 == n / 16);
                    assert(q / 64 == n % 16);
                }
            }
        }
    }
}

/// Copying tiles keeps the atlas's length.
proof fn lemma_atlas_len(start: Seq<u8>, width: int, tiles: Seq<Seq<u8>>)
    ensures
        atlas_of(start, width, tiles).len() == start.len(),
    decreases tiles.len(),
{
    if tiles.len() > 0 {
        lemma_atlas_len(start, width, tiles.drop_last());
    }
}

/// The tile chosen for a texture name: the loader's tile for it, or else
/// one the fallback may give for that name.
pub open spec fn chosen_texture_tile<F: Fn(&String) -> [u8; 1024]>(
    l: JarTextureLoader,
    fallback: F,
    name: String,
    tile: Seq<u8>,
) -> bool {
    match spec_load_tile(l, name@) {
        Some(t) => tile == t,
        None => exists|out: [u8; 1024]| fallback.ensures((&name,), out) && tile == out@,
    }
}

/// `pixels` is a zeroed 256-pixel-wide atlas with `tiles` copied into its
/// slots in turn, each the tile chosen for the texture name at its slot.
pub open spec fn texture_atlas_built<F: Fn(&String) -> [u8; 1024]>(
    l: JarTextureLoader,
    fallback: F,
    names: Seq<String>,
    pixels: Seq<u8>,
    tiles: Seq<Seq<u8>>,
) -> bool {
    &&& tiles.len() == names.len()
    &&& forall|i: int| 0 <= i < tiles.len() ==> chosen_texture_tile(l, fallback, #[trigger] names[i], tiles[i])
    &&& pixels == atlas_of(Seq::new(pixels.len(), |_i: int| 0u8), 256, tiles)
}

impl TileSet {
    /// Build an atlas over texture names, in the given order: each tile the
    /// texture from the loader, or the fallback's tile for the name when the
    /// loader has none.
    pub fn build_textures<F: Fn(&String) -> [u8; 1024]>(
        names: Vec<String>,
        loader: &JarTextureLoader,
        fallback: F,
    ) -> (r: Self)
        requires
            loader.well_formed(),
            names@.len() * 1024 + 16384 <= usize::MAX,
            names@.len() + 16 <= u32::MAX,
            forall|n: &String| fallback.requires((n,)),
        ensures
            r.names@ == names@,
            r.width == 256,
            r.height == atlas_rows(names@.len()) * 16,
            r.pixels@.len() == 256 * r.height * 4,
            exists|tiles: Seq<Seq<u8>>| #[trigger] texture_atlas_built(*loader, fallback, r.names@, r.pixels@, tiles),
    {
        let n = names.len();
        let (width, height, mut pixels) = alloc_atlas(n);
        let ghost zeros = pixels@;
        assert(zeros =~= Seq::new(pixels@.len(), |_i: int| 0u8));
        let ghost mut chosen: Seq<Seq<u8>> = Seq::empty();
        let mut index: usize = 0;
        while index < n
            invariant
                index <= n,
                n == names@.len(),
                width == 256,
                height == atlas_rows(n as nat) * 16,
                pixels@.len() == 256 * height * 4,
                loader.well_formed(),
                forall|m: &String| fallback.requires((m,)),
                chosen.len() == index,
                forall|i: int| 0 <= i < index ==> chosen_texture_tile(*loader, fallback, #[trigger] names@[i], chosen[i]),
                pixels@ == atlas_of(zeros, 256, chosen),
            decreases n - index,
        {
            let tile = match load_tile(loader, names[index].as_str()) {
                Some(t) => t,
                None => fallback(&names[index]),
            };
            assert(chosen_texture_tile(*loader, fallback, names@[index as int], tile@));
            assert((index / 16 * 16 + 16) * 256 * 4 <= pixels@.len()) by (nonlinear_arith)
                requires
                    index < n,
                    height == atlas_rows(n as nat) * 16,
                    pixels@.len() == 256 * height * 4,
                    atlas_rows(n as nat) == ((if n == 0 { 1 } else { n as int }) + 15) / 16,
            ;
            blit_tile(&mut pixels, 256, index, &tile);
            proof {
                let next = chosen.push(tile@);
                assert(next.drop_last() =~= chosen);
                chosen = next;
            }
            index += 1;
        }
        assert(texture_atlas_built(*loader, fallback, names@, pixels@, chosen));
        TileSet { names, width, height, pixels }
    }
}

/// `start` with `tiles` copied into slots `first`, `first + 1`, … in turn.
pub open spec fn atlas_from(start: Seq<u8>, width: int, first: int, tiles: Seq<Seq<u8>>) -> Seq<u8>
    decreases tiles.len(),
{
    if tiles.len() == 0 {
        start
    } else {
        blitted(atlas_from(start, width, first, tiles.drop_last()), width, first + tiles.len() - 1, tiles.last())
    }
}

/// Whole 16-pixel rows needed for `count` more tiles, sixteen to a row.
pub open spec fn extra_rows(count: nat) -> nat {
    ((count + 15) / 16) as nat
}

/// Grow an RGBA atlas `width` × `height` by the tile rows `tiles` need and
/// copy them in, sixteen to a row, starting at the first tile row below the
/// atlas's whole rows; returns the new height. An atlas without new tiles
/// is left as it is.
pub fn append_tiles(pixels: &mut Vec<u8>, width: u32, height: u32, tiles: &[[u8; 1024]]) -> (new_height: u32)
    requires
        old(pixels)@.len() == width * height * 4,
        width >= 256,
        height + extra_rows(tiles@.len()) * 16 <= u32::MAX,
        width * (height + extra_rows(tiles@.len()) * 16) * 4 <= usize::MAX,
    ensures
        new_height == height + extra_rows(tiles@.len()) * 16,
        final(pixels)@ == atlas_from(
            old(pixels)@ + Seq::new((width * extra_rows(tiles@.len()) * 16 * 4) as nat, |_i: int| 0u8),
            width as int,
            (height / 16) * 16,
            tiles@.map_values(|t: [u8; 1024]| t@),
        ),
{
    let ghost orig = pixels@;
    let ghost ts = tiles@.map_values(|t: [u8; 1024]| t@);
    let n = tiles.len();
    let rows: u32 = (n / 16 + if n % 16 == 0 { 0 } else { 1 }) as u32;
    assert(rows == extra_rows(n as nat));
    let new_height = height + rows * 16;
    let ghost grown = orig + Seq::new((width * extra_rows(n as nat) * 16 * 4) as nat, |_i: int| 0u8);
    if rows > 0 {
        let total = (width as usize) * (new_height as usize) * 4;
        assert(total == width * height * 4 + width * rows * 16 * 4) by (nonlinear_arith)
            requires
                total == width * new_height * 4,
                new_height == height + rows * 16,
        ;
        pixels.resize(total, 0u8);
        assert(pixels@ =~= grown) by {
            assert forall|i: int| 0 <= i < pixels@.len() implies pixels@[i] == grown[i] by {
                if i >= orig.len() {
                    assert(pixels@[i] == 0u8);
                } else {
                    assert(pixels@.subrange(0, orig.len() as int)[i] == orig[i]);
                }
            }
        }
    } else {
        assert((width as int) * (extra_rows(n as nat) as int) * 16 * 4 == 0) by (nonlinear_arith)
            requires
                extra_rows(n as nat) == 0,
        ;
        assert(grown =~= orig);
    }
    let first = (height / 16) * 16;
    let mut k: usize = 0;
    assert(ts.take(0) =~= Seq::<Seq<u8>>::empty());
    while k < n
        invariant
            k <= n,
            n == tiles@.len(),
            ts == tiles@.map_values(|t: [u8; 1024]| t@),
            width >= 256,
            first == (height / 16) * 16,
            rows == extra_rows(n as nat),
            new_height == height + rows * 16,
            pixels@.len() == width * new_height * 4,
            pixels@ == atlas_from(grown, width as int, first as int, ts.take(k as int)),
        decreases n - k,
    {
        let index = first as usize + k;
        assert((index / 16) * 16 + 16 <= height + rows * 16) by (nonlinear_arith)
            requires
                index == first + k,
                first == (height / 16) * 16,
                k < n,
                rows == (n + 15) / 16,
        ;
        assert(((index / 16) * 16 + 16) * (width as int) * 4 <= pixels@.len()) by (nonlinear_arith)
            requires
                (index / 16) * 16 + 16 <= height + rows * 16,
                pixels@.len() == width * (height + rows * 16) * 4,
        ;
        assert((index % 16) * 16 + 16 <= width);
        blit_tile(pixels, width as usize, index, &tiles[k]);
        assert(ts.take(k + 1).drop_last() =~= ts.take(k as int));
        assert(ts.take(k + 1).last() == tiles@[k as int]@);
        k += 1;
    }
    assert(ts.take(n as int) =~= ts);
    new_height
}

} // verus!
