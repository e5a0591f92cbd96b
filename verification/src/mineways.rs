//! Mineways-compatible block texture naming.
//!
//! The Mineways tile table is keyed by *texture* names, not block ids. The
//! rules here turn the block names found in a save (Bedrock spellings,
//! legacy ids, colour-keyed blocks, pillars lying on their side) into the
//! texture names and face slots that table expects, and say which atlas
//! swatches ship grayscale and take a biome colour.

use vstd::prelude::*;
use crate::text::{
    first_index, has_suffix, str_eq, strip_prefix, strip_suffix, without_prefix, without_suffix,
};
use crate::jar_textures::JarTextureLoader;
use crate::texture::{apply_tint, tinted_tile, cropped, crop_rgba, decode_rgba, nearest_resized, png_rgba, resize_nearest, tile_array, 
    biome_tint, foliage_tinted, grass_tinted, lily_pad_green, plains_foliage, plains_grass, spec_tint_for, spruce_green,
};

verus! {

/// The texture name the Mineways tile table uses for a block name that
/// Bedrock or an old save spells differently; any other name is its own.
pub open spec fn spec_normalize_block_name(n: Seq<char>) -> Seq<char> {
    if n == "grass_block"@ {
        "grass_block_top"@
    } else if n == "grass"@ {
        "short_grass"@
    } else if n == "stonebrick"@ {
        "stone_bricks"@
    } else if n == "stonebricks"@ {
        "stone_bricks"@
    } else if n == "planks"@ {
        "oak_planks"@
    } else if n == "log"@ {
        "oak_log"@
    } else if n == "log2"@ {
        "acacia_log"@
    } else if n == "leaves"@ {
        "oak_leaves"@
    } else if n == "leaves2"@ {
        "acacia_leaves"@
    } else if n == "wool"@ {
        "white_wool"@
    } else if n == "red_flower"@ {
        "poppy"@
    } else if n == "yellow_flower"@ {
        "dandelion"@
    } else if n == "double_plant"@ {
        "sunflower_bottom"@
    } else if n == "lit_pumpkin"@ {
        "jack_o_lantern"@
    } else if n == "lit_furnace"@ {
        "furnace_front_on"@
    } else if n == "unlit_redstone_torch"@ {
        "redstone_torch_off"@
    } else if n == "stone_slab"@ {
        "stone_slab_top"@
    } else if n == "wooden_slab"@ {
        "oak_planks"@
    } else if n == "melon_block"@ {
        "melon_side"@
    } else if n == "nether_brick"@ {
        "nether_bricks"@
    } else if n == "end_bricks"@ {
        "end_stone_bricks"@
    } else if n == "end_brick_stairs"@ {
        "end_stone_bricks"@
    } else if n == "hardened_clay"@ {
        "terracotta"@
    } else if n == "stained_hardened_clay"@ {
        "white_terracotta"@
    } else if n == "concretepowder"@ {
        "white_concrete_powder"@
    } else if n == "glazedterracotta"@ {
        "white_glazed_terracotta"@
    } else if n == "slime"@ {
        "slime_block"@
    } else if n == "prismarine_rough"@ {
        "prismarine"@
    } else if n == "stone_andesite"@ {
        "andesite"@
    } else if n == "stone_diorite"@ {
        "diorite"@
    } else if n == "stone_granite"@ {
        "granite"@
    } else if n == "monster_egg"@ {
        "stone"@
    } else if n == "mob_spawner"@ {
        "spawner"@
    } else if n == "quartz_ore"@ {
        "nether_quartz_ore"@
    } else if n == "lit_redstone_ore"@ {
        "redstone_ore"@
    } else if n == "pumpkin"@ {
        "carved_pumpkin"@
    } else if n == "beacon"@ {
        "beacon"@
    } else if n == "reeds"@ {
        "sugar_cane"@
    } else if n == "snow_layer"@ {
        "snow"@
    } else if n == "snowball"@ {
        "snow"@
    } else if n == "fire"@ {
        "fire_0"@
    } else if n == "portal"@ {
        "nether_portal"@
    } else if n == "stationary_water"@ {
        "water_still"@
    } else if n == "stationary_lava"@ {
        "lava_still"@
    } else if n == "web"@ {
        "cobweb"@
    } else if n == "deadbush"@ {
        "dead_bush"@
    } else if n == "waterlily"@ {
        "lily_pad"@
    } else if n == "mushroom"@ {
        "brown_mushroom"@
    } else {
        n
    }
}

/// Common block name transformations: maps non-standard Bedrock names
/// to the vanilla Java texture filenames used in Mineways' tile table.
pub fn normalize_block_name(name: &str) -> (r: &str)
    ensures
        r@ == spec_normalize_block_name(name@),
{
    if str_eq(name, "grass_block") {
        return "grass_block_top";
    }
    if str_eq(name, "grass") {
        return "short_grass";
    }
    if str_eq(name, "stonebrick") {
        return "stone_bricks";
    }
    if str_eq(name, "stonebricks") {
        return "stone_bricks";
    }
    if str_eq(name, "planks") {
        return "oak_planks";
    }
    if str_eq(name, "log") {
        return "oak_log";
    }
    if str_eq(name, "log2") {
        return "acacia_log";
    }
    if str_eq(name, "leaves") {
        return "oak_leaves";
    }
    if str_eq(name, "leaves2") {
        return "acacia_leaves";
    }
    if str_eq(name, "wool") {
        return "white_wool";
    }
    if str_eq(name, "red_flower") {
        return "poppy";
    }
    if str_eq(name, "yellow_flower") {
        return "dandelion";
    }
    if str_eq(name, "double_plant") {
        return "sunflower_bottom";
    }
    if str_eq(name, "lit_pumpkin") {
        return "jack_o_lantern";
    }
    if str_eq(name, "lit_furnace") {
        return "furnace_front_on";
    }
    if str_eq(name, "unlit_redstone_torch") {
        return "redstone_torch_off";
    }
    if str_eq(name, "stone_slab") {
        return "stone_slab_top";
    }
    if str_eq(name, "wooden_slab") {
        return "oak_planks";
    }
    if str_eq(name, "melon_block") {
        return "melon_side";
    }
    if str_eq(name, "nether_brick") {
        return "nether_bricks";
    }
    if str_eq(name, "end_bricks") {
        return "end_stone_bricks";
    }
    if str_eq(name, "end_brick_stairs") {
        return "end_stone_bricks";
    }
    if str_eq(name, "hardened_clay") {
        return "terracotta";
    }
    if str_eq(name, "stained_hardened_clay") {
        return "white_terracotta";
    }
    if str_eq(name, "concretepowder") {
        return "white_concrete_powder";
    }
    if str_eq(name, "glazedterracotta") {
        return "white_glazed_terracotta";
    }
    if str_eq(name, "slime") {
        return "slime_block";
    }
    if str_eq(name, "prismarine_rough") {
        return "prismarine";
    }
    if str_eq(name, "stone_andesite") {
        return "andesite";
    }
    if str_eq(name, "stone_diorite") {
        return "diorite";
    }
    if str_eq(name, "stone_granite") {
        return "granite";
    }
    if str_eq(name, "monster_egg") {
        return "stone";
    }
    if str_eq(name, "mob_spawner") {
        return "spawner";
    }
    if str_eq(name, "quartz_ore") {
        return "nether_quartz_ore";
    }
    if str_eq(name, "lit_redstone_ore") {
        return "redstone_ore";
    }
    if str_eq(name, "pumpkin") {
        return "carved_pumpkin";
    }
    if str_eq(name, "beacon") {
        return "beacon";
    }
    if str_eq(name, "reeds") {
        return "sugar_cane";
    }
    if str_eq(name, "snow_layer") {
        return "snow";
    }
    if str_eq(name, "snowball") {
        return "snow";
    }
    if str_eq(name, "fire") {
        return "fire_0";
    }
    if str_eq(name, "portal") {
        return "nether_portal";
    }
    if str_eq(name, "stationary_water") {
        return "water_still";
    }
    if str_eq(name, "stationary_lava") {
        return "lava_still";
    }
    if str_eq(name, "web") {
        return "cobweb";
    }
    if str_eq(name, "deadbush") {
        return "dead_bush";
    }
    if str_eq(name, "waterlily") {
        return "lily_pad";
    }
    if str_eq(name, "mushroom") {
        return "brown_mushroom";
    }
    name
}

/// A texture key split at its first `|` into block name and colour.
pub open spec fn spec_split_texture_key(key: Seq<char>) -> (Seq<char>, Option<Seq<char>>) {
    match first_index(key, '|') {
        Some(i) => (key.subrange(0, i), Some(key.subrange(i + 1, key.len() as int))),
        None => (key, None),
    }
}

/// Splits a [`crate::chunk::BlockState::texture_key`] back into
/// `(block_name, color)`. Keys without a colour suffix (most blocks) yield
/// `color: None`.
pub fn split_texture_key(key: &str) -> (r: (&str, Option<&str>))
    ensures
        r.0@ == spec_split_texture_key(key@).0,
        match r.1 {
            Some(c) => spec_split_texture_key(key@).1 == Some(c@),
            None => spec_split_texture_key(key@).1 is None,
        },
{
    match crate::text::find_char(key, '|') {
        Some(i) => {
            let n = key.unicode_len();
            (key.substring_char(0, i), Some(key.substring_char(i + 1, n)))
        },
        None => (key, None),
    }
}

/// The texture-name suffix a legacy colour-keyed block splices its colour
/// into (`"red" + "_wool"`), or `None` for any other block.
pub open spec fn spec_legacy_color_suffix(short: Seq<char>) -> Option<Seq<char>> {
    if short == "wool"@ || short == "carpet"@ {
        Some("_wool"@)
    } else if short == "concretepowder"@ {
        Some("_concrete_powder"@)
    } else if short == "stained_hardened_clay"@ {
        Some("_terracotta"@)
    } else if short == "glazedterracotta"@ {
        Some("_glazed_terracotta"@)
    } else if short == "stained_glass"@ || short == "stained_glass_pane"@ {
        Some("_stained_glass"@)
    } else {
        None
    }
}

/// Legacy (pre-flattening) block IDs that pack their dye colour into a
/// separate `color` state instead of the block name, e.g. `wool` +
/// `color=red` rather than `red_wool`. Returns the texture-name suffix to
/// splice the colour into (`"red" + "_wool" = "red_wool"`), or `None` if
/// `short` isn't one of these. `carpet` reuses the wool texture, and panes
/// reuse the plain stained glass.
pub fn legacy_color_suffix(short: &str) -> (r: Option<&'static str>)
    ensures
        match r {
            Some(s) => spec_legacy_color_suffix(short@) == Some(s@),
            None => spec_legacy_color_suffix(short@) is None,
        },
{
    if str_eq(short, "wool") || str_eq(short, "carpet") {
        Some("_wool")
    } else if str_eq(short, "concretepowder") {
        Some("_concrete_powder")
    } else if str_eq(short, "stained_hardened_clay") {
        Some("_terracotta")
    } else if str_eq(short, "glazedterracotta") {
        Some("_glazed_terracotta")
    } else if str_eq(short, "stained_glass") || str_eq(short, "stained_glass_pane") {
        Some("_stained_glass")
    } else {
        None
    }
}

/// The logical face slot of physical face `face_idx` for a pillar lying
/// along `axis`.
pub open spec fn spec_remap_pillar_face(face_idx: int, axis: Seq<char>) -> int {
    if axis == "x"@ {
        if face_idx == 2 {
            0
        } else if face_idx == 3 {
            1
        } else {
            2
        }
    } else if axis == "z"@ {
        if face_idx == 4 {
            0
        } else if face_idx == 5 {
            1
        } else {
            2
        }
    } else {
        face_idx
    }
}

/// Remaps a physical cube face index (`[top, bottom, east, west, south,
/// north]`) onto the logical face slot the per-face swatch tables assume —
/// i.e. as if the block's pillar `axis` were `y`.
///
/// The tables put end-grain on faces 0/1 (top/bottom) and bark on faces
/// 2..6, which is only correct for vertically-placed pillars. A log placed
/// on its side (`axis=x` or `axis=z`) needs the end-grain texture on the
/// faces perpendicular to its actual axis instead. Blocks without an `axis`
/// property (or with `axis="y"`, the default) pass through unchanged.
pub fn remap_pillar_face(face_idx: usize, axis: &str) -> (r: usize)
    ensures
        r == spec_remap_pillar_face(face_idx as int, axis@),
{
    if str_eq(axis, "x") {
        if face_idx == 2 {
            0
        } else if face_idx == 3 {
            1
        } else {
            2
        }
    } else if str_eq(axis, "z") {
        if face_idx == 4 {
            0
        } else if face_idx == 5 {
            1
        } else {
            2
        }
    } else {
        face_idx
    }
}

/// Swatches of the Mineways atlas that ship grayscale and take the grass
/// colour. `grass_block_side` is not among them: that swatch is a
/// pre-composited dirt+strip image, and tinting it whole browns the dirt.
pub open spec fn atlas_grass_tinted(n: Seq<char>) -> bool {
    ||| n == "grass_block_top"@
    ||| n == "grass_block_side_overlay"@
    ||| n == "short_grass"@
    ||| n == "fern"@
    ||| n == "tall_grass_top"@
    ||| n == "tall_grass_bottom"@
    ||| n == "large_fern_top"@
    ||| n == "large_fern_bottom"@
    ||| n == "melon_stem"@
    ||| n == "attached_melon_stem"@
    ||| n == "pumpkin_stem"@
    ||| n == "attached_pumpkin_stem"@
}

/// Swatches of the Mineways atlas that ship grayscale and take the foliage
/// colour. `pale_oak_leaves` is not among them: this atlas ships it
/// already coloured.
pub open spec fn atlas_foliage_tinted(n: Seq<char>) -> bool {
    ||| n == "oak_leaves"@
    ||| n == "acacia_leaves"@
    ||| n == "dark_oak_leaves"@
    ||| n == "birch_leaves"@
    ||| n == "mangrove_leaves"@
    ||| n == "vine"@
    ||| n == "bush"@
    ||| n == "leaf_litter"@
}

/// The tint baked into a Mineways atlas swatch, if it needs one.
pub open spec fn spec_atlas_tint(n: Seq<char>) -> Option<[u8; 3]> {
    if atlas_grass_tinted(n) {
        Some(plains_grass())
    } else if atlas_foliage_tinted(n) {
        Some(plains_foliage())
    } else if n == "spruce_leaves"@ {
        Some(spruce_green())
    } else if n == "lily_pad"@ {
        Some(lily_pad_green())
    } else {
        None
    }
}

/// Tint for a swatch texture name that `terrainExt.png` ships pre-desaturated
/// (grayscale), meant to be coloured by the biome at render time. This is a
/// separate list from [`crate::texture::biome_tint`]: the two atlases do not
/// agree on which textures are grayscale (this atlas's `pale_oak_leaves`
/// swatch is already coloured, unlike the JAR's). Everything else ships
/// already coloured in this atlas and is left alone.
pub fn tint_for_atlas_swatch(name: &str) -> (r: Option<[u8; 3]>)
    ensures
        r == spec_atlas_tint(name@),
{
    let n = name;
    if str_eq(n, "grass_block_top") || str_eq(n, "grass_block_side_overlay") || str_eq(
        n,
        "short_grass",
    ) || str_eq(n, "fern") || str_eq(n, "tall_grass_top") || str_eq(n, "tall_grass_bottom")
        || str_eq(n, "large_fern_top") || str_eq(n, "large_fern_bottom") || str_eq(
        n,
        "melon_stem",
    ) || str_eq(n, "attached_melon_stem") || str_eq(n, "pumpkin_stem") || str_eq(
        n,
        "attached_pumpkin_stem",
    ) {
        Some([0x79u8, 0xC0u8, 0x5Au8])
    } else if str_eq(n, "oak_leaves") || str_eq(n, "acacia_leaves") || str_eq(
        n,
        "dark_oak_leaves",
    ) || str_eq(n, "birch_leaves") || str_eq(n, "mangrove_leaves") || str_eq(n, "vine")
        || str_eq(n, "bush") || str_eq(n, "leaf_litter") {
        Some([0x59u8, 0xAEu8, 0x30u8])
    } else if str_eq(n, "spruce_leaves") {
        Some([0x61u8, 0x99u8, 0x61u8])
    } else if str_eq(n, "lily_pad") {
        Some([0x20u8, 0x80u8, 0x30u8])
    } else {
        None
    }
}

proof fn lemma_not_jar_grass(name: Seq<char>)
    requires
        name == "oak_leaves"@ || name == "acacia_leaves"@ || name == "dark_oak_leaves"@
            || name == "birch_leaves"@ || name == "mangrove_leaves"@ || name == "vine"@
            || name == "bush"@ || name == "leaf_litter"@ || name == "spruce_leaves"@
            || name == "lily_pad"@,
    ensures
        !crate::texture::grass_tinted(name),
        name == "spruce_leaves"@ || name == "lily_pad"@ ==> !crate::texture::foliage_tinted(name),
{
    reveal_strlit("grass_block_top");
    assert("grass_block_top"@.len() == 15 && "grass_block_top"@[0] == 'g' && "grass_block_top"@[14] == 'p');
    reveal_strlit("grass_block_overlay");
    assert("grass_block_overlay"@.len() == 19 && "grass_block_overlay"@[0] == 'g' && "grass_block_overlay"@[18] == 'y');
    reveal_strlit("grass_block_side_overlay");
    assert("grass_block_side_overlay"@.len() == 24 && "grass_block_side_overlay"@[0] == 'g' && "grass_block_side_overlay"@[23] == 'y');
    reveal_strlit("short_grass");
    assert("short_grass"@.len() == 11 && "short_grass"@[0] == 's' && "short_grass"@[10] == 's');
    reveal_strlit("grass");
    assert("grass"@.len() == 5 && "grass"@[0] == 'g' && "grass"@[4] == 's');
    reveal_strlit("tall_grass");
    assert("tall_grass"@.len() == 10 && "tall_grass"@[0] == 't' && "tall_grass"@[9] == 's');
    reveal_strlit("tall_grass_top");
    assert("tall_grass_top"@.len() == 14 && "tall_grass_top"@[0] == 't' && "tall_grass_top"@[13] == 'p');
    reveal_strlit("tall_grass_bottom");
    assert("tall_grass_bottom"@.len() == 17 && "tall_grass_bottom"@[0] == 't' && "tall_grass_bottom"@[16] == 'm');
    reveal_strlit("fern");
    assert("fern"@.len() == 4 && "fern"@[0] == 'f' && "fern"@[3] == 'n');
    reveal_strlit("large_fern");
    assert("large_fern"@.len() == 10 && "large_fern"@[0] == 'l' && "large_fern"@[9] == 'n');
    reveal_strlit("large_fern_top");
    assert("large_fern_top"@.len() == 14 && "large_fern_top"@[0] == 'l' && "large_fern_top"@[13] == 'p');
    reveal_strlit("large_fern_bottom");
    assert("large_fern_bottom"@.len() == 17 && "large_fern_bottom"@[0] == 'l' && "large_fern_bottom"@[16] == 'm');
    reveal_strlit("melon_stem");
    assert("melon_stem"@.len() == 10 && "melon_stem"@[0] == 'm' && "melon_stem"@[9] == 'm');
    reveal_strlit("pumpkin_stem");
    assert("pumpkin_stem"@.len() == 12 && "pumpkin_stem"@[0] == 'p' && "pumpkin_stem"@[11] == 'm');
    reveal_strlit("attached_melon_stem");
    assert("attached_melon_stem"@.len() == 19 && "attached_melon_stem"@[0] == 'a' && "attached_melon_stem"@[18] == 'm');
    reveal_strlit("attached_pumpkin_stem");
    assert("attached_pumpkin_stem"@.len() == 21 && "attached_pumpkin_stem"@[0] == 'a' && "attached_pumpkin_stem"@[20] == 'm');
    reveal_strlit("oak_leaves");
    assert("oak_leaves"@.len() == 10 && "oak_leaves"@[0] == 'o' && "oak_leaves"@[9] == 's');
    reveal_strlit("acacia_leaves");
    assert("acacia_leaves"@.len() == 13 && "acacia_leaves"@[0] == 'a' && "acacia_leaves"@[12] == 's');
    reveal_strlit("dark_oak_leaves");
    assert("dark_oak_leaves"@.len() == 15 && "dark_oak_leaves"@[0] == 'd' && "dark_oak_leaves"@[14] == 's');
    reveal_strlit("mangrove_leaves");
    assert("mangrove_leaves"@.len() == 15 && "mangrove_leaves"@[0] == 'm' && "mangrove_leaves"@[14] == 's');
    reveal_strlit("birch_leaves");
    assert("birch_leaves"@.len() == 12 && "birch_leaves"@[0] == 'b' && "birch_leaves"@[11] == 's');
    reveal_strlit("pale_oak_leaves");
    assert("pale_oak_leaves"@.len() == 15 && "pale_oak_leaves"@[0] == 'p' && "pale_oak_leaves"@[14] == 's');
    reveal_strlit("vine");
    assert("vine"@.len() == 4 && "vine"@[0] == 'v' && "vine"@[3] == 'e');
    reveal_strlit("bush");
    assert("bush"@.len() == 4 && "bush"@[0] == 'b' && "bush"@[3] == 'h');
    reveal_strlit("leaf_litter");
    assert("leaf_litter"@.len() == 11 && "leaf_litter"@[0] == 'l' && "leaf_litter"@[10] == 'r');
    reveal_strlit("spruce_leaves");
    assert("spruce_leaves"@.len() == 13 && "spruce_leaves"@[0] == 's' && "spruce_leaves"@[12] == 's');
    reveal_strlit("lily_pad");
    assert("lily_pad"@.len() == 8 && "lily_pad"@[0] == 'l' && "lily_pad"@[7] == 'd');
    reveal_strlit("lilypad");
    assert("lilypad"@.len() == 7 && "lilypad"@[0] == 'l' && "lilypad"@[6] == 'd');
    reveal_strlit("water");
    assert("water"@.len() == 5 && "water"@[0] == 'w' && "water"@[4] == 'r');
    reveal_strlit("water_still");
    assert("water_still"@.len() == 11 && "water_still"@[0] == 'w' && "water_still"@[10] == 'l');
    reveal_strlit("water_flow");
    assert("water_flow"@.len() == 10 && "water_flow"@[0] == 'w' && "water_flow"@[9] == 'w');
    reveal_strlit("water_overlay");
    assert("water_overlay"@.len() == 13 && "water_overlay"@[0] == 'w' && "water_overlay"@[12] == 'y');
}

/// The texture names whose tint differs between the JAR path and the
/// Mineways atlas: `pale_oak_leaves`, which this atlas ships already
/// coloured, and the names the atlas has no swatch of (the bare
/// `grass`, `tall_grass`, `large_fern`, `grass_block_overlay`, `lilypad`
/// and the water textures).
pub open spec fn tint_tables_differ_on(n: Seq<char>) -> bool {
    ||| n == "pale_oak_leaves"@
    ||| n == "grass_block_overlay"@
    ||| n == "grass"@
    ||| n == "tall_grass"@
    ||| n == "large_fern"@
    ||| n == "lilypad"@
    ||| crate::texture::water_tinted(n)
}

/// The two tint tables agree: outside the names they are known to differ
/// on, the JAR path (`biome_tint`) and the Mineways atlas
/// (`tint_for_atlas_swatch`) give every texture name the same tint, or
/// both none.
pub proof fn law_tint_tables_agree(name: Seq<char>)
    requires
        !tint_tables_differ_on(name),
    ensures
        spec_tint_for(name) == spec_atlas_tint(name),
{
    if spec_atlas_tint(name) is Some {
        law_atlas_tint_agrees_with_biome_tint(name);
    }
}

/// Any swatch the Mineways atlas tints takes the very colour the JAR path
/// gives the texture of that name: a block looks the same whichever path
/// draws it.
pub proof fn law_atlas_tint_agrees_with_biome_tint(name: Seq<char>)
    requires
        spec_atlas_tint(name) is Some,
    ensures
        spec_tint_for(name) == spec_atlas_tint(name),
{
    if atlas_grass_tinted(name) {
        assert(crate::texture::grass_tinted(name));
    } else if name == "oak_leaves"@ {
        lemma_not_jar_grass("oak_leaves"@);
    } else if name == "acacia_leaves"@ {
        lemma_not_jar_grass("acacia_leaves"@);
    } else if name == "dark_oak_leaves"@ {
        lemma_not_jar_grass("dark_oak_leaves"@);
    } else if name == "birch_leaves"@ {
        lemma_not_jar_grass("birch_leaves"@);
    } else if name == "mangrove_leaves"@ {
        lemma_not_jar_grass("mangrove_leaves"@);
    } else if name == "vine"@ {
        lemma_not_jar_grass("vine"@);
    } else if name == "bush"@ {
        lemma_not_jar_grass("bush"@);
    } else if name == "leaf_litter"@ {
        lemma_not_jar_grass("leaf_litter"@);
    } else if name == "spruce_leaves"@ {
        lemma_not_jar_grass("spruce_leaves"@);
    } else if name == "lily_pad"@ {
        lemma_not_jar_grass("lily_pad"@);
    }
}


/// `[base + tail]` when `b` ends with `suffix`, else nothing.
pub open spec fn suffix_alias(b: Seq<char>, suffix: Seq<char>, tail: Seq<char>) -> Seq<Seq<char>> {
    match without_suffix(b, suffix) {
        Some(base) => seq![base + tail],
        None => Seq::empty(),
    }
}

/// The material of a sign of any kind: the text before its sign suffix.
pub open spec fn sign_base(b: Seq<char>) -> Option<Seq<char>> {
    if without_suffix(b, "_wall_hanging_sign"@) is Some {
        without_suffix(b, "_wall_hanging_sign"@)
    } else if without_suffix(b, "_hanging_sign"@) is Some {
        without_suffix(b, "_hanging_sign"@)
    } else if without_suffix(b, "_wall_sign"@) is Some {
        without_suffix(b, "_wall_sign"@)
    } else {
        without_suffix(b, "_sign"@)
    }
}

/// The block a mob head or bubble column is approximated by.
pub open spec fn entity_alias(b: Seq<char>) -> Seq<Seq<char>> {
    if b == "bubble_column"@ {
        seq!["water_still"@]
    } else if b == "piglin_head"@ || b == "piglin_wall_head"@ {
        seq!["nether_bricks"@]
    } else if b == "player_head"@ || b == "player_wall_head"@ {
        seq!["dirt"@]
    } else if b == "skeleton_skull"@ || b == "skeleton_wall_skull"@ || b == "wither_skeleton_skull"@
        || b == "wither_skeleton_wall_skull"@ {
        seq!["bone_block_side"@]
    } else if b == "zombie_head"@ || b == "zombie_wall_head"@ {
        seq!["moss_block"@]
    } else if b == "creeper_head"@ || b == "creeper_wall_head"@ {
        seq!["green_wool"@]
    } else if b == "dragon_head"@ || b == "dragon_wall_head"@ {
        seq!["black_wool"@]
    } else {
        Seq::empty()
    }
}

/// The suffixes of blocks cut from another block, in the order they are
/// tried.
pub open spec fn cut_suffixes() -> Seq<Seq<char>> {
    seq![
        "_slab"@,
        "_stairs"@,
        "_wall"@,
        "_fence"@,
        "_fence_gate"@,
        "_pressure_plate"@,
        "_button"@,
        "_trapdoor"@,
    ]
}

/// For each cut suffix `b` ends with, in order: the base, its planks, its
/// block and its plural.
pub open spec fn cut_aliases(b: Seq<char>, suffixes: Seq<Seq<char>>) -> Seq<Seq<char>>
    decreases suffixes.len(),
{
    if suffixes.len() == 0 {
        Seq::empty()
    } else {
        let before = cut_aliases(b, suffixes.drop_last());
        match without_suffix(b, suffixes.last()) {
            Some(base) => before + seq![base, base + "_planks"@, base + "_block"@, base + "s"@],
            None => before,
        }
    }
}

/// The further texture names `texture_aliases` gives a block, in order.
pub open spec fn spec_texture_aliases(b: Seq<char>) -> Seq<Seq<char>> {
    suffix_alias(b, "_wood"@, "_log"@) + suffix_alias(b, "_hyphae"@, "_stem"@) + match without_suffix(
        b,
        "_wood"@,
    ) {
        Some(w) => match without_prefix(w, "stripped_"@) {
            Some(base) => seq!["stripped_"@ + base + "_log"@],
            None => Seq::empty(),
        },
        None => Seq::empty(),
    } + match sign_base(b) {
        Some(base) => seq![base + "_planks"@],
        None => Seq::empty(),
    } + (if has_suffix(b, "_banner"@) {
        seq!["white_wool"@]
    } else {
        Seq::empty()
    }) + entity_alias(b) + cut_aliases(b, cut_suffixes())
}

fn concat(a: &str, b: &str) -> (r: String)
    ensures
        r@ == a@ + b@,
{
    let mut s = String::from_str(a);
    s.append(b);
    s
}

fn push_text(out: &mut Vec<String>, s: String)
    ensures
        final(out)@.map_values(|t: String| t@) == old(out)@.map_values(|t: String| t@).push(s@),
{
    out.push(s);
    assert(out@.map_values(|t: String| t@) =~= old(out)@.map_values(|t: String| t@).push(s@));
}

/// Further texture names to try for a block whose own name finds nothing.
///
/// The JAR does not ship a texture per *block*; it ships one per *image*, and
/// several block families borrow another block's image rather than owning one:
/// `*_wood` and `*_hyphae` reuse their log or stem, signs their planks,
/// banners white wool, mob heads a block of the mob's colour, and blocks cut
/// from another block (slabs, stairs, walls, fences, plates, buttons,
/// trapdoors) its texture, tried as the base, its planks, its block and its
/// plural.
#[verifier::rlimit(40)]
pub fn texture_aliases(block: &str) -> (r: Vec<String>)
    ensures
        r@.map_values(|t: String| t@) == spec_texture_aliases(block@),
{
    let mut out: Vec<String> = Vec::new();
    let ghost b = block@;
    proof {
        reveal_strlit("stripped_");
    }
    if let Some(base) = strip_suffix(block, "_wood") {
        push_text(&mut out, concat(base, "_log"));
    }
    if let Some(base) = strip_suffix(block, "_hyphae") {
        push_text(&mut out, concat(base, "_stem"));
    }
    if let Some(w) = strip_suffix(block, "_wood") {
        if let Some(base) = strip_prefix(w, "stripped_") {
            let t = concat("stripped_", base);
            push_text(&mut out, concat(t.as_str(), "_log"));
        }
    }
    let sign = match strip_suffix(block, "_wall_hanging_sign") {
        Some(x) => Some(x),
        None => match strip_suffix(block, "_hanging_sign") {
            Some(x) => Some(x),
            None => match strip_suffix(block, "_wall_sign") {
                Some(x) => Some(x),
                None => strip_suffix(block, "_sign"),
            },
        },
    };
    if let Some(base) = sign {
        push_text(&mut out, concat(base, "_planks"));
    }
    if crate::text::ends_with(block, "_banner") {
        push_text(&mut out, String::from_str("white_wool"));
    }
    let entity: Option<&str> = if str_eq(block, "bubble_column") {
        Some("water_still")
    } else if str_eq(block, "piglin_head") || str_eq(block, "piglin_wall_head") {
        Some("nether_bricks")
    } else if str_eq(block, "player_head") || str_eq(block, "player_wall_head") {
        Some("dirt")
    } else if str_eq(block, "skeleton_skull") || str_eq(block, "skeleton_wall_skull") || str_eq(
        block,
        "wither_skeleton_skull",
    ) || str_eq(block, "wither_skeleton_wall_skull") {
        Some("bone_block_side")
    } else if str_eq(block, "zombie_head") || str_eq(block, "zombie_wall_head") {
        Some("moss_block")
    } else if str_eq(block, "creeper_head") || str_eq(block, "creeper_wall_head") {
        Some("green_wool")
    } else if str_eq(block, "dragon_head") || str_eq(block, "dragon_wall_head") {
        Some("black_wool")
    } else {
        None
    };
    if let Some(e) = entity {
        push_text(&mut out, String::from_str(e));
    }
    let ghost head = out@.map_values(|t: String| t@);
    proof {
        assert(entity_alias(b) == match entity {
            Some(e) => seq![e@],
            None => Seq::<Seq<char>>::empty(),
        });
    }
    let suffixes: [&str; 8] = [
        "_slab",
        "_stairs",
        "_wall",
        "_fence",
        "_fence_gate",
        "_pressure_plate",
        "_button",
        "_trapdoor",
    ];
    let ghost sfx = cut_suffixes();
    assert(suffixes@.map_values(|x: &str| x@) =~= sfx);
    let mut k: usize = 0;
    assert(sfx.take(0) =~= Seq::<Seq<char>>::empty());
    assert(head + cut_aliases(b, sfx.take(0)) =~= head);
    while k < 8
        invariant
            k <= 8,
            b == block@,
            suffixes@.map_values(|x: &str| x@) == sfx,
            sfx.len() == 8,
            out@.map_values(|t: String| t@) == head + cut_aliases(b, sfx.take(k as int)),
        decreases 8 - k,
    {
        proof {
            assert(sfx.take(k + 1).drop_last() =~= sfx.take(k as int));
            assert(sfx.take(k + 1).last() == sfx[k as int]);
            assert(suffixes@[k as int]@ == sfx[k as int]);
        }
        if let Some(base) = strip_suffix(block, suffixes[k]) {
            let ghost before = out@.map_values(|t: String| t@);
            push_text(&mut out, String::from_str(base));
            push_text(&mut out, concat(base, "_planks"));
            push_text(&mut out, concat(base, "_block"));
            push_text(&mut out, concat(base, "s"));
            assert(out@.map_values(|t: String| t@) =~= head + cut_aliases(b, sfx.take(k + 1)));
        }
        k += 1;
    }
    assert(sfx.take(8) =~= sfx);
    proof {
        reveal_strlit("_banner");
    }
    assert(out@.map_values(|t: String| t@) =~= spec_texture_aliases(b));
    out
}

/// The texture names tried for a block missing from the Mineways atlas:
/// its own name, its `_top`, `_side` and `_still` textures, then its
/// aliases.
pub open spec fn jar_candidates(block: Seq<char>) -> Seq<Seq<char>> {
    seq![block, block + "_top"@, block + "_side"@, block + "_still"@] + spec_texture_aliases(block)
}

/// The first candidate the loader has, with its bytes.
pub open spec fn first_stored(l: JarTextureLoader, cands: Seq<Seq<char>>) -> Option<(Seq<char>, Seq<u8>)>
    decreases cands.len(),
{
    if cands.len() == 0 {
        None
    } else {
        match l.spec_get(cands[0]) {
            Some(b) => Some((cands[0], b)),
            None => first_stored(l, cands.drop_first()),
        }
    }
}

/// The part of a `w` × `h` image that holds the first frame, as
/// `(width, height)` of the rectangle at its top-left corner: an animation
/// strip (taller than wide) keeps its top square, any other image is whole.
pub open spec fn first_frame_size(w: u32, h: u32) -> (u32, u32) {
    if h > w {
        (w, w)
    } else {
        (w, h)
    }
}

/// The 16×16 RGBA tile of a JAR texture: decoded, its first frame taken,
/// resampled to 16×16 with nearest-neighbour filtering; `None` when the
/// bytes do not decode or the image is empty.
pub open spec fn png_first_frame(bytes: Seq<u8>) -> Option<Seq<u8>> {
    match png_rgba(bytes) {
        None => None,
        Some((px, w, h)) => if w == 0 || h == 0 {
            None
        } else {
            let (fw, fh) = first_frame_size(w, h);
            let frame = if h > w {
                cropped(px, w as int, 0, 0, fw as int, fh as int)
            } else {
                px
            };
            Some(nearest_resized(frame, fw, fh, 16, 16))
        },
    }
}

/// Decode a JAR PNG into a 16×16 RGBA tile, taking the first frame of an
/// animation strip.
///
/// Animated textures (water, lava, fire, ...) are stored as a vertical
/// strip of square frames, so a plain resize would squash the whole
/// animation into one tile; the top square is taken instead.
fn decode_jar_tile(png: &[u8]) -> (r: Option<[u8; 1024]>)
    ensures
        match r {
            Some(t) => png_first_frame(png@) == Some(t@),
            None => png_first_frame(png@) is None,
        },
{
    let (px, w, h) = match decode_rgba(png) {
        Some(d) => d,
        None => return None,
    };
    if w == 0 || h == 0 {
        return None;
    }
    let (frame, fw, fh) = if h > w {
        (crop_rgba(px, w, h, 0, 0, w, w), w, w)
    } else {
        (px, w, h)
    };
    proof {
        if h > w {
            assert(frame@.len() == fw as int * fh as int * 4);
        }
    }
    let out = resize_nearest(frame, fw, fh, 16, 16);
    Some(tile_array(&out))
}

/// Decode the Mineways atlas image (`terrainExt.png`) into RGBA pixels
/// with its width and height; `None` when the bytes do not decode.
pub fn decode_atlas(png: &[u8]) -> (r: Option<(Vec<u8>, u32, u32)>)
    ensures
        match r {
            Some(t) => png_rgba(png@) == Some((t.0@, t.1, t.2)) && t.0@.len() == t.1 as int * t.2 as int * 4,
            None => png_rgba(png@) is None,
        },
{
    decode_rgba(png)
}

/// The tile the JAR gives a block missing from the Mineways atlas: the
/// first candidate texture the loader has, decoded (first frame), with its
/// atlas biome tint; `None` when no candidate is stored or the stored one
/// does not decode.
pub open spec fn spec_jar_tile(l: JarTextureLoader, block: Seq<char>) -> Option<(Seq<char>, Seq<u8>)> {
    match first_stored(l, jar_candidates(block)) {
        None => None,
        Some((name, bytes)) => match png_first_frame(bytes) {
            None => None,
            Some(t) => Some(
                (
                    name,
                    match spec_atlas_tint(name) {
                        Some(c) => tinted_tile(t, c),
                        None => t,
                    },
                ),
            ),
        },
    }
}

/// Load the tile of a block missing from the Mineways atlas from the
/// client JAR: `(texture name, pixels)`.
pub fn jar_tile(loader: &JarTextureLoader, block: &str) -> (r: Option<(String, [u8; 1024])>)
    requires
        loader.well_formed(),
    ensures
        match r {
            Some((n, t)) => spec_jar_tile(*loader, block@) == Some((n@, t@)),
            None => spec_jar_tile(*loader, block@) is None,
        },
{
    let mut cands: Vec<String> = Vec::new();
    cands.push(block.to_string());
    cands.push(concat(block, "_top"));
    cands.push(concat(block, "_side"));
    cands.push(concat(block, "_still"));
    let aliases = texture_aliases(block);
    let ghost head = cands@.map_values(|t: String| t@);
    assert(head =~= seq![block@, block@ + "_top"@, block@ + "_side"@, block@ + "_still"@]);
    let mut k: usize = 0;
    while k < aliases.len()
        invariant
            k <= aliases@.len(),
            cands@.map_values(|t: String| t@) == head + aliases@.map_values(|t: String| t@).take(k as int),
        decreases aliases@.len() - k,
    {
        let ghost before = cands@.map_values(|t: String| t@);
        cands.push(aliases[k].clone());
        assert(cands@.map_values(|t: String| t@) =~= before.push(aliases@[k as int]@));
        assert(aliases@.map_values(|t: String| t@).take(k + 1) =~= aliases@.map_values(|t: String| t@).take(
            k as int,
        ).push(aliases@[k as int]@));
        k += 1;
    }
    assert(aliases@.map_values(|t: String| t@).take(aliases@.len() as int) =~= aliases@.map_values(
        |t: String| t@,
    ));
    let ghost all = cands@.map_values(|t: String| t@);
    assert(all == jar_candidates(block@));
    let mut i: usize = 0;
    assert(all.skip(0) =~= all);
    while i < cands.len()
        invariant
            i <= cands@.len(),
            all == cands@.map_values(|t: String| t@),
            all == jar_candidates(block@),
            loader.well_formed(),
            first_stored(*loader, all) == first_stored(*loader, all.skip(i as int)),
        decreases cands@.len() - i,
    {
        assert(all.skip(i as int)[0] == cands@[i as int]@);
        assert(all.skip(i as int).drop_first() =~= all.skip(i + 1));
        if let Some(bytes) = loader.get(cands[i].as_str()) {
            assert(first_stored(*loader, all) == Some((cands@[i as int]@, bytes@)));
            let mut tile = match decode_jar_tile(bytes) {
                Some(t) => t,
                None => {
                    return None;
                },
            };
            let ghost decoded = tile@;
            if let Some(tint) = tint_for_atlas_swatch(cands[i].as_str()) {
                apply_tint(&mut tile, tint);
                assert(tile@ =~= tinted_tile(decoded, tint));
            }
            return Some((cands[i].clone(), tile));
        }
        i += 1;
    }
    assert(all.skip(cands@.len() as int) =~= Seq::<Seq<char>>::empty());
    None
}

} // verus!

verus! {

/// In text with no `c` followed by `c`, the first `c` is right after it.
proof fn lemma_first_after(n: Seq<char>, c: char, rest: Seq<char>)
    requires
        !n.contains(c),
    ensures
        first_index(n + seq![c] + rest, c) == Some(n.len() as int),
        first_index(n, c) is None,
    decreases n.len(),
{
    if n.len() > 0 {
        assert(!n.drop_first().contains(c)) by {
            if n.drop_first().contains(c) {
                let j = choose|j: int| 0 <= j < n.drop_first().len() && n.drop_first()[j] == c;
                assert(n[j + 1] == c);
            }
        }
        lemma_first_after(n.drop_first(), c, rest);
        assert((n + seq![c] + rest).drop_first() =~= n.drop_first() + seq![c] + rest);
        assert(n[0] != c) by {
            if n[0] == c {
                assert(n.contains(c));
            }
        }
    }
}

/// A texture key splits back into what it was made of: for a block whose
/// name holds no `|`, splitting its texture key gives the block name and
/// its `color` property, when it has one.
pub proof fn law_texture_key_splits_back(b: crate::chunk::BlockState)
    requires
        !b.name@.contains('|'),
    ensures
        spec_split_texture_key(crate::chunk::texture_key_of(b)) == (b.name@, crate::chunk::lookup(b.props(), "color"@)),
{
    reveal_strlit("|");
    match crate::chunk::lookup(b.props(), "color"@) {
        Some(c) => {
            lemma_first_after(b.name@, '|', c);
            let key = b.name@ + "|"@ + c;
            assert(key =~= b.name@ + seq!['|'] + c);
            assert(key.subrange(0, b.name@.len() as int) =~= b.name@);
            assert(key.subrange(b.name@.len() as int + 1, key.len() as int) =~= c);
        },
        None => {
            lemma_first_after(b.name@, '|', Seq::empty());
        },
    }
}

} // verus!

verus! {

/// The flattened texture a legacy colour-keyed block takes after its colour:
/// wool and carpet `_wool`, concrete powder `_concrete_powder`, stained
/// hardened clay `_terracotta`, glazed terracotta `_glazed_terracotta`,
/// stained glass and its panes `_stained_glass`.
pub open spec fn legacy_colour_texture(block: Seq<char>, suffix: Seq<char>) -> bool {
    ||| block == "wool"@ && suffix == "_wool"@
    ||| block == "carpet"@ && suffix == "_wool"@
    ||| block == "concretepowder"@ && suffix == "_concrete_powder"@
    ||| block == "stained_hardened_clay"@ && suffix == "_terracotta"@
    ||| block == "glazedterracotta"@ && suffix == "_glazed_terracotta"@
    ||| block == "stained_glass"@ && suffix == "_stained_glass"@
    ||| block == "stained_glass_pane"@ && suffix == "_stained_glass"@
}

/// A legacy colour block (`minecraft:concretepowder` with `color=red`) is
/// drawn, on all six faces, with the swatch named after its colour and its
/// flattened texture (`red_concrete_powder`), whenever the table has one.
pub proof fn law_legacy_colour_blocks_take_their_flattened_texture(
    t: crate::swatch::SwatchTable,
    name: Seq<char>,
    colour: Seq<char>,
    suffix: Seq<char>,
    p: int,
)
    requires
        legacy_colour_texture(crate::chunk::spec_strip_namespace(name), suffix),
        crate::swatch::first_position(crate::swatch::tile_names(t), colour + suffix) == Some(p),
    ensures
        crate::swatch::spec_swatch_for_block(t, name, Some(colour)) == Some(Seq::new(6, |_i: int| p)),
{
    reveal_strlit("wool");
    assert("wool"@.len() == 4);
    reveal_strlit("carpet");
    assert("carpet"@.len() == 6);
    reveal_strlit("concretepowder");
    assert("concretepowder"@.len() == 14);
    reveal_strlit("stained_hardened_clay");
    assert("stained_hardened_clay"@.len() == 21);
    reveal_strlit("glazedterracotta");
    assert("glazedterracotta"@.len() == 16);
    reveal_strlit("stained_glass");
    assert("stained_glass"@.len() == 13);
    reveal_strlit("stained_glass_pane");
    assert("stained_glass_pane"@.len() == 18);
    assert(spec_legacy_color_suffix(crate::chunk::spec_strip_namespace(name)) == Some(suffix));
    assert(crate::swatch::spec_find_swatch(t, colour + suffix) == Some(p));
}

} // verus!
