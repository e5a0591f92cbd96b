//! The static face table: the six textures of the most common vanilla
//! blocks, by short block name.

use vstd::prelude::*;
use crate::block_model::{column_names, face_names, names_of, uniform_names, FaceNames, FaceTextures};
use crate::text::str_eq;

verus! {

/// Rows 1 to 40 of the face table.
pub open spec fn table_rows_1(s: Seq<char>) -> Option<FaceNames> {
    if s == "grass_block"@ {
        Some(column_names("grass_block_top"@, "dirt"@, "grass_block_side"@))
    } else if s == "dirt"@ {
        Some(uniform_names("dirt"@))
    } else if s == "coarse_dirt"@ {
        Some(uniform_names("coarse_dirt"@))
    } else if s == "rooted_dirt"@ {
        Some(uniform_names("rooted_dirt"@))
    } else if s == "podzol"@ {
        Some(column_names("podzol_top"@, "dirt"@, "podzol_side"@))
    } else if s == "mycelium"@ {
        Some(column_names("mycelium_top"@, "dirt"@, "mycelium_side"@))
    } else if s == "mud"@ {
        Some(uniform_names("mud"@))
    } else if s == "muddy_mangrove_roots"@ {
        Some(column_names("muddy_mangrove_roots_top"@, "muddy_mangrove_roots_top"@, "muddy_mangrove_roots_side"@))
    } else if s == "stone"@ {
        Some(uniform_names("stone"@))
    } else if s == "cobblestone"@ {
        Some(uniform_names("cobblestone"@))
    } else if s == "mossy_cobblestone"@ {
        Some(uniform_names("mossy_cobblestone"@))
    } else if s == "granite"@ {
        Some(uniform_names("granite"@))
    } else if s == "polished_granite"@ {
        Some(uniform_names("polished_granite"@))
    } else if s == "diorite"@ {
        Some(uniform_names("diorite"@))
    } else if s == "polished_diorite"@ {
        Some(uniform_names("polished_diorite"@))
    } else if s == "andesite"@ {
        Some(uniform_names("andesite"@))
    } else if s == "polished_andesite"@ {
        Some(uniform_names("polished_andesite"@))
    } else if s == "deepslate"@ {
        Some(column_names("deepslate_top"@, "deepslate_top"@, "deepslate"@))
    } else if s == "cobbled_deepslate"@ {
        Some(uniform_names("cobbled_deepslate"@))
    } else if s == "polished_deepslate"@ {
        Some(uniform_names("polished_deepslate"@))
    } else if s == "tuff"@ {
        Some(uniform_names("tuff"@))
    } else if s == "calcite"@ {
        Some(uniform_names("calcite"@))
    } else if s == "dripstone_block"@ {
        Some(uniform_names("dripstone_block"@))
    } else if s == "bedrock"@ {
        Some(uniform_names("bedrock"@))
    } else if s == "gravel"@ {
        Some(uniform_names("gravel"@))
    } else if s == "sand"@ {
        Some(uniform_names("sand"@))
    } else if s == "red_sand"@ {
        Some(uniform_names("red_sand"@))
    } else if s == "sandstone"@ {
        Some(column_names("sandstone_top"@, "sandstone_bottom"@, "sandstone"@))
    } else if s == "chiseled_sandstone"@ {
        Some(column_names("sandstone_top"@, "sandstone_bottom"@, "chiseled_sandstone"@))
    } else if s == "cut_sandstone"@ {
        Some(column_names("sandstone_top"@, "sandstone_bottom"@, "cut_sandstone"@))
    } else if s == "smooth_sandstone"@ {
        Some(uniform_names("sandstone_top"@))
    } else if s == "red_sandstone"@ {
        Some(column_names("red_sandstone_top"@, "red_sandstone_bottom"@, "red_sandstone"@))
    } else if s == "chiseled_red_sandstone"@ {
        Some(column_names("red_sandstone_top"@, "red_sandstone_bottom"@, "chiseled_red_sandstone"@))
    } else if s == "cut_red_sandstone"@ {
        Some(column_names("red_sandstone_top"@, "red_sandstone_bottom"@, "cut_red_sandstone"@))
    } else if s == "smooth_red_sandstone"@ {
        Some(uniform_names("red_sandstone_top"@))
    } else if s == "oak_log"@ {
        Some(column_names("oak_log_top"@, "oak_log_top"@, "oak_log"@))
    } else if s == "stripped_oak_log"@ {
        Some(column_names("stripped_oak_log_top"@, "stripped_oak_log_top"@, "stripped_oak_log"@))
    } else if s == "spruce_log"@ {
        Some(column_names("spruce_log_top"@, "spruce_log_top"@, "spruce_log"@))
    } else if s == "stripped_spruce_log"@ {
        Some(column_names("stripped_spruce_log_top"@, "stripped_spruce_log_top"@, "stripped_spruce_log"@))
    } else if s == "birch_log"@ {
        Some(column_names("birch_log_top"@, "birch_log_top"@, "birch_log"@))
    } else {
        None
    }
}

fn lookup_rows_1(short: &str) -> (r: Option<FaceTextures>)
    ensures
        names_of(r) == table_rows_1(short@),
{
    if str_eq(short, "grass_block") {
        return Some(FaceTextures::column("grass_block_top", "dirt", "grass_block_side"));
    }
    if str_eq(short, "dirt") {
        return Some(FaceTextures::uniform("dirt"));
    }
    if str_eq(short, "coarse_dirt") {
        return Some(FaceTextures::uniform("coarse_dirt"));
    }
    if str_eq(short, "rooted_dirt") {
        return Some(FaceTextures::uniform("rooted_dirt"));
    }
    if str_eq(short, "podzol") {
        return Some(FaceTextures::column("podzol_top", "dirt", "podzol_side"));
    }
    if str_eq(short, "mycelium") {
        return Some(FaceTextures::column("mycelium_top", "dirt", "mycelium_side"));
    }
    if str_eq(short, "mud") {
        return Some(FaceTextures::uniform("mud"));
    }
    if str_eq(short, "muddy_mangrove_roots") {
        return Some(FaceTextures::column("muddy_mangrove_roots_top", "muddy_mangrove_roots_top", "muddy_mangrove_roots_side"));
    }
    if str_eq(short, "stone") {
        return Some(FaceTextures::uniform("stone"));
    }
    if str_eq(short, "cobblestone") {
        return Some(FaceTextures::uniform("cobblestone"));
    }
    if str_eq(short, "mossy_cobblestone") {
        return Some(FaceTextures::uniform("mossy_cobblestone"));
    }
    if str_eq(short, "granite") {
        return Some(FaceTextures::uniform("granite"));
    }
    if str_eq(short, "polished_granite") {
        return Some(FaceTextures::uniform("polished_granite"));
    }
    if str_eq(short, "diorite") {
        return Some(FaceTextures::uniform("diorite"));
    }
    if str_eq(short, "polished_diorite") {
        return Some(FaceTextures::uniform("polished_diorite"));
    }
    if str_eq(short, "andesite") {
        return Some(FaceTextures::uniform("andesite"));
    }
    if str_eq(short, "polished_andesite") {
        return Some(FaceTextures::uniform("polished_andesite"));
    }
    if str_eq(short, "deepslate") {
        return Some(FaceTextures::column("deepslate_top", "deepslate_top", "deepslate"));
    }
    if str_eq(short, "cobbled_deepslate") {
        return Some(FaceTextures::uniform("cobbled_deepslate"));
    }
    if str_eq(short, "polished_deepslate") {
        return Some(FaceTextures::uniform("polished_deepslate"));
    }
    if str_eq(short, "tuff") {
        return Some(FaceTextures::uniform("tuff"));
    }
    if str_eq(short, "calcite") {
        return Some(FaceTextures::uniform("calcite"));
    }
    if str_eq(short, "dripstone_block") {
        return Some(FaceTextures::uniform("dripstone_block"));
    }
    if str_eq(short, "bedrock") {
        return Some(FaceTextures::uniform("bedrock"));
    }
    if str_eq(short, "gravel") {
        return Some(FaceTextures::uniform("gravel"));
    }
    if str_eq(short, "sand") {
        return Some(FaceTextures::uniform("sand"));
    }
    if str_eq(short, "red_sand") {
        return Some(FaceTextures::uniform("red_sand"));
    }
    if str_eq(short, "sandstone") {
        return Some(FaceTextures::column("sandstone_top", "sandstone_bottom", "sandstone"));
    }
    if str_eq(short, "chiseled_sandstone") {
        return Some(FaceTextures::column("sandstone_top", "sandstone_bottom", "chiseled_sandstone"));
    }
    if str_eq(short, "cut_sandstone") {
        return Some(FaceTextures::column("sandstone_top", "sandstone_bottom", "cut_sandstone"));
    }
    if str_eq(short, "smooth_sandstone") {
        return Some(FaceTextures::uniform("sandstone_top"));
    }
    if str_eq(short, "red_sandstone") {
        return Some(FaceTextures::column("red_sandstone_top", "red_sandstone_bottom", "red_sandstone"));
    }
    if str_eq(short, "chiseled_red_sandstone") {
        return Some(FaceTextures::column("red_sandstone_top", "red_sandstone_bottom", "chiseled_red_sandstone"));
    }
    if str_eq(short, "cut_red_sandstone") {
        return Some(FaceTextures::column("red_sandstone_top", "red_sandstone_bottom", "cut_red_sandstone"));
    }
    if str_eq(short, "smooth_red_sandstone") {
        return Some(FaceTextures::uniform("red_sandstone_top"));
    }
    if str_eq(short, "oak_log") {
        return Some(FaceTextures::column("oak_log_top", "oak_log_top", "oak_log"));
    }
    if str_eq(short, "stripped_oak_log") {
        return Some(FaceTextures::column("stripped_oak_log_top", "stripped_oak_log_top", "stripped_oak_log"));
    }
    if str_eq(short, "spruce_log") {
        return Some(FaceTextures::column("spruce_log_top", "spruce_log_top", "spruce_log"));
    }
    if str_eq(short, "stripped_spruce_log") {
        return Some(FaceTextures::column("stripped_spruce_log_top", "stripped_spruce_log_top", "stripped_spruce_log"));
    }
    if str_eq(short, "birch_log") {
        return Some(FaceTextures::column("birch_log_top", "birch_log_top", "birch_log"));
    }
    None
}

/// Rows 41 to 80 of the face table.
pub open spec fn table_rows_2(s: Seq<char>) -> Option<FaceNames> {
    if s == "stripped_birch_log"@ {
        Some(column_names("stripped_birch_log_top"@, "stripped_birch_log_top"@, "stripped_birch_log"@))
    } else if s == "jungle_log"@ {
        Some(column_names("jungle_log_top"@, "jungle_log_top"@, "jungle_log"@))
    } else if s == "stripped_jungle_log"@ {
        Some(column_names("stripped_jungle_log_top"@, "stripped_jungle_log_top"@, "stripped_jungle_log"@))
    } else if s == "acacia_log"@ {
        Some(column_names("acacia_log_top"@, "acacia_log_top"@, "acacia_log"@))
    } else if s == "stripped_acacia_log"@ {
        Some(column_names("stripped_acacia_log_top"@, "stripped_acacia_log_top"@, "stripped_acacia_log"@))
    } else if s == "dark_oak_log"@ {
        Some(column_names("dark_oak_log_top"@, "dark_oak_log_top"@, "dark_oak_log"@))
    } else if s == "stripped_dark_oak_log"@ {
        Some(column_names("stripped_dark_oak_log_top"@, "stripped_dark_oak_log_top"@, "stripped_dark_oak_log"@))
    } else if s == "mangrove_log"@ {
        Some(column_names("mangrove_log_top"@, "mangrove_log_top"@, "mangrove_log"@))
    } else if s == "stripped_mangrove_log"@ {
        Some(column_names("stripped_mangrove_log_top"@, "stripped_mangrove_log_top"@, "stripped_mangrove_log"@))
    } else if s == "cherry_log"@ {
        Some(column_names("cherry_log_top"@, "cherry_log_top"@, "cherry_log"@))
    } else if s == "stripped_cherry_log"@ {
        Some(column_names("stripped_cherry_log_top"@, "stripped_cherry_log_top"@, "stripped_cherry_log"@))
    } else if s == "oak_planks"@ {
        Some(uniform_names("oak_planks"@))
    } else if s == "spruce_planks"@ {
        Some(uniform_names("spruce_planks"@))
    } else if s == "birch_planks"@ {
        Some(uniform_names("birch_planks"@))
    } else if s == "jungle_planks"@ {
        Some(uniform_names("jungle_planks"@))
    } else if s == "acacia_planks"@ {
        Some(uniform_names("acacia_planks"@))
    } else if s == "dark_oak_planks"@ {
        Some(uniform_names("dark_oak_planks"@))
    } else if s == "mangrove_planks"@ {
        Some(uniform_names("mangrove_planks"@))
    } else if s == "cherry_planks"@ {
        Some(uniform_names("cherry_planks"@))
    } else if s == "bamboo_planks"@ {
        Some(uniform_names("bamboo_planks"@))
    } else if s == "crimson_planks"@ {
        Some(uniform_names("crimson_planks"@))
    } else if s == "warped_planks"@ {
        Some(uniform_names("warped_planks"@))
    } else if s == "oak_leaves"@ {
        Some(uniform_names("oak_leaves"@))
    } else if s == "spruce_leaves"@ {
        Some(uniform_names("spruce_leaves"@))
    } else if s == "birch_leaves"@ {
        Some(uniform_names("birch_leaves"@))
    } else if s == "jungle_leaves"@ {
        Some(uniform_names("jungle_leaves"@))
    } else if s == "acacia_leaves"@ {
        Some(uniform_names("acacia_leaves"@))
    } else if s == "dark_oak_leaves"@ {
        Some(uniform_names("dark_oak_leaves"@))
    } else if s == "mangrove_leaves"@ {
        Some(uniform_names("mangrove_leaves"@))
    } else if s == "cherry_leaves"@ {
        Some(uniform_names("cherry_leaves"@))
    } else if s == "azalea_leaves"@ {
        Some(uniform_names("azalea_leaves"@))
    } else if s == "flowering_azalea_leaves"@ {
        Some(uniform_names("flowering_azalea_leaves"@))
    } else if s == "glass"@ {
        Some(uniform_names("glass"@))
    } else if s == "tinted_glass"@ {
        Some(uniform_names("tinted_glass"@))
    } else if s == "bricks"@ {
        Some(uniform_names("bricks"@))
    } else if s == "stone_bricks"@ {
        Some(uniform_names("stone_bricks"@))
    } else if s == "cracked_stone_bricks"@ {
        Some(uniform_names("cracked_stone_bricks"@))
    } else if s == "mossy_stone_bricks"@ {
        Some(uniform_names("mossy_stone_bricks"@))
    } else if s == "chiseled_stone_bricks"@ {
        Some(uniform_names("chiseled_stone_bricks"@))
    } else if s == "nether_bricks"@ {
        Some(uniform_names("nether_bricks"@))
    } else {
        None
    }
}

fn lookup_rows_2(short: &str) -> (r: Option<FaceTextures>)
    ensures
        names_of(r) == table_rows_2(short@),
{
    if str_eq(short, "stripped_birch_log") {
        return Some(FaceTextures::column("stripped_birch_log_top", "stripped_birch_log_top", "stripped_birch_log"));
    }
    if str_eq(short, "jungle_log") {
        return Some(FaceTextures::column("jungle_log_top", "jungle_log_top", "jungle_log"));
    }
    if str_eq(short, "stripped_jungle_log") {
        return Some(FaceTextures::column("stripped_jungle_log_top", "stripped_jungle_log_top", "stripped_jungle_log"));
    }
    if str_eq(short, "acacia_log") {
        return Some(FaceTextures::column("acacia_log_top", "acacia_log_top", "acacia_log"));
    }
    if str_eq(short, "stripped_acacia_log") {
        return Some(FaceTextures::column("stripped_acacia_log_top", "stripped_acacia_log_top", "stripped_acacia_log"));
    }
    if str_eq(short, "dark_oak_log") {
        return Some(FaceTextures::column("dark_oak_log_top", "dark_oak_log_top", "dark_oak_log"));
    }
    if str_eq(short, "stripped_dark_oak_log") {
        return Some(FaceTextures::column("stripped_dark_oak_log_top", "stripped_dark_oak_log_top", "stripped_dark_oak_log"));
    }
    if str_eq(short, "mangrove_log") {
        return Some(FaceTextures::column("mangrove_log_top", "mangrove_log_top", "mangrove_log"));
    }
    if str_eq(short, "stripped_mangrove_log") {
        return Some(FaceTextures::column("stripped_mangrove_log_top", "stripped_mangrove_log_top", "stripped_mangrove_log"));
    }
    if str_eq(short, "cherry_log") {
        return Some(FaceTextures::column("cherry_log_top", "cherry_log_top", "cherry_log"));
    }
    if str_eq(short, "stripped_cherry_log") {
        return Some(FaceTextures::column("stripped_cherry_log_top", "stripped_cherry_log_top", "stripped_cherry_log"));
    }
    if str_eq(short, "oak_planks") {
        return Some(FaceTextures::uniform("oak_planks"));
    }
    if str_eq(short, "spruce_planks") {
        return Some(FaceTextures::uniform("spruce_planks"));
    }
    if str_eq(short, "birch_planks") {
        return Some(FaceTextures::uniform("birch_planks"));
    }
    if str_eq(short, "jungle_planks") {
        return Some(FaceTextures::uniform("jungle_planks"));
    }
    if str_eq(short, "acacia_planks") {
        return Some(FaceTextures::uniform("acacia_planks"));
    }
    if str_eq(short, "dark_oak_planks") {
        return Some(FaceTextures::uniform("dark_oak_planks"));
    }
    if str_eq(short, "mangrove_planks") {
        return Some(FaceTextures::uniform("mangrove_planks"));
    }
    if str_eq(short, "cherry_planks") {
        return Some(FaceTextures::uniform("cherry_planks"));
    }
    if str_eq(short, "bamboo_planks") {
        return Some(FaceTextures::uniform("bamboo_planks"));
    }
    if str_eq(short, "crimson_planks") {
        return Some(FaceTextures::uniform("crimson_planks"));
    }
    if str_eq(short, "warped_planks") {
        return Some(FaceTextures::uniform("warped_planks"));
    }
    if str_eq(short, "oak_leaves") {
        return Some(FaceTextures::uniform("oak_leaves"));
    }
    if str_eq(short, "spruce_leaves") {
        return Some(FaceTextures::uniform("spruce_leaves"));
    }
    if str_eq(short, "birch_leaves") {
        return Some(FaceTextures::uniform("birch_leaves"));
    }
    if str_eq(short, "jungle_leaves") {
        return Some(FaceTextures::uniform("jungle_leaves"));
    }
    if str_eq(short, "acacia_leaves") {
        return Some(FaceTextures::uniform("acacia_leaves"));
    }
    if str_eq(short, "dark_oak_leaves") {
        return Some(FaceTextures::uniform("dark_oak_leaves"));
    }
    if str_eq(short, "mangrove_leaves") {
        return Some(FaceTextures::uniform("mangrove_leaves"));
    }
    if str_eq(short, "cherry_leaves") {
        return Some(FaceTextures::uniform("cherry_leaves"));
    }
    if str_eq(short, "azalea_leaves") {
        return Some(FaceTextures::uniform("azalea_leaves"));
    }
    if str_eq(short, "flowering_azalea_leaves") {
        return Some(FaceTextures::uniform("flowering_azalea_leaves"));
    }
    if str_eq(short, "glass") {
        return Some(FaceTextures::uniform("glass"));
    }
    if str_eq(short, "tinted_glass") {
        return Some(FaceTextures::uniform("tinted_glass"));
    }
    if str_eq(short, "bricks") {
        return Some(FaceTextures::uniform("bricks"));
    }
    if str_eq(short, "stone_bricks") {
        return Some(FaceTextures::uniform("stone_bricks"));
    }
    if str_eq(short, "cracked_stone_bricks") {
        return Some(FaceTextures::uniform("cracked_stone_bricks"));
    }
    if str_eq(short, "mossy_stone_bricks") {
        return Some(FaceTextures::uniform("mossy_stone_bricks"));
    }
    if str_eq(short, "chiseled_stone_bricks") {
        return Some(FaceTextures::uniform("chiseled_stone_bricks"));
    }
    if str_eq(short, "nether_bricks") {
        return Some(FaceTextures::uniform("nether_bricks"));
    }
    None
}

/// Rows 81 to 120 of the face table.
pub open spec fn table_rows_3(s: Seq<char>) -> Option<FaceNames> {
    if s == "red_nether_bricks"@ {
        Some(uniform_names("red_nether_bricks"@))
    } else if s == "chiseled_nether_bricks"@ {
        Some(uniform_names("chiseled_nether_bricks"@))
    } else if s == "cracked_nether_bricks"@ {
        Some(uniform_names("cracked_nether_bricks"@))
    } else if s == "end_stone_bricks"@ {
        Some(uniform_names("end_stone_bricks"@))
    } else if s == "mud_bricks"@ {
        Some(uniform_names("mud_bricks"@))
    } else if s == "deepslate_bricks"@ {
        Some(uniform_names("deepslate_bricks"@))
    } else if s == "cracked_deepslate_bricks"@ {
        Some(uniform_names("cracked_deepslate_bricks"@))
    } else if s == "deepslate_tiles"@ {
        Some(uniform_names("deepslate_tiles"@))
    } else if s == "cracked_deepslate_tiles"@ {
        Some(uniform_names("cracked_deepslate_tiles"@))
    } else if s == "chiseled_deepslate"@ {
        Some(uniform_names("chiseled_deepslate"@))
    } else if s == "coal_ore"@ {
        Some(uniform_names("coal_ore"@))
    } else if s == "iron_ore"@ {
        Some(uniform_names("iron_ore"@))
    } else if s == "gold_ore"@ {
        Some(uniform_names("gold_ore"@))
    } else if s == "diamond_ore"@ {
        Some(uniform_names("diamond_ore"@))
    } else if s == "redstone_ore"@ {
        Some(uniform_names("redstone_ore"@))
    } else if s == "lapis_ore"@ {
        Some(uniform_names("lapis_ore"@))
    } else if s == "emerald_ore"@ {
        Some(uniform_names("emerald_ore"@))
    } else if s == "copper_ore"@ {
        Some(uniform_names("copper_ore"@))
    } else if s == "nether_gold_ore"@ {
        Some(uniform_names("nether_gold_ore"@))
    } else if s == "nether_quartz_ore"@ {
        Some(uniform_names("nether_quartz_ore"@))
    } else if s == "deepslate_coal_ore"@ {
        Some(uniform_names("deepslate_coal_ore"@))
    } else if s == "deepslate_iron_ore"@ {
        Some(uniform_names("deepslate_iron_ore"@))
    } else if s == "deepslate_gold_ore"@ {
        Some(uniform_names("deepslate_gold_ore"@))
    } else if s == "deepslate_diamond_ore"@ {
        Some(uniform_names("deepslate_diamond_ore"@))
    } else if s == "deepslate_redstone_ore"@ {
        Some(uniform_names("deepslate_redstone_ore"@))
    } else if s == "deepslate_lapis_ore"@ {
        Some(uniform_names("deepslate_lapis_ore"@))
    } else if s == "deepslate_emerald_ore"@ {
        Some(uniform_names("deepslate_emerald_ore"@))
    } else if s == "deepslate_copper_ore"@ {
        Some(uniform_names("deepslate_copper_ore"@))
    } else if s == "iron_block"@ {
        Some(uniform_names("iron_block"@))
    } else if s == "gold_block"@ {
        Some(uniform_names("gold_block"@))
    } else if s == "diamond_block"@ {
        Some(uniform_names("diamond_block"@))
    } else if s == "emerald_block"@ {
        Some(uniform_names("emerald_block"@))
    } else if s == "lapis_block"@ {
        Some(uniform_names("lapis_block"@))
    } else if s == "redstone_block"@ {
        Some(uniform_names("redstone_block"@))
    } else if s == "copper_block"@ {
        Some(uniform_names("copper_block"@))
    } else if s == "exposed_copper"@ {
        Some(uniform_names("exposed_copper"@))
    } else if s == "weathered_copper"@ {
        Some(uniform_names("weathered_copper"@))
    } else if s == "oxidized_copper"@ {
        Some(uniform_names("oxidized_copper"@))
    } else if s == "netherite_block"@ {
        Some(uniform_names("netherite_block"@))
    } else if s == "netherrack"@ {
        Some(uniform_names("netherrack"@))
    } else {
        None
    }
}

fn lookup_rows_3(short: &str) -> (r: Option<FaceTextures>)
    ensures
        names_of(r) == table_rows_3(short@),
{
    if str_eq(short, "red_nether_bricks") {
        return Some(FaceTextures::uniform("red_nether_bricks"));
    }
    if str_eq(short, "chiseled_nether_bricks") {
        return Some(FaceTextures::uniform("chiseled_nether_bricks"));
    }
    if str_eq(short, "cracked_nether_bricks") {
        return Some(FaceTextures::uniform("cracked_nether_bricks"));
    }
    if str_eq(short, "end_stone_bricks") {
        return Some(FaceTextures::uniform("end_stone_bricks"));
    }
    if str_eq(short, "mud_bricks") {
        return Some(FaceTextures::uniform("mud_bricks"));
    }
    if str_eq(short, "deepslate_bricks") {
        return Some(FaceTextures::uniform("deepslate_bricks"));
    }
    if str_eq(short, "cracked_deepslate_bricks") {
        return Some(FaceTextures::uniform("cracked_deepslate_bricks"));
    }
    if str_eq(short, "deepslate_tiles") {
        return Some(FaceTextures::uniform("deepslate_tiles"));
    }
    if str_eq(short, "cracked_deepslate_tiles") {
        return Some(FaceTextures::uniform("cracked_deepslate_tiles"));
    }
    if str_eq(short, "chiseled_deepslate") {
        return Some(FaceTextures::uniform("chiseled_deepslate"));
    }
    if str_eq(short, "coal_ore") {
        return Some(FaceTextures::uniform("coal_ore"));
    }
    if str_eq(short, "iron_ore") {
        return Some(FaceTextures::uniform("iron_ore"));
    }
    if str_eq(short, "gold_ore") {
        return Some(FaceTextures::uniform("gold_ore"));
    }
    if str_eq(short, "diamond_ore") {
        return Some(FaceTextures::uniform("diamond_ore"));
    }
    if str_eq(short, "redstone_ore") {
        return Some(FaceTextures::uniform("redstone_ore"));
    }
    if str_eq(short, "lapis_ore") {
        return Some(FaceTextures::uniform("lapis_ore"));
    }
    if str_eq(short, "emerald_ore") {
        return Some(FaceTextures::uniform("emerald_ore"));
    }
    if str_eq(short, "copper_ore") {
        return Some(FaceTextures::uniform("copper_ore"));
    }
    if str_eq(short, "nether_gold_ore") {
        return Some(FaceTextures::uniform("nether_gold_ore"));
    }
    if str_eq(short, "nether_quartz_ore") {
        return Some(FaceTextures::uniform("nether_quartz_ore"));
    }
    if str_eq(short, "deepslate_coal_ore") {
        return Some(FaceTextures::uniform("deepslate_coal_ore"));
    }
    if str_eq(short, "deepslate_iron_ore") {
        return Some(FaceTextures::uniform("deepslate_iron_ore"));
    }
    if str_eq(short, "deepslate_gold_ore") {
        return Some(FaceTextures::uniform("deepslate_gold_ore"));
    }
    if str_eq(short, "deepslate_diamond_ore") {
        return Some(FaceTextures::uniform("deepslate_diamond_ore"));
    }
    if str_eq(short, "deepslate_redstone_ore") {
        return Some(FaceTextures::uniform("deepslate_redstone_ore"));
    }
    if str_eq(short, "deepslate_lapis_ore") {
        return Some(FaceTextures::uniform("deepslate_lapis_ore"));
    }
    if str_eq(short, "deepslate_emerald_ore") {
        return Some(FaceTextures::uniform("deepslate_emerald_ore"));
    }
    if str_eq(short, "deepslate_copper_ore") {
        return Some(FaceTextures::uniform("deepslate_copper_ore"));
    }
    if str_eq(short, "iron_block") {
        return Some(FaceTextures::uniform("iron_block"));
    }
    if str_eq(short, "gold_block") {
        return Some(FaceTextures::uniform("gold_block"));
    }
    if str_eq(short, "diamond_block") {
        return Some(FaceTextures::uniform("diamond_block"));
    }
    if str_eq(short, "emerald_block") {
        return Some(FaceTextures::uniform("emerald_block"));
    }
    if str_eq(short, "lapis_block") {
        return Some(FaceTextures::uniform("lapis_block"));
    }
    if str_eq(short, "redstone_block") {
        return Some(FaceTextures::uniform("redstone_block"));
    }
    if str_eq(short, "copper_block") {
        return Some(FaceTextures::uniform("copper_block"));
    }
    if str_eq(short, "exposed_copper") {
        return Some(FaceTextures::uniform("exposed_copper"));
    }
    if str_eq(short, "weathered_copper") {
        return Some(FaceTextures::uniform("weathered_copper"));
    }
    if str_eq(short, "oxidized_copper") {
        return Some(FaceTextures::uniform("oxidized_copper"));
    }
    if str_eq(short, "netherite_block") {
        return Some(FaceTextures::uniform("netherite_block"));
    }
    if str_eq(short, "netherrack") {
        return Some(FaceTextures::uniform("netherrack"));
    }
    None
}

/// Rows 121 to 160 of the face table.
pub open spec fn table_rows_4(s: Seq<char>) -> Option<FaceNames> {
    if s == "soul_sand"@ {
        Some(uniform_names("soul_sand"@))
    } else if s == "soul_soil"@ {
        Some(uniform_names("soul_soil"@))
    } else if s == "basalt"@ {
        Some(column_names("basalt_top"@, "basalt_top"@, "basalt_side"@))
    } else if s == "polished_basalt"@ {
        Some(column_names("polished_basalt_top"@, "polished_basalt_top"@, "polished_basalt_side"@))
    } else if s == "blackstone"@ {
        Some(column_names("blackstone_top"@, "blackstone_top"@, "blackstone"@))
    } else if s == "polished_blackstone"@ {
        Some(uniform_names("polished_blackstone"@))
    } else if s == "obsidian"@ {
        Some(uniform_names("obsidian"@))
    } else if s == "crying_obsidian"@ {
        Some(uniform_names("crying_obsidian"@))
    } else if s == "glowstone"@ {
        Some(uniform_names("glowstone"@))
    } else if s == "shroomlight"@ {
        Some(uniform_names("shroomlight"@))
    } else if s == "magma_block"@ {
        Some(uniform_names("magma"@))
    } else if s == "nether_wart_block"@ {
        Some(uniform_names("nether_wart_block"@))
    } else if s == "warped_wart_block"@ {
        Some(uniform_names("warped_wart_block"@))
    } else if s == "end_stone"@ {
        Some(uniform_names("end_stone"@))
    } else if s == "water"@ {
        Some(uniform_names("water_still"@))
    } else if s == "lava"@ {
        Some(uniform_names("lava_still"@))
    } else if s == "ice"@ {
        Some(uniform_names("ice"@))
    } else if s == "packed_ice"@ {
        Some(uniform_names("packed_ice"@))
    } else if s == "blue_ice"@ {
        Some(uniform_names("blue_ice"@))
    } else if s == "snow_block"@ {
        Some(uniform_names("snow"@))
    } else if s == "clay"@ {
        Some(uniform_names("clay"@))
    } else if s == "terracotta"@ {
        Some(uniform_names("terracotta"@))
    } else if s == "white_terracotta"@ {
        Some(uniform_names("white_terracotta"@))
    } else if s == "orange_terracotta"@ {
        Some(uniform_names("orange_terracotta"@))
    } else if s == "magenta_terracotta"@ {
        Some(uniform_names("magenta_terracotta"@))
    } else if s == "light_blue_terracotta"@ {
        Some(uniform_names("light_blue_terracotta"@))
    } else if s == "yellow_terracotta"@ {
        Some(uniform_names("yellow_terracotta"@))
    } else if s == "lime_terracotta"@ {
        Some(uniform_names("lime_terracotta"@))
    } else if s == "pink_terracotta"@ {
        Some(uniform_names("pink_terracotta"@))
    } else if s == "gray_terracotta"@ {
        Some(uniform_names("gray_terracotta"@))
    } else if s == "light_gray_terracotta"@ {
        Some(uniform_names("light_gray_terracotta"@))
    } else if s == "cyan_terracotta"@ {
        Some(uniform_names("cyan_terracotta"@))
    } else if s == "purple_terracotta"@ {
        Some(uniform_names("purple_terracotta"@))
    } else if s == "blue_terracotta"@ {
        Some(uniform_names("blue_terracotta"@))
    } else if s == "brown_terracotta"@ {
        Some(uniform_names("brown_terracotta"@))
    } else if s == "green_terracotta"@ {
        Some(uniform_names("green_terracotta"@))
    } else if s == "red_terracotta"@ {
        Some(uniform_names("red_terracotta"@))
    } else if s == "black_terracotta"@ {
        Some(uniform_names("black_terracotta"@))
    } else if s == "white_concrete"@ {
        Some(uniform_names("white_concrete"@))
    } else if s == "orange_concrete"@ {
        Some(uniform_names("orange_concrete"@))
    } else {
        None
    }
}

fn lookup_rows_4(short: &str) -> (r: Option<FaceTextures>)
    ensures
        names_of(r) == table_rows_4(short@),
{
    if str_eq(short, "soul_sand") {
        return Some(FaceTextures::uniform("soul_sand"));
    }
    if str_eq(short, "soul_soil") {
        return Some(FaceTextures::uniform("soul_soil"));
    }
    if str_eq(short, "basalt") {
        return Some(FaceTextures::column("basalt_top", "basalt_top", "basalt_side"));
    }
    if str_eq(short, "polished_basalt") {
        return Some(FaceTextures::column("polished_basalt_top", "polished_basalt_top", "polished_basalt_side"));
    }
    if str_eq(short, "blackstone") {
        return Some(FaceTextures::column("blackstone_top", "blackstone_top", "blackstone"));
    }
    if str_eq(short, "polished_blackstone") {
        return Some(FaceTextures::uniform("polished_blackstone"));
    }
    if str_eq(short, "obsidian") {
        return Some(FaceTextures::uniform("obsidian"));
    }
    if str_eq(short, "crying_obsidian") {
        return Some(FaceTextures::uniform("crying_obsidian"));
    }
    if str_eq(short, "glowstone") {
        return Some(FaceTextures::uniform("glowstone"));
    }
    if str_eq(short, "shroomlight") {
        return Some(FaceTextures::uniform("shroomlight"));
    }
    if str_eq(short, "magma_block") {
        return Some(FaceTextures::uniform("magma"));
    }
    if str_eq(short, "nether_wart_block") {
        return Some(FaceTextures::uniform("nether_wart_block"));
    }
    if str_eq(short, "warped_wart_block") {
        return Some(FaceTextures::uniform("warped_wart_block"));
    }
    if str_eq(short, "end_stone") {
        return Some(FaceTextures::uniform("end_stone"));
    }
    if str_eq(short, "water") {
        return Some(FaceTextures::uniform("water_still"));
    }
    if str_eq(short, "lava") {
        return Some(FaceTextures::uniform("lava_still"));
    }
    if str_eq(short, "ice") {
        return Some(FaceTextures::uniform("ice"));
    }
    if str_eq(short, "packed_ice") {
        return Some(FaceTextures::uniform("packed_ice"));
    }
    if str_eq(short, "blue_ice") {
        return Some(FaceTextures::uniform("blue_ice"));
    }
    if str_eq(short, "snow_block") {
        return Some(FaceTextures::uniform("snow"));
    }
    if str_eq(short, "clay") {
        return Some(FaceTextures::uniform("clay"));
    }
    if str_eq(short, "terracotta") {
        return Some(FaceTextures::uniform("terracotta"));
    }
    if str_eq(short, "white_terracotta") {
        return Some(FaceTextures::uniform("white_terracotta"));
    }
    if str_eq(short, "orange_terracotta") {
        return Some(FaceTextures::uniform("orange_terracotta"));
    }
    if str_eq(short, "magenta_terracotta") {
        return Some(FaceTextures::uniform("magenta_terracotta"));
    }
    if str_eq(short, "light_blue_terracotta") {
        return Some(FaceTextures::uniform("light_blue_terracotta"));
    }
    if str_eq(short, "yellow_terracotta") {
        return Some(FaceTextures::uniform("yellow_terracotta"));
    }
    if str_eq(short, "lime_terracotta") {
        return Some(FaceTextures::uniform("lime_terracotta"));
    }
    if str_eq(short, "pink_terracotta") {
        return Some(FaceTextures::uniform("pink_terracotta"));
    }
    if str_eq(short, "gray_terracotta") {
        return Some(FaceTextures::uniform("gray_terracotta"));
    }
    if str_eq(short, "light_gray_terracotta") {
        return Some(FaceTextures::uniform("light_gray_terracotta"));
    }
    if str_eq(short, "cyan_terracotta") {
        return Some(FaceTextures::uniform("cyan_terracotta"));
    }
    if str_eq(short, "purple_terracotta") {
        return Some(FaceTextures::uniform("purple_terracotta"));
    }
    if str_eq(short, "blue_terracotta") {
        return Some(FaceTextures::uniform("blue_terracotta"));
    }
    if str_eq(short, "brown_terracotta") {
        return Some(FaceTextures::uniform("brown_terracotta"));
    }
    if str_eq(short, "green_terracotta") {
        return Some(FaceTextures::uniform("green_terracotta"));
    }
    if str_eq(short, "red_terracotta") {
        return Some(FaceTextures::uniform("red_terracotta"));
    }
    if str_eq(short, "black_terracotta") {
        return Some(FaceTextures::uniform("black_terracotta"));
    }
    if str_eq(short, "white_concrete") {
        return Some(FaceTextures::uniform("white_concrete"));
    }
    if str_eq(short, "orange_concrete") {
        return Some(FaceTextures::uniform("orange_concrete"));
    }
    None
}

/// Rows 161 to 200 of the face table.
pub open spec fn table_rows_5(s: Seq<char>) -> Option<FaceNames> {
    if s == "magenta_concrete"@ {
        Some(uniform_names("magenta_concrete"@))
    } else if s == "light_blue_concrete"@ {
        Some(uniform_names("light_blue_concrete"@))
    } else if s == "yellow_concrete"@ {
        Some(uniform_names("yellow_concrete"@))
    } else if s == "lime_concrete"@ {
        Some(uniform_names("lime_concrete"@))
    } else if s == "pink_concrete"@ {
        Some(uniform_names("pink_concrete"@))
    } else if s == "gray_concrete"@ {
        Some(uniform_names("gray_concrete"@))
    } else if s == "light_gray_concrete"@ {
        Some(uniform_names("light_gray_concrete"@))
    } else if s == "cyan_concrete"@ {
        Some(uniform_names("cyan_concrete"@))
    } else if s == "purple_concrete"@ {
        Some(uniform_names("purple_concrete"@))
    } else if s == "blue_concrete"@ {
        Some(uniform_names("blue_concrete"@))
    } else if s == "brown_concrete"@ {
        Some(uniform_names("brown_concrete"@))
    } else if s == "green_concrete"@ {
        Some(uniform_names("green_concrete"@))
    } else if s == "red_concrete"@ {
        Some(uniform_names("red_concrete"@))
    } else if s == "black_concrete"@ {
        Some(uniform_names("black_concrete"@))
    } else if s == "white_wool"@ {
        Some(uniform_names("white_wool"@))
    } else if s == "orange_wool"@ {
        Some(uniform_names("orange_wool"@))
    } else if s == "magenta_wool"@ {
        Some(uniform_names("magenta_wool"@))
    } else if s == "light_blue_wool"@ {
        Some(uniform_names("light_blue_wool"@))
    } else if s == "yellow_wool"@ {
        Some(uniform_names("yellow_wool"@))
    } else if s == "lime_wool"@ {
        Some(uniform_names("lime_wool"@))
    } else if s == "pink_wool"@ {
        Some(uniform_names("pink_wool"@))
    } else if s == "gray_wool"@ {
        Some(uniform_names("gray_wool"@))
    } else if s == "light_gray_wool"@ {
        Some(uniform_names("light_gray_wool"@))
    } else if s == "cyan_wool"@ {
        Some(uniform_names("cyan_wool"@))
    } else if s == "purple_wool"@ {
        Some(uniform_names("purple_wool"@))
    } else if s == "blue_wool"@ {
        Some(uniform_names("blue_wool"@))
    } else if s == "brown_wool"@ {
        Some(uniform_names("brown_wool"@))
    } else if s == "green_wool"@ {
        Some(uniform_names("green_wool"@))
    } else if s == "red_wool"@ {
        Some(uniform_names("red_wool"@))
    } else if s == "black_wool"@ {
        Some(uniform_names("black_wool"@))
    } else if s == "crafting_table"@ {
        Some(face_names("crafting_table_top"@, "oak_planks"@, "crafting_table_front"@, "crafting_table_side"@, "crafting_table_side"@, "crafting_table_front"@))
    } else if s == "furnace"@ {
        Some(face_names("furnace_top"@, "furnace_top"@, "furnace_front_off"@, "furnace_side"@, "furnace_side"@, "furnace_side"@))
    } else if s == "blast_furnace"@ {
        Some(face_names("blast_furnace_top"@, "blast_furnace_top"@, "blast_furnace_front_off"@, "blast_furnace_side"@, "blast_furnace_side"@, "blast_furnace_side"@))
    } else if s == "smoker"@ {
        Some(face_names("smoker_top"@, "smoker_bottom"@, "smoker_front_off"@, "smoker_side"@, "smoker_side"@, "smoker_side"@))
    } else if s == "tnt"@ {
        Some(column_names("tnt_top"@, "tnt_bottom"@, "tnt_side"@))
    } else if s == "bookshelf"@ {
        Some(column_names("oak_planks"@, "oak_planks"@, "bookshelf"@))
    } else if s == "chiseled_bookshelf"@ {
        Some(column_names("chiseled_bookshelf_top"@, "chiseled_bookshelf_top"@, "chiseled_bookshelf"@))
    } else if s == "pumpkin"@ {
        Some(column_names("pumpkin_top"@, "pumpkin_top"@, "pumpkin_side"@))
    } else if s == "carved_pumpkin"@ {
        Some(column_names("pumpkin_top"@, "pumpkin_top"@, "carved_pumpkin"@))
    } else if s == "jack_o_lantern"@ {
        Some(face_names("pumpkin_top"@, "pumpkin_top"@, "jack_o_lantern"@, "pumpkin_side"@, "pumpkin_side"@, "pumpkin_side"@))
    } else {
        None
    }
}

fn lookup_rows_5(short: &str) -> (r: Option<FaceTextures>)
    ensures
        names_of(r) == table_rows_5(short@),
{
    if str_eq(short, "magenta_concrete") {
        return Some(FaceTextures::uniform("magenta_concrete"));
    }
    if str_eq(short, "light_blue_concrete") {
        return Some(FaceTextures::uniform("light_blue_concrete"));
    }
    if str_eq(short, "yellow_concrete") {
        return Some(FaceTextures::uniform("yellow_concrete"));
    }
    if str_eq(short, "lime_concrete") {
        return Some(FaceTextures::uniform("lime_concrete"));
    }
    if str_eq(short, "pink_concrete") {
        return Some(FaceTextures::uniform("pink_concrete"));
    }
    if str_eq(short, "gray_concrete") {
        return Some(FaceTextures::uniform("gray_concrete"));
    }
    if str_eq(short, "light_gray_concrete") {
        return Some(FaceTextures::uniform("light_gray_concrete"));
    }
    if str_eq(short, "cyan_concrete") {
        return Some(FaceTextures::uniform("cyan_concrete"));
    }
    if str_eq(short, "purple_concrete") {
        return Some(FaceTextures::uniform("purple_concrete"));
    }
    if str_eq(short, "blue_concrete") {
        return Some(FaceTextures::uniform("blue_concrete"));
    }
    if str_eq(short, "brown_concrete") {
        return Some(FaceTextures::uniform("brown_concrete"));
    }
    if str_eq(short, "green_concrete") {
        return Some(FaceTextures::uniform("green_concrete"));
    }
    if str_eq(short, "red_concrete") {
        return Some(FaceTextures::uniform("red_concrete"));
    }
    if str_eq(short, "black_concrete") {
        return Some(FaceTextures::uniform("black_concrete"));
    }
    if str_eq(short, "white_wool") {
        return Some(FaceTextures::uniform("white_wool"));
    }
    if str_eq(short, "orange_wool") {
        return Some(FaceTextures::uniform("orange_wool"));
    }
    if str_eq(short, "magenta_wool") {
        return Some(FaceTextures::uniform("magenta_wool"));
    }
    if str_eq(short, "light_blue_wool") {
        return Some(FaceTextures::uniform("light_blue_wool"));
    }
    if str_eq(short, "yellow_wool") {
        return Some(FaceTextures::uniform("yellow_wool"));
    }
    if str_eq(short, "lime_wool") {
        return Some(FaceTextures::uniform("lime_wool"));
    }
    if str_eq(short, "pink_wool") {
        return Some(FaceTextures::uniform("pink_wool"));
    }
    if str_eq(short, "gray_wool") {
        return Some(FaceTextures::uniform("gray_wool"));
    }
    if str_eq(short, "light_gray_wool") {
        return Some(FaceTextures::uniform("light_gray_wool"));
    }
    if str_eq(short, "cyan_wool") {
        return Some(FaceTextures::uniform("cyan_wool"));
    }
    if str_eq(short, "purple_wool") {
        return Some(FaceTextures::uniform("purple_wool"));
    }
    if str_eq(short, "blue_wool") {
        return Some(FaceTextures::uniform("blue_wool"));
    }
    if str_eq(short, "brown_wool") {
        return Some(FaceTextures::uniform("brown_wool"));
    }
    if str_eq(short, "green_wool") {
        return Some(FaceTextures::uniform("green_wool"));
    }
    if str_eq(short, "red_wool") {
        return Some(FaceTextures::uniform("red_wool"));
    }
    if str_eq(short, "black_wool") {
        return Some(FaceTextures::uniform("black_wool"));
    }
    if str_eq(short, "crafting_table") {
        return Some(FaceTextures::six("crafting_table_top", "oak_planks", "crafting_table_front", "crafting_table_side", "crafting_table_side", "crafting_table_front"));
    }
    if str_eq(short, "furnace") {
        return Some(FaceTextures::six("furnace_top", "furnace_top", "furnace_front_off", "furnace_side", "furnace_side", "furnace_side"));
    }
    if str_eq(short, "blast_furnace") {
        return Some(FaceTextures::six("blast_furnace_top", "blast_furnace_top", "blast_furnace_front_off", "blast_furnace_side", "blast_furnace_side", "blast_furnace_side"));
    }
    if str_eq(short, "smoker") {
        return Some(FaceTextures::six("smoker_top", "smoker_bottom", "smoker_front_off", "smoker_side", "smoker_side", "smoker_side"));
    }
    if str_eq(short, "tnt") {
        return Some(FaceTextures::column("tnt_top", "tnt_bottom", "tnt_side"));
    }
    if str_eq(short, "bookshelf") {
        return Some(FaceTextures::column("oak_planks", "oak_planks", "bookshelf"));
    }
    if str_eq(short, "chiseled_bookshelf") {
        return Some(FaceTextures::column("chiseled_bookshelf_top", "chiseled_bookshelf_top", "chiseled_bookshelf"));
    }
    if str_eq(short, "pumpkin") {
        return Some(FaceTextures::column("pumpkin_top", "pumpkin_top", "pumpkin_side"));
    }
    if str_eq(short, "carved_pumpkin") {
        return Some(FaceTextures::column("pumpkin_top", "pumpkin_top", "carved_pumpkin"));
    }
    if str_eq(short, "jack_o_lantern") {
        return Some(FaceTextures::six("pumpkin_top", "pumpkin_top", "jack_o_lantern", "pumpkin_side", "pumpkin_side", "pumpkin_side"));
    }
    None
}

/// Rows 201 to 240 of the face table.
pub open spec fn table_rows_6(s: Seq<char>) -> Option<FaceNames> {
    if s == "melon"@ {
        Some(column_names("melon_top"@, "melon_top"@, "melon_side"@))
    } else if s == "hay_block"@ {
        Some(column_names("hay_block_top"@, "hay_block_top"@, "hay_block_side"@))
    } else if s == "bone_block"@ {
        Some(column_names("bone_block_top"@, "bone_block_top"@, "bone_block_side"@))
    } else if s == "moss_block"@ {
        Some(uniform_names("moss_block"@))
    } else if s == "sponge"@ {
        Some(uniform_names("sponge"@))
    } else if s == "wet_sponge"@ {
        Some(uniform_names("wet_sponge"@))
    } else if s == "prismarine"@ {
        Some(uniform_names("prismarine"@))
    } else if s == "prismarine_bricks"@ {
        Some(uniform_names("prismarine_bricks"@))
    } else if s == "dark_prismarine"@ {
        Some(uniform_names("dark_prismarine"@))
    } else if s == "sea_lantern"@ {
        Some(uniform_names("sea_lantern"@))
    } else if s == "purpur_pillar"@ {
        Some(column_names("purpur_pillar_top"@, "purpur_pillar_top"@, "purpur_pillar_side"@))
    } else if s == "grass_path"@ {
        Some(column_names("dirt_path_top"@, "dirt"@, "dirt_path_side"@))
    } else if s == "dirt_path"@ {
        Some(column_names("dirt_path_top"@, "dirt"@, "dirt_path_side"@))
    } else if s == "farmland"@ {
        Some(column_names("farmland_moist"@, "dirt"@, "dirt"@))
    } else if s == "quartz_block"@ {
        Some(column_names("quartz_block_top"@, "quartz_block_bottom"@, "quartz_block_side"@))
    } else if s == "chiseled_quartz_block"@ {
        Some(column_names("chiseled_quartz_block_top"@, "chiseled_quartz_block_top"@, "chiseled_quartz_block"@))
    } else if s == "quartz_pillar"@ {
        Some(column_names("quartz_pillar_top"@, "quartz_pillar_top"@, "quartz_pillar"@))
    } else if s == "smooth_quartz"@ {
        Some(uniform_names("quartz_block_bottom"@))
    } else if s == "quartz_bricks"@ {
        Some(uniform_names("quartz_bricks"@))
    } else if s == "oak_stairs"@ {
        Some(uniform_names("oak_planks"@))
    } else if s == "spruce_stairs"@ {
        Some(uniform_names("spruce_planks"@))
    } else if s == "birch_stairs"@ {
        Some(uniform_names("birch_planks"@))
    } else if s == "jungle_stairs"@ {
        Some(uniform_names("jungle_planks"@))
    } else if s == "acacia_stairs"@ {
        Some(uniform_names("acacia_planks"@))
    } else if s == "dark_oak_stairs"@ {
        Some(uniform_names("dark_oak_planks"@))
    } else if s == "mangrove_stairs"@ {
        Some(uniform_names("mangrove_planks"@))
    } else if s == "cherry_stairs"@ {
        Some(uniform_names("cherry_planks"@))
    } else if s == "bamboo_stairs"@ {
        Some(uniform_names("bamboo_planks"@))
    } else if s == "crimson_stairs"@ {
        Some(uniform_names("crimson_planks"@))
    } else if s == "warped_stairs"@ {
        Some(uniform_names("warped_planks"@))
    } else if s == "stone_stairs"@ {
        Some(uniform_names("stone"@))
    } else if s == "cobblestone_stairs"@ {
        Some(uniform_names("cobblestone"@))
    } else if s == "mossy_cobblestone_stairs"@ {
        Some(uniform_names("mossy_cobblestone"@))
    } else if s == "stone_brick_stairs"@ {
        Some(uniform_names("stone_bricks"@))
    } else if s == "mossy_stone_brick_stairs"@ {
        Some(uniform_names("mossy_stone_bricks"@))
    } else if s == "sandstone_stairs"@ {
        Some(column_names("sandstone_top"@, "sandstone_bottom"@, "sandstone"@))
    } else if s == "red_sandstone_stairs"@ {
        Some(column_names("red_sandstone_top"@, "red_sandstone_bottom"@, "red_sandstone"@))
    } else if s == "granite_stairs"@ {
        Some(uniform_names("granite"@))
    } else if s == "polished_granite_stairs"@ {
        Some(uniform_names("polished_granite"@))
    } else if s == "diorite_stairs"@ {
        Some(uniform_names("diorite"@))
    } else {
        None
    }
}

fn lookup_rows_6(short: &str) -> (r: Option<FaceTextures>)
    ensures
        names_of(r) == table_rows_6(short@),
{
    if str_eq(short, "melon") {
        return Some(FaceTextures::column("melon_top", "melon_top", "melon_side"));
    }
    if str_eq(short, "hay_block") {
        return Some(FaceTextures::column("hay_block_top", "hay_block_top", "hay_block_side"));
    }
    if str_eq(short, "bone_block") {
        return Some(FaceTextures::column("bone_block_top", "bone_block_top", "bone_block_side"));
    }
    if str_eq(short, "moss_block") {
        return Some(FaceTextures::uniform("moss_block"));
    }
    if str_eq(short, "sponge") {
        return Some(FaceTextures::uniform("sponge"));
    }
    if str_eq(short, "wet_sponge") {
        return Some(FaceTextures::uniform("wet_sponge"));
    }
    if str_eq(short, "prismarine") {
        return Some(FaceTextures::uniform("prismarine"));
    }
    if str_eq(short, "prismarine_bricks") {
        return Some(FaceTextures::uniform("prismarine_bricks"));
    }
    if str_eq(short, "dark_prismarine") {
        return Some(FaceTextures::uniform("dark_prismarine"));
    }
    if str_eq(short, "sea_lantern") {
        return Some(FaceTextures::uniform("sea_lantern"));
    }
    if str_eq(short, "purpur_pillar") {
        return Some(FaceTextures::column("purpur_pillar_top", "purpur_pillar_top", "purpur_pillar_side"));
    }
    if str_eq(short, "grass_path") {
        return Some(FaceTextures::column("dirt_path_top", "dirt", "dirt_path_side"));
    }
    if str_eq(short, "dirt_path") {
        return Some(FaceTextures::column("dirt_path_top", "dirt", "dirt_path_side"));
    }
    if str_eq(short, "farmland") {
        return Some(FaceTextures::column("farmland_moist", "dirt", "dirt"));
    }
    if str_eq(short, "quartz_block") {
        return Some(FaceTextures::column("quartz_block_top", "quartz_block_bottom", "quartz_block_side"));
    }
    if str_eq(short, "chiseled_quartz_block") {
        return Some(FaceTextures::column("chiseled_quartz_block_top", "chiseled_quartz_block_top", "chiseled_quartz_block"));
    }
    if str_eq(short, "quartz_pillar") {
        return Some(FaceTextures::column("quartz_pillar_top", "quartz_pillar_top", "quartz_pillar"));
    }
    if str_eq(short, "smooth_quartz") {
        return Some(FaceTextures::uniform("quartz_block_bottom"));
    }
    if str_eq(short, "quartz_bricks") {
        return Some(FaceTextures::uniform("quartz_bricks"));
    }
    if str_eq(short, "oak_stairs") {
        return Some(FaceTextures::uniform("oak_planks"));
    }
    if str_eq(short, "spruce_stairs") {
        return Some(FaceTextures::uniform("spruce_planks"));
    }
    if str_eq(short, "birch_stairs") {
        return Some(FaceTextures::uniform("birch_planks"));
    }
    if str_eq(short, "jungle_stairs") {
        return Some(FaceTextures::uniform("jungle_planks"));
    }
    if str_eq(short, "acacia_stairs") {
        return Some(FaceTextures::uniform("acacia_planks"));
    }
    if str_eq(short, "dark_oak_stairs") {
        return Some(FaceTextures::uniform("dark_oak_planks"));
    }
    if str_eq(short, "mangrove_stairs") {
        return Some(FaceTextures::uniform("mangrove_planks"));
    }
    if str_eq(short, "cherry_stairs") {
        return Some(FaceTextures::uniform("cherry_planks"));
    }
    if str_eq(short, "bamboo_stairs") {
        return Some(FaceTextures::uniform("bamboo_planks"));
    }
    if str_eq(short, "crimson_stairs") {
        return Some(FaceTextures::uniform("crimson_planks"));
    }
    if str_eq(short, "warped_stairs") {
        return Some(FaceTextures::uniform("warped_planks"));
    }
    if str_eq(short, "stone_stairs") {
        return Some(FaceTextures::uniform("stone"));
    }
    if str_eq(short, "cobblestone_stairs") {
        return Some(FaceTextures::uniform("cobblestone"));
    }
    if str_eq(short, "mossy_cobblestone_stairs") {
        return Some(FaceTextures::uniform("mossy_cobblestone"));
    }
    if str_eq(short, "stone_brick_stairs") {
        return Some(FaceTextures::uniform("stone_bricks"));
    }
    if str_eq(short, "mossy_stone_brick_stairs") {
        return Some(FaceTextures::uniform("mossy_stone_bricks"));
    }
    if str_eq(short, "sandstone_stairs") {
        return Some(FaceTextures::column("sandstone_top", "sandstone_bottom", "sandstone"));
    }
    if str_eq(short, "red_sandstone_stairs") {
        return Some(FaceTextures::column("red_sandstone_top", "red_sandstone_bottom", "red_sandstone"));
    }
    if str_eq(short, "granite_stairs") {
        return Some(FaceTextures::uniform("granite"));
    }
    if str_eq(short, "polished_granite_stairs") {
        return Some(FaceTextures::uniform("polished_granite"));
    }
    if str_eq(short, "diorite_stairs") {
        return Some(FaceTextures::uniform("diorite"));
    }
    None
}

/// Rows 241 to 280 of the face table.
pub open spec fn table_rows_7(s: Seq<char>) -> Option<FaceNames> {
    if s == "polished_diorite_stairs"@ {
        Some(uniform_names("polished_diorite"@))
    } else if s == "andesite_stairs"@ {
        Some(uniform_names("andesite"@))
    } else if s == "polished_andesite_stairs"@ {
        Some(uniform_names("polished_andesite"@))
    } else if s == "brick_stairs"@ {
        Some(uniform_names("bricks"@))
    } else if s == "nether_brick_stairs"@ {
        Some(uniform_names("nether_bricks"@))
    } else if s == "red_nether_brick_stairs"@ {
        Some(uniform_names("red_nether_bricks"@))
    } else if s == "end_stone_brick_stairs"@ {
        Some(uniform_names("end_stone_bricks"@))
    } else if s == "purpur_stairs"@ {
        Some(uniform_names("purpur_block"@))
    } else if s == "quartz_stairs"@ {
        Some(column_names("quartz_block_top"@, "quartz_block_bottom"@, "quartz_block_side"@))
    } else if s == "smooth_quartz_stairs"@ {
        Some(uniform_names("quartz_block_bottom"@))
    } else if s == "prismarine_stairs"@ {
        Some(uniform_names("prismarine"@))
    } else if s == "prismarine_brick_stairs"@ {
        Some(uniform_names("prismarine_bricks"@))
    } else if s == "dark_prismarine_stairs"@ {
        Some(uniform_names("dark_prismarine"@))
    } else if s == "blackstone_stairs"@ {
        Some(column_names("blackstone_top"@, "blackstone_top"@, "blackstone"@))
    } else if s == "polished_blackstone_stairs"@ {
        Some(uniform_names("polished_blackstone"@))
    } else if s == "polished_blackstone_brick_stairs"@ {
        Some(uniform_names("polished_blackstone_bricks"@))
    } else if s == "cobbled_deepslate_stairs"@ {
        Some(uniform_names("cobbled_deepslate"@))
    } else if s == "polished_deepslate_stairs"@ {
        Some(uniform_names("polished_deepslate"@))
    } else if s == "deepslate_brick_stairs"@ {
        Some(uniform_names("deepslate_bricks"@))
    } else if s == "deepslate_tile_stairs"@ {
        Some(uniform_names("deepslate_tiles"@))
    } else if s == "tuff_stairs"@ {
        Some(uniform_names("tuff"@))
    } else if s == "mud_brick_stairs"@ {
        Some(uniform_names("mud_bricks"@))
    } else if s == "oak_slab"@ {
        Some(uniform_names("oak_planks"@))
    } else if s == "spruce_slab"@ {
        Some(uniform_names("spruce_planks"@))
    } else if s == "birch_slab"@ {
        Some(uniform_names("birch_planks"@))
    } else if s == "jungle_slab"@ {
        Some(uniform_names("jungle_planks"@))
    } else if s == "acacia_slab"@ {
        Some(uniform_names("acacia_planks"@))
    } else if s == "dark_oak_slab"@ {
        Some(uniform_names("dark_oak_planks"@))
    } else if s == "mangrove_slab"@ {
        Some(uniform_names("mangrove_planks"@))
    } else if s == "cherry_slab"@ {
        Some(uniform_names("cherry_planks"@))
    } else if s == "bamboo_slab"@ {
        Some(uniform_names("bamboo_planks"@))
    } else if s == "crimson_slab"@ {
        Some(uniform_names("crimson_planks"@))
    } else if s == "warped_slab"@ {
        Some(uniform_names("warped_planks"@))
    } else if s == "stone_slab"@ {
        Some(uniform_names("stone"@))
    } else if s == "smooth_stone_slab"@ {
        Some(column_names("smooth_stone"@, "smooth_stone"@, "smooth_stone_slab_side"@))
    } else if s == "cobblestone_slab"@ {
        Some(uniform_names("cobblestone"@))
    } else if s == "mossy_cobblestone_slab"@ {
        Some(uniform_names("mossy_cobblestone"@))
    } else if s == "stone_brick_slab"@ {
        Some(uniform_names("stone_bricks"@))
    } else if s == "mossy_stone_brick_slab"@ {
        Some(uniform_names("mossy_stone_bricks"@))
    } else if s == "sandstone_slab"@ {
        Some(column_names("sandstone_top"@, "sandstone_bottom"@, "sandstone"@))
    } else {
        None
    }
}

fn lookup_rows_7(short: &str) -> (r: Option<FaceTextures>)
    ensures
        names_of(r) == table_rows_7(short@),
{
    if str_eq(short, "polished_diorite_stairs") {
        return Some(FaceTextures::uniform("polished_diorite"));
    }
    if str_eq(short, "andesite_stairs") {
        return Some(FaceTextures::uniform("andesite"));
    }
    if str_eq(short, "polished_andesite_stairs") {
        return Some(FaceTextures::uniform("polished_andesite"));
    }
    if str_eq(short, "brick_stairs") {
        return Some(FaceTextures::uniform("bricks"));
    }
    if str_eq(short, "nether_brick_stairs") {
        return Some(FaceTextures::uniform("nether_bricks"));
    }
    if str_eq(short, "red_nether_brick_stairs") {
        return Some(FaceTextures::uniform("red_nether_bricks"));
    }
    if str_eq(short, "end_stone_brick_stairs") {
        return Some(FaceTextures::uniform("end_stone_bricks"));
    }
    if str_eq(short, "purpur_stairs") {
        return Some(FaceTextures::uniform("purpur_block"));
    }
    if str_eq(short, "quartz_stairs") {
        return Some(FaceTextures::column("quartz_block_top", "quartz_block_bottom", "quartz_block_side"));
    }
    if str_eq(short, "smooth_quartz_stairs") {
        return Some(FaceTextures::uniform("quartz_block_bottom"));
    }
    if str_eq(short, "prismarine_stairs") {
        return Some(FaceTextures::uniform("prismarine"));
    }
    if str_eq(short, "prismarine_brick_stairs") {
        return Some(FaceTextures::uniform("prismarine_bricks"));
    }
    if str_eq(short, "dark_prismarine_stairs") {
        return Some(FaceTextures::uniform("dark_prismarine"));
    }
    if str_eq(short, "blackstone_stairs") {
        return Some(FaceTextures::column("blackstone_top", "blackstone_top", "blackstone"));
    }
    if str_eq(short, "polished_blackstone_stairs") {
        return Some(FaceTextures::uniform("polished_blackstone"));
    }
    if str_eq(short, "polished_blackstone_brick_stairs") {
        return Some(FaceTextures::uniform("polished_blackstone_bricks"));
    }
    if str_eq(short, "cobbled_deepslate_stairs") {
        return Some(FaceTextures::uniform("cobbled_deepslate"));
    }
    if str_eq(short, "polished_deepslate_stairs") {
        return Some(FaceTextures::uniform("polished_deepslate"));
    }
    if str_eq(short, "deepslate_brick_stairs") {
        return Some(FaceTextures::uniform("deepslate_bricks"));
    }
    if str_eq(short, "deepslate_tile_stairs") {
        return Some(FaceTextures::uniform("deepslate_tiles"));
    }
    if str_eq(short, "tuff_stairs") {
        return Some(FaceTextures::uniform("tuff"));
    }
    if str_eq(short, "mud_brick_stairs") {
        return Some(FaceTextures::uniform("mud_bricks"));
    }
    if str_eq(short, "oak_slab") {
        return Some(FaceTextures::uniform("oak_planks"));
    }
    if str_eq(short, "spruce_slab") {
        return Some(FaceTextures::uniform("spruce_planks"));
    }
    if str_eq(short, "birch_slab") {
        return Some(FaceTextures::uniform("birch_planks"));
    }
    if str_eq(short, "jungle_slab") {
        return Some(FaceTextures::uniform("jungle_planks"));
    }
    if str_eq(short, "acacia_slab") {
        return Some(FaceTextures::uniform("acacia_planks"));
    }
    if str_eq(short, "dark_oak_slab") {
        return Some(FaceTextures::uniform("dark_oak_planks"));
    }
    if str_eq(short, "mangrove_slab") {
        return Some(FaceTextures::uniform("mangrove_planks"));
    }
    if str_eq(short, "cherry_slab") {
        return Some(FaceTextures::uniform("cherry_planks"));
    }
    if str_eq(short, "bamboo_slab") {
        return Some(FaceTextures::uniform("bamboo_planks"));
    }
    if str_eq(short, "crimson_slab") {
        return Some(FaceTextures::uniform("crimson_planks"));
    }
    if str_eq(short, "warped_slab") {
        return Some(FaceTextures::uniform("warped_planks"));
    }
    if str_eq(short, "stone_slab") {
        return Some(FaceTextures::uniform("stone"));
    }
    if str_eq(short, "smooth_stone_slab") {
        return Some(FaceTextures::column("smooth_stone", "smooth_stone", "smooth_stone_slab_side"));
    }
    if str_eq(short, "cobblestone_slab") {
        return Some(FaceTextures::uniform("cobblestone"));
    }
    if str_eq(short, "mossy_cobblestone_slab") {
        return Some(FaceTextures::uniform("mossy_cobblestone"));
    }
    if str_eq(short, "stone_brick_slab") {
        return Some(FaceTextures::uniform("stone_bricks"));
    }
    if str_eq(short, "mossy_stone_brick_slab") {
        return Some(FaceTextures::uniform("mossy_stone_bricks"));
    }
    if str_eq(short, "sandstone_slab") {
        return Some(FaceTextures::column("sandstone_top", "sandstone_bottom", "sandstone"));
    }
    None
}

/// Rows 281 to 320 of the face table.
pub open spec fn table_rows_8(s: Seq<char>) -> Option<FaceNames> {
    if s == "cut_sandstone_slab"@ {
        Some(column_names("sandstone_top"@, "sandstone_bottom"@, "cut_sandstone"@))
    } else if s == "red_sandstone_slab"@ {
        Some(column_names("red_sandstone_top"@, "red_sandstone_bottom"@, "red_sandstone"@))
    } else if s == "cut_red_sandstone_slab"@ {
        Some(column_names("red_sandstone_top"@, "red_sandstone_bottom"@, "cut_red_sandstone"@))
    } else if s == "granite_slab"@ {
        Some(uniform_names("granite"@))
    } else if s == "polished_granite_slab"@ {
        Some(uniform_names("polished_granite"@))
    } else if s == "diorite_slab"@ {
        Some(uniform_names("diorite"@))
    } else if s == "polished_diorite_slab"@ {
        Some(uniform_names("polished_diorite"@))
    } else if s == "andesite_slab"@ {
        Some(uniform_names("andesite"@))
    } else if s == "polished_andesite_slab"@ {
        Some(uniform_names("polished_andesite"@))
    } else if s == "brick_slab"@ {
        Some(uniform_names("bricks"@))
    } else if s == "nether_brick_slab"@ {
        Some(uniform_names("nether_bricks"@))
    } else if s == "red_nether_brick_slab"@ {
        Some(uniform_names("red_nether_bricks"@))
    } else if s == "end_stone_brick_slab"@ {
        Some(uniform_names("end_stone_bricks"@))
    } else if s == "purpur_slab"@ {
        Some(uniform_names("purpur_block"@))
    } else if s == "quartz_slab"@ {
        Some(column_names("quartz_block_top"@, "quartz_block_bottom"@, "quartz_block_side"@))
    } else if s == "smooth_quartz_slab"@ {
        Some(uniform_names("quartz_block_bottom"@))
    } else if s == "prismarine_slab"@ {
        Some(uniform_names("prismarine"@))
    } else if s == "prismarine_brick_slab"@ {
        Some(uniform_names("prismarine_bricks"@))
    } else if s == "dark_prismarine_slab"@ {
        Some(uniform_names("dark_prismarine"@))
    } else if s == "blackstone_slab"@ {
        Some(column_names("blackstone_top"@, "blackstone_top"@, "blackstone"@))
    } else if s == "polished_blackstone_slab"@ {
        Some(uniform_names("polished_blackstone"@))
    } else if s == "polished_blackstone_brick_slab"@ {
        Some(uniform_names("polished_blackstone_bricks"@))
    } else if s == "cobbled_deepslate_slab"@ {
        Some(uniform_names("cobbled_deepslate"@))
    } else if s == "polished_deepslate_slab"@ {
        Some(uniform_names("polished_deepslate"@))
    } else if s == "deepslate_brick_slab"@ {
        Some(uniform_names("deepslate_bricks"@))
    } else if s == "deepslate_tile_slab"@ {
        Some(uniform_names("deepslate_tiles"@))
    } else if s == "tuff_slab"@ {
        Some(uniform_names("tuff"@))
    } else if s == "mud_brick_slab"@ {
        Some(uniform_names("mud_bricks"@))
    } else if s == "petrified_oak_slab"@ {
        Some(uniform_names("oak_planks"@))
    } else if s == "oak_fence"@ {
        Some(uniform_names("oak_planks"@))
    } else if s == "spruce_fence"@ {
        Some(uniform_names("spruce_planks"@))
    } else if s == "birch_fence"@ {
        Some(uniform_names("birch_planks"@))
    } else if s == "jungle_fence"@ {
        Some(uniform_names("jungle_planks"@))
    } else if s == "acacia_fence"@ {
        Some(uniform_names("acacia_planks"@))
    } else if s == "dark_oak_fence"@ {
        Some(uniform_names("dark_oak_planks"@))
    } else if s == "mangrove_fence"@ {
        Some(uniform_names("mangrove_planks"@))
    } else if s == "cherry_fence"@ {
        Some(uniform_names("cherry_planks"@))
    } else if s == "bamboo_fence"@ {
        Some(uniform_names("bamboo_planks"@))
    } else if s == "crimson_fence"@ {
        Some(uniform_names("crimson_planks"@))
    } else if s == "warped_fence"@ {
        Some(uniform_names("warped_planks"@))
    } else {
        None
    }
}

fn lookup_rows_8(short: &str) -> (r: Option<FaceTextures>)
    ensures
        names_of(r) == table_rows_8(short@),
{
    if str_eq(short, "cut_sandstone_slab") {
        return Some(FaceTextures::column("sandstone_top", "sandstone_bottom", "cut_sandstone"));
    }
    if str_eq(short, "red_sandstone_slab") {
        return Some(FaceTextures::column("red_sandstone_top", "red_sandstone_bottom", "red_sandstone"));
    }
    if str_eq(short, "cut_red_sandstone_slab") {
        return Some(FaceTextures::column("red_sandstone_top", "red_sandstone_bottom", "cut_red_sandstone"));
    }
    if str_eq(short, "granite_slab") {
        return Some(FaceTextures::uniform("granite"));
    }
    if str_eq(short, "polished_granite_slab") {
        return Some(FaceTextures::uniform("polished_granite"));
    }
    if str_eq(short, "diorite_slab") {
        return Some(FaceTextures::uniform("diorite"));
    }
    if str_eq(short, "polished_diorite_slab") {
        return Some(FaceTextures::uniform("polished_diorite"));
    }
    if str_eq(short, "andesite_slab") {
        return Some(FaceTextures::uniform("andesite"));
    }
    if str_eq(short, "polished_andesite_slab") {
        return Some(FaceTextures::uniform("polished_andesite"));
    }
    if str_eq(short, "brick_slab") {
        return Some(FaceTextures::uniform("bricks"));
    }
    if str_eq(short, "nether_brick_slab") {
        return Some(FaceTextures::uniform("nether_bricks"));
    }
    if str_eq(short, "red_nether_brick_slab") {
        return Some(FaceTextures::uniform("red_nether_bricks"));
    }
    if str_eq(short, "end_stone_brick_slab") {
        return Some(FaceTextures::uniform("end_stone_bricks"));
    }
    if str_eq(short, "purpur_slab") {
        return Some(FaceTextures::uniform("purpur_block"));
    }
    if str_eq(short, "quartz_slab") {
        return Some(FaceTextures::column("quartz_block_top", "quartz_block_bottom", "quartz_block_side"));
    }
    if str_eq(short, "smooth_quartz_slab") {
        return Some(FaceTextures::uniform("quartz_block_bottom"));
    }
    if str_eq(short, "prismarine_slab") {
        return Some(FaceTextures::uniform("prismarine"));
    }
    if str_eq(short, "prismarine_brick_slab") {
        return Some(FaceTextures::uniform("prismarine_bricks"));
    }
    if str_eq(short, "dark_prismarine_slab") {
        return Some(FaceTextures::uniform("dark_prismarine"));
    }
    if str_eq(short, "blackstone_slab") {
        return Some(FaceTextures::column("blackstone_top", "blackstone_top", "blackstone"));
    }
    if str_eq(short, "polished_blackstone_slab") {
        return Some(FaceTextures::uniform("polished_blackstone"));
    }
    if str_eq(short, "polished_blackstone_brick_slab") {
        return Some(FaceTextures::uniform("polished_blackstone_bricks"));
    }
    if str_eq(short, "cobbled_deepslate_slab") {
        return Some(FaceTextures::uniform("cobbled_deepslate"));
    }
    if str_eq(short, "polished_deepslate_slab") {
        return Some(FaceTextures::uniform("polished_deepslate"));
    }
    if str_eq(short, "deepslate_brick_slab") {
        return Some(FaceTextures::uniform("deepslate_bricks"));
    }
    if str_eq(short, "deepslate_tile_slab") {
        return Some(FaceTextures::uniform("deepslate_tiles"));
    }
    if str_eq(short, "tuff_slab") {
        return Some(FaceTextures::uniform("tuff"));
    }
    if str_eq(short, "mud_brick_slab") {
        return Some(FaceTextures::uniform("mud_bricks"));
    }
    if str_eq(short, "petrified_oak_slab") {
        return Some(FaceTextures::uniform("oak_planks"));
    }
    if str_eq(short, "oak_fence") {
        return Some(FaceTextures::uniform("oak_planks"));
    }
    if str_eq(short, "spruce_fence") {
        return Some(FaceTextures::uniform("spruce_planks"));
    }
    if str_eq(short, "birch_fence") {
        return Some(FaceTextures::uniform("birch_planks"));
    }
    if str_eq(short, "jungle_fence") {
        return Some(FaceTextures::uniform("jungle_planks"));
    }
    if str_eq(short, "acacia_fence") {
        return Some(FaceTextures::uniform("acacia_planks"));
    }
    if str_eq(short, "dark_oak_fence") {
        return Some(FaceTextures::uniform("dark_oak_planks"));
    }
    if str_eq(short, "mangrove_fence") {
        return Some(FaceTextures::uniform("mangrove_planks"));
    }
    if str_eq(short, "cherry_fence") {
        return Some(FaceTextures::uniform("cherry_planks"));
    }
    if str_eq(short, "bamboo_fence") {
        return Some(FaceTextures::uniform("bamboo_planks"));
    }
    if str_eq(short, "crimson_fence") {
        return Some(FaceTextures::uniform("crimson_planks"));
    }
    if str_eq(short, "warped_fence") {
        return Some(FaceTextures::uniform("warped_planks"));
    }
    None
}

/// Rows 321 to 360 of the face table.
pub open spec fn table_rows_9(s: Seq<char>) -> Option<FaceNames> {
    if s == "nether_brick_fence"@ {
        Some(uniform_names("nether_bricks"@))
    } else if s == "oak_fence_gate"@ {
        Some(uniform_names("oak_planks"@))
    } else if s == "spruce_fence_gate"@ {
        Some(uniform_names("spruce_planks"@))
    } else if s == "birch_fence_gate"@ {
        Some(uniform_names("birch_planks"@))
    } else if s == "jungle_fence_gate"@ {
        Some(uniform_names("jungle_planks"@))
    } else if s == "acacia_fence_gate"@ {
        Some(uniform_names("acacia_planks"@))
    } else if s == "dark_oak_fence_gate"@ {
        Some(uniform_names("dark_oak_planks"@))
    } else if s == "mangrove_fence_gate"@ {
        Some(uniform_names("mangrove_planks"@))
    } else if s == "cherry_fence_gate"@ {
        Some(uniform_names("cherry_planks"@))
    } else if s == "bamboo_fence_gate"@ {
        Some(uniform_names("bamboo_planks"@))
    } else if s == "crimson_fence_gate"@ {
        Some(uniform_names("crimson_planks"@))
    } else if s == "warped_fence_gate"@ {
        Some(uniform_names("warped_planks"@))
    } else if s == "cobblestone_wall"@ {
        Some(uniform_names("cobblestone"@))
    } else if s == "mossy_cobblestone_wall"@ {
        Some(uniform_names("mossy_cobblestone"@))
    } else if s == "stone_brick_wall"@ {
        Some(uniform_names("stone_bricks"@))
    } else if s == "mossy_stone_brick_wall"@ {
        Some(uniform_names("mossy_stone_bricks"@))
    } else if s == "andesite_wall"@ {
        Some(uniform_names("andesite"@))
    } else if s == "diorite_wall"@ {
        Some(uniform_names("diorite"@))
    } else if s == "granite_wall"@ {
        Some(uniform_names("granite"@))
    } else if s == "brick_wall"@ {
        Some(uniform_names("bricks"@))
    } else if s == "nether_brick_wall"@ {
        Some(uniform_names("nether_bricks"@))
    } else if s == "red_nether_brick_wall"@ {
        Some(uniform_names("red_nether_bricks"@))
    } else if s == "sandstone_wall"@ {
        Some(column_names("sandstone_top"@, "sandstone_bottom"@, "sandstone"@))
    } else if s == "red_sandstone_wall"@ {
        Some(column_names("red_sandstone_top"@, "red_sandstone_bottom"@, "red_sandstone"@))
    } else if s == "end_stone_brick_wall"@ {
        Some(uniform_names("end_stone_bricks"@))
    } else if s == "prismarine_wall"@ {
        Some(uniform_names("prismarine"@))
    } else if s == "blackstone_wall"@ {
        Some(column_names("blackstone_top"@, "blackstone_top"@, "blackstone"@))
    } else if s == "polished_blackstone_wall"@ {
        Some(uniform_names("polished_blackstone"@))
    } else if s == "polished_blackstone_brick_wall"@ {
        Some(uniform_names("polished_blackstone_bricks"@))
    } else if s == "cobbled_deepslate_wall"@ {
        Some(uniform_names("cobbled_deepslate"@))
    } else if s == "polished_deepslate_wall"@ {
        Some(uniform_names("polished_deepslate"@))
    } else if s == "deepslate_brick_wall"@ {
        Some(uniform_names("deepslate_bricks"@))
    } else if s == "deepslate_tile_wall"@ {
        Some(uniform_names("deepslate_tiles"@))
    } else if s == "tuff_wall"@ {
        Some(uniform_names("tuff"@))
    } else if s == "mud_brick_wall"@ {
        Some(uniform_names("mud_bricks"@))
    } else if s == "oak_door"@ {
        Some(column_names("oak_door_top"@, "oak_door_bottom"@, "oak_door_bottom"@))
    } else if s == "spruce_door"@ {
        Some(column_names("spruce_door_top"@, "spruce_door_bottom"@, "spruce_door_bottom"@))
    } else if s == "birch_door"@ {
        Some(column_names("birch_door_top"@, "birch_door_bottom"@, "birch_door_bottom"@))
    } else if s == "jungle_door"@ {
        Some(column_names("jungle_door_top"@, "jungle_door_bottom"@, "jungle_door_bottom"@))
    } else if s == "acacia_door"@ {
        Some(column_names("acacia_door_top"@, "acacia_door_bottom"@, "acacia_door_bottom"@))
    } else {
        None
    }
}

fn lookup_rows_9(short: &str) -> (r: Option<FaceTextures>)
    ensures
        names_of(r) == table_rows_9(short@),
{
    if str_eq(short, "nether_brick_fence") {
        return Some(FaceTextures::uniform("nether_bricks"));
    }
    if str_eq(short, "oak_fence_gate") {
        return Some(FaceTextures::uniform("oak_planks"));
    }
    if str_eq(short, "spruce_fence_gate") {
        return Some(FaceTextures::uniform("spruce_planks"));
    }
    if str_eq(short, "birch_fence_gate") {
        return Some(FaceTextures::uniform("birch_planks"));
    }
    if str_eq(short, "jungle_fence_gate") {
        return Some(FaceTextures::uniform("jungle_planks"));
    }
    if str_eq(short, "acacia_fence_gate") {
        return Some(FaceTextures::uniform("acacia_planks"));
    }
    if str_eq(short, "dark_oak_fence_gate") {
        return Some(FaceTextures::uniform("dark_oak_planks"));
    }
    if str_eq(short, "mangrove_fence_gate") {
        return Some(FaceTextures::uniform("mangrove_planks"));
    }
    if str_eq(short, "cherry_fence_gate") {
        return Some(FaceTextures::uniform("cherry_planks"));
    }
    if str_eq(short, "bamboo_fence_gate") {
        return Some(FaceTextures::uniform("bamboo_planks"));
    }
    if str_eq(short, "crimson_fence_gate") {
        return Some(FaceTextures::uniform("crimson_planks"));
    }
    if str_eq(short, "warped_fence_gate") {
        return Some(FaceTextures::uniform("warped_planks"));
    }
    if str_eq(short, "cobblestone_wall") {
        return Some(FaceTextures::uniform("cobblestone"));
    }
    if str_eq(short, "mossy_cobblestone_wall") {
        return Some(FaceTextures::uniform("mossy_cobblestone"));
    }
    if str_eq(short, "stone_brick_wall") {
        return Some(FaceTextures::uniform("stone_bricks"));
    }
    if str_eq(short, "mossy_stone_brick_wall") {
        return Some(FaceTextures::uniform("mossy_stone_bricks"));
    }
    if str_eq(short, "andesite_wall") {
        return Some(FaceTextures::uniform("andesite"));
    }
    if str_eq(short, "diorite_wall") {
        return Some(FaceTextures::uniform("diorite"));
    }
    if str_eq(short, "granite_wall") {
        return Some(FaceTextures::uniform("granite"));
    }
    if str_eq(short, "brick_wall") {
        return Some(FaceTextures::uniform("bricks"));
    }
    if str_eq(short, "nether_brick_wall") {
        return Some(FaceTextures::uniform("nether_bricks"));
    }
    if str_eq(short, "red_nether_brick_wall") {
        return Some(FaceTextures::uniform("red_nether_bricks"));
    }
    if str_eq(short, "sandstone_wall") {
        return Some(FaceTextures::column("sandstone_top", "sandstone_bottom", "sandstone"));
    }
    if str_eq(short, "red_sandstone_wall") {
        return Some(FaceTextures::column("red_sandstone_top", "red_sandstone_bottom", "red_sandstone"));
    }
    if str_eq(short, "end_stone_brick_wall") {
        return Some(FaceTextures::uniform("end_stone_bricks"));
    }
    if str_eq(short, "prismarine_wall") {
        return Some(FaceTextures::uniform("prismarine"));
    }
    if str_eq(short, "blackstone_wall") {
        return Some(FaceTextures::column("blackstone_top", "blackstone_top", "blackstone"));
    }
    if str_eq(short, "polished_blackstone_wall") {
        return Some(FaceTextures::uniform("polished_blackstone"));
    }
    if str_eq(short, "polished_blackstone_brick_wall") {
        return Some(FaceTextures::uniform("polished_blackstone_bricks"));
    }
    if str_eq(short, "cobbled_deepslate_wall") {
        return Some(FaceTextures::uniform("cobbled_deepslate"));
    }
    if str_eq(short, "polished_deepslate_wall") {
        return Some(FaceTextures::uniform("polished_deepslate"));
    }
    if str_eq(short, "deepslate_brick_wall") {
        return Some(FaceTextures::uniform("deepslate_bricks"));
    }
    if str_eq(short, "deepslate_tile_wall") {
        return Some(FaceTextures::uniform("deepslate_tiles"));
    }
    if str_eq(short, "tuff_wall") {
        return Some(FaceTextures::uniform("tuff"));
    }
    if str_eq(short, "mud_brick_wall") {
        return Some(FaceTextures::uniform("mud_bricks"));
    }
    if str_eq(short, "oak_door") {
        return Some(FaceTextures::column("oak_door_top", "oak_door_bottom", "oak_door_bottom"));
    }
    if str_eq(short, "spruce_door") {
        return Some(FaceTextures::column("spruce_door_top", "spruce_door_bottom", "spruce_door_bottom"));
    }
    if str_eq(short, "birch_door") {
        return Some(FaceTextures::column("birch_door_top", "birch_door_bottom", "birch_door_bottom"));
    }
    if str_eq(short, "jungle_door") {
        return Some(FaceTextures::column("jungle_door_top", "jungle_door_bottom", "jungle_door_bottom"));
    }
    if str_eq(short, "acacia_door") {
        return Some(FaceTextures::column("acacia_door_top", "acacia_door_bottom", "acacia_door_bottom"));
    }
    None
}

/// Rows 361 to 400 of the face table.
pub open spec fn table_rows_10(s: Seq<char>) -> Option<FaceNames> {
    if s == "dark_oak_door"@ {
        Some(column_names("dark_oak_door_top"@, "dark_oak_door_bottom"@, "dark_oak_door_bottom"@))
    } else if s == "mangrove_door"@ {
        Some(column_names("mangrove_door_top"@, "mangrove_door_bottom"@, "mangrove_door_bottom"@))
    } else if s == "cherry_door"@ {
        Some(column_names("cherry_door_top"@, "cherry_door_bottom"@, "cherry_door_bottom"@))
    } else if s == "crimson_door"@ {
        Some(column_names("crimson_door_top"@, "crimson_door_bottom"@, "crimson_door_bottom"@))
    } else if s == "warped_door"@ {
        Some(column_names("warped_door_top"@, "warped_door_bottom"@, "warped_door_bottom"@))
    } else if s == "iron_door"@ {
        Some(column_names("iron_door_top"@, "iron_door_bottom"@, "iron_door_bottom"@))
    } else if s == "copper_door"@ {
        Some(column_names("copper_door_top"@, "copper_door_bottom"@, "copper_door_bottom"@))
    } else if s == "oak_trapdoor"@ {
        Some(uniform_names("oak_trapdoor"@))
    } else if s == "spruce_trapdoor"@ {
        Some(uniform_names("spruce_trapdoor"@))
    } else if s == "birch_trapdoor"@ {
        Some(uniform_names("birch_trapdoor"@))
    } else if s == "jungle_trapdoor"@ {
        Some(uniform_names("jungle_trapdoor"@))
    } else if s == "acacia_trapdoor"@ {
        Some(uniform_names("acacia_trapdoor"@))
    } else if s == "dark_oak_trapdoor"@ {
        Some(uniform_names("dark_oak_trapdoor"@))
    } else if s == "mangrove_trapdoor"@ {
        Some(uniform_names("mangrove_trapdoor"@))
    } else if s == "cherry_trapdoor"@ {
        Some(uniform_names("cherry_trapdoor"@))
    } else if s == "crimson_trapdoor"@ {
        Some(uniform_names("crimson_trapdoor"@))
    } else if s == "warped_trapdoor"@ {
        Some(uniform_names("warped_trapdoor"@))
    } else if s == "iron_trapdoor"@ {
        Some(uniform_names("iron_trapdoor"@))
    } else if s == "copper_trapdoor"@ {
        Some(uniform_names("copper_trapdoor"@))
    } else if s == "dandelion"@ {
        Some(uniform_names("dandelion"@))
    } else if s == "poppy"@ {
        Some(uniform_names("poppy"@))
    } else if s == "blue_orchid"@ {
        Some(uniform_names("blue_orchid"@))
    } else if s == "allium"@ {
        Some(uniform_names("allium"@))
    } else if s == "azure_bluet"@ {
        Some(uniform_names("azure_bluet"@))
    } else if s == "red_tulip"@ {
        Some(uniform_names("red_tulip"@))
    } else if s == "orange_tulip"@ {
        Some(uniform_names("orange_tulip"@))
    } else if s == "white_tulip"@ {
        Some(uniform_names("white_tulip"@))
    } else if s == "pink_tulip"@ {
        Some(uniform_names("pink_tulip"@))
    } else if s == "oxeye_daisy"@ {
        Some(uniform_names("oxeye_daisy"@))
    } else if s == "cornflower"@ {
        Some(uniform_names("cornflower"@))
    } else if s == "lily_of_the_valley"@ {
        Some(uniform_names("lily_of_the_valley"@))
    } else if s == "wither_rose"@ {
        Some(uniform_names("wither_rose"@))
    } else if s == "sunflower"@ {
        Some(uniform_names("sunflower_front"@))
    } else if s == "lilac"@ {
        Some(uniform_names("lilac_top"@))
    } else if s == "peony"@ {
        Some(uniform_names("peony_top"@))
    } else if s == "rose_bush"@ {
        Some(uniform_names("rose_bush_top"@))
    } else if s == "spore_blossom"@ {
        Some(uniform_names("spore_blossom"@))
    } else if s == "pink_petals"@ {
        Some(uniform_names("pink_petals"@))
    } else if s == "torchflower"@ {
        Some(uniform_names("torchflower"@))
    } else if s == "pitcher_plant"@ {
        Some(uniform_names("pitcher_plant_top"@))
    } else {
        None
    }
}

fn lookup_rows_10(short: &str) -> (r: Option<FaceTextures>)
    ensures
        names_of(r) == table_rows_10(short@),
{
    if str_eq(short, "dark_oak_door") {
        return Some(FaceTextures::column("dark_oak_door_top", "dark_oak_door_bottom", "dark_oak_door_bottom"));
    }
    if str_eq(short, "mangrove_door") {
        return Some(FaceTextures::column("mangrove_door_top", "mangrove_door_bottom", "mangrove_door_bottom"));
    }
    if str_eq(short, "cherry_door") {
        return Some(FaceTextures::column("cherry_door_top", "cherry_door_bottom", "cherry_door_bottom"));
    }
    if str_eq(short, "crimson_door") {
        return Some(FaceTextures::column("crimson_door_top", "crimson_door_bottom", "crimson_door_bottom"));
    }
    if str_eq(short, "warped_door") {
        return Some(FaceTextures::column("warped_door_top", "warped_door_bottom", "warped_door_bottom"));
    }
    if str_eq(short, "iron_door") {
        return Some(FaceTextures::column("iron_door_top", "iron_door_bottom", "iron_door_bottom"));
    }
    if str_eq(short, "copper_door") {
        return Some(FaceTextures::column("copper_door_top", "copper_door_bottom", "copper_door_bottom"));
    }
    if str_eq(short, "oak_trapdoor") {
        return Some(FaceTextures::uniform("oak_trapdoor"));
    }
    if str_eq(short, "spruce_trapdoor") {
        return Some(FaceTextures::uniform("spruce_trapdoor"));
    }
    if str_eq(short, "birch_trapdoor") {
        return Some(FaceTextures::uniform("birch_trapdoor"));
    }
    if str_eq(short, "jungle_trapdoor") {
        return Some(FaceTextures::uniform("jungle_trapdoor"));
    }
    if str_eq(short, "acacia_trapdoor") {
        return Some(FaceTextures::uniform("acacia_trapdoor"));
    }
    if str_eq(short, "dark_oak_trapdoor") {
        return Some(FaceTextures::uniform("dark_oak_trapdoor"));
    }
    if str_eq(short, "mangrove_trapdoor") {
        return Some(FaceTextures::uniform("mangrove_trapdoor"));
    }
    if str_eq(short, "cherry_trapdoor") {
        return Some(FaceTextures::uniform("cherry_trapdoor"));
    }
    if str_eq(short, "crimson_trapdoor") {
        return Some(FaceTextures::uniform("crimson_trapdoor"));
    }
    if str_eq(short, "warped_trapdoor") {
        return Some(FaceTextures::uniform("warped_trapdoor"));
    }
    if str_eq(short, "iron_trapdoor") {
        return Some(FaceTextures::uniform("iron_trapdoor"));
    }
    if str_eq(short, "copper_trapdoor") {
        return Some(FaceTextures::uniform("copper_trapdoor"));
    }
    if str_eq(short, "dandelion") {
        return Some(FaceTextures::uniform("dandelion"));
    }
    if str_eq(short, "poppy") {
        return Some(FaceTextures::uniform("poppy"));
    }
    if str_eq(short, "blue_orchid") {
        return Some(FaceTextures::uniform("blue_orchid"));
    }
    if str_eq(short, "allium") {
        return Some(FaceTextures::uniform("allium"));
    }
    if str_eq(short, "azure_bluet") {
        return Some(FaceTextures::uniform("azure_bluet"));
    }
    if str_eq(short, "red_tulip") {
        return Some(FaceTextures::uniform("red_tulip"));
    }
    if str_eq(short, "orange_tulip") {
        return Some(FaceTextures::uniform("orange_tulip"));
    }
    if str_eq(short, "white_tulip") {
        return Some(FaceTextures::uniform("white_tulip"));
    }
    if str_eq(short, "pink_tulip") {
        return Some(FaceTextures::uniform("pink_tulip"));
    }
    if str_eq(short, "oxeye_daisy") {
        return Some(FaceTextures::uniform("oxeye_daisy"));
    }
    if str_eq(short, "cornflower") {
        return Some(FaceTextures::uniform("cornflower"));
    }
    if str_eq(short, "lily_of_the_valley") {
        return Some(FaceTextures::uniform("lily_of_the_valley"));
    }
    if str_eq(short, "wither_rose") {
        return Some(FaceTextures::uniform("wither_rose"));
    }
    if str_eq(short, "sunflower") {
        return Some(FaceTextures::uniform("sunflower_front"));
    }
    if str_eq(short, "lilac") {
        return Some(FaceTextures::uniform("lilac_top"));
    }
    if str_eq(short, "peony") {
        return Some(FaceTextures::uniform("peony_top"));
    }
    if str_eq(short, "rose_bush") {
        return Some(FaceTextures::uniform("rose_bush_top"));
    }
    if str_eq(short, "spore_blossom") {
        return Some(FaceTextures::uniform("spore_blossom"));
    }
    if str_eq(short, "pink_petals") {
        return Some(FaceTextures::uniform("pink_petals"));
    }
    if str_eq(short, "torchflower") {
        return Some(FaceTextures::uniform("torchflower"));
    }
    if str_eq(short, "pitcher_plant") {
        return Some(FaceTextures::uniform("pitcher_plant_top"));
    }
    None
}

/// Rows 401 to 440 of the face table.
pub open spec fn table_rows_11(s: Seq<char>) -> Option<FaceNames> {
    if s == "brown_mushroom"@ {
        Some(uniform_names("brown_mushroom"@))
    } else if s == "red_mushroom"@ {
        Some(uniform_names("red_mushroom"@))
    } else if s == "crimson_fungus"@ {
        Some(uniform_names("crimson_fungus"@))
    } else if s == "warped_fungus"@ {
        Some(uniform_names("warped_fungus"@))
    } else if s == "brown_mushroom_block"@ {
        Some(uniform_names("mushroom_block_skin_brown"@))
    } else if s == "red_mushroom_block"@ {
        Some(uniform_names("mushroom_block_skin_red"@))
    } else if s == "mushroom_stem"@ {
        Some(column_names("mushroom_block_skin_stem"@, "mushroom_block_skin_stem"@, "mushroom_block_inside"@))
    } else if s == "short_grass"@ {
        Some(uniform_names("short_grass"@))
    } else if s == "grass"@ {
        Some(uniform_names("short_grass"@))
    } else if s == "tall_grass"@ {
        Some(uniform_names("tall_grass_top"@))
    } else if s == "fern"@ {
        Some(uniform_names("fern"@))
    } else if s == "large_fern"@ {
        Some(uniform_names("large_fern_top"@))
    } else if s == "dead_bush"@ {
        Some(uniform_names("dead_bush"@))
    } else if s == "seagrass"@ {
        Some(uniform_names("seagrass"@))
    } else if s == "tall_seagrass"@ {
        Some(uniform_names("tall_seagrass_top"@))
    } else if s == "kelp"@ {
        Some(uniform_names("kelp"@))
    } else if s == "kelp_plant"@ {
        Some(uniform_names("kelp_plant"@))
    } else if s == "hanging_roots"@ {
        Some(uniform_names("hanging_roots"@))
    } else if s == "azalea"@ {
        Some(column_names("azalea_top"@, "azalea_top"@, "azalea_side"@))
    } else if s == "flowering_azalea"@ {
        Some(column_names("flowering_azalea_top"@, "flowering_azalea_top"@, "flowering_azalea_side"@))
    } else if s == "moss_carpet"@ {
        Some(uniform_names("moss_block"@))
    } else if s == "crimson_roots"@ {
        Some(uniform_names("crimson_roots"@))
    } else if s == "warped_roots"@ {
        Some(uniform_names("warped_roots"@))
    } else if s == "nether_sprouts"@ {
        Some(uniform_names("nether_sprouts"@))
    } else if s == "wheat"@ {
        Some(uniform_names("wheat_stage7"@))
    } else if s == "carrots"@ {
        Some(uniform_names("carrots_stage3"@))
    } else if s == "potatoes"@ {
        Some(uniform_names("potatoes_stage3"@))
    } else if s == "beetroots"@ {
        Some(uniform_names("beetroots_stage3"@))
    } else if s == "pumpkin_stem"@ {
        Some(uniform_names("pumpkin_stem"@))
    } else if s == "melon_stem"@ {
        Some(uniform_names("melon_stem"@))
    } else if s == "nether_wart"@ {
        Some(uniform_names("nether_wart_stage2"@))
    } else if s == "cocoa"@ {
        Some(uniform_names("cocoa_stage2"@))
    } else if s == "sweet_berry_bush"@ {
        Some(uniform_names("sweet_berry_bush_stage3"@))
    } else if s == "torchflower_crop"@ {
        Some(uniform_names("torchflower_crop_stage1"@))
    } else if s == "cactus"@ {
        Some(column_names("cactus_top"@, "cactus_bottom"@, "cactus_side"@))
    } else if s == "lily_pad"@ {
        Some(uniform_names("lily_pad"@))
    } else if s == "vine"@ {
        Some(uniform_names("vine"@))
    } else if s == "cobweb"@ {
        Some(uniform_names("cobweb"@))
    } else if s == "ladder"@ {
        Some(uniform_names("ladder"@))
    } else if s == "bamboo"@ {
        Some(uniform_names("bamboo_stalk"@))
    } else {
        None
    }
}

fn lookup_rows_11(short: &str) -> (r: Option<FaceTextures>)
    ensures
        names_of(r) == table_rows_11(short@),
{
    if str_eq(short, "brown_mushroom") {
        return Some(FaceTextures::uniform("brown_mushroom"));
    }
    if str_eq(short, "red_mushroom") {
        return Some(FaceTextures::uniform("red_mushroom"));
    }
    if str_eq(short, "crimson_fungus") {
        return Some(FaceTextures::uniform("crimson_fungus"));
    }
    if str_eq(short, "warped_fungus") {
        return Some(FaceTextures::uniform("warped_fungus"));
    }
    if str_eq(short, "brown_mushroom_block") {
        return Some(FaceTextures::uniform("mushroom_block_skin_brown"));
    }
    if str_eq(short, "red_mushroom_block") {
        return Some(FaceTextures::uniform("mushroom_block_skin_red"));
    }
    if str_eq(short, "mushroom_stem") {
        return Some(FaceTextures::column("mushroom_block_skin_stem", "mushroom_block_skin_stem", "mushroom_block_inside"));
    }
    if str_eq(short, "short_grass") {
        return Some(FaceTextures::uniform("short_grass"));
    }
    if str_eq(short, "grass") {
        return Some(FaceTextures::uniform("short_grass"));
    }
    if str_eq(short, "tall_grass") {
        return Some(FaceTextures::uniform("tall_grass_top"));
    }
    if str_eq(short, "fern") {
        return Some(FaceTextures::uniform("fern"));
    }
    if str_eq(short, "large_fern") {
        return Some(FaceTextures::uniform("large_fern_top"));
    }
    if str_eq(short, "dead_bush") {
        return Some(FaceTextures::uniform("dead_bush"));
    }
    if str_eq(short, "seagrass") {
        return Some(FaceTextures::uniform("seagrass"));
    }
    if str_eq(short, "tall_seagrass") {
        return Some(FaceTextures::uniform("tall_seagrass_top"));
    }
    if str_eq(short, "kelp") {
        return Some(FaceTextures::uniform("kelp"));
    }
    if str_eq(short, "kelp_plant") {
        return Some(FaceTextures::uniform("kelp_plant"));
    }
    if str_eq(short, "hanging_roots") {
        return Some(FaceTextures::uniform("hanging_roots"));
    }
    if str_eq(short, "azalea") {
        return Some(FaceTextures::column("azalea_top", "azalea_top", "azalea_side"));
    }
    if str_eq(short, "flowering_azalea") {
        return Some(FaceTextures::column("flowering_azalea_top", "flowering_azalea_top", "flowering_azalea_side"));
    }
    if str_eq(short, "moss_carpet") {
        return Some(FaceTextures::uniform("moss_block"));
    }
    if str_eq(short, "crimson_roots") {
        return Some(FaceTextures::uniform("crimson_roots"));
    }
    if str_eq(short, "warped_roots") {
        return Some(FaceTextures::uniform("warped_roots"));
    }
    if str_eq(short, "nether_sprouts") {
        return Some(FaceTextures::uniform("nether_sprouts"));
    }
    if str_eq(short, "wheat") {
        return Some(FaceTextures::uniform("wheat_stage7"));
    }
    if str_eq(short, "carrots") {
        return Some(FaceTextures::uniform("carrots_stage3"));
    }
    if str_eq(short, "potatoes") {
        return Some(FaceTextures::uniform("potatoes_stage3"));
    }
    if str_eq(short, "beetroots") {
        return Some(FaceTextures::uniform("beetroots_stage3"));
    }
    if str_eq(short, "pumpkin_stem") {
        return Some(FaceTextures::uniform("pumpkin_stem"));
    }
    if str_eq(short, "melon_stem") {
        return Some(FaceTextures::uniform("melon_stem"));
    }
    if str_eq(short, "nether_wart") {
        return Some(FaceTextures::uniform("nether_wart_stage2"));
    }
    if str_eq(short, "cocoa") {
        return Some(FaceTextures::uniform("cocoa_stage2"));
    }
    if str_eq(short, "sweet_berry_bush") {
        return Some(FaceTextures::uniform("sweet_berry_bush_stage3"));
    }
    if str_eq(short, "torchflower_crop") {
        return Some(FaceTextures::uniform("torchflower_crop_stage1"));
    }
    if str_eq(short, "cactus") {
        return Some(FaceTextures::column("cactus_top", "cactus_bottom", "cactus_side"));
    }
    if str_eq(short, "lily_pad") {
        return Some(FaceTextures::uniform("lily_pad"));
    }
    if str_eq(short, "vine") {
        return Some(FaceTextures::uniform("vine"));
    }
    if str_eq(short, "cobweb") {
        return Some(FaceTextures::uniform("cobweb"));
    }
    if str_eq(short, "ladder") {
        return Some(FaceTextures::uniform("ladder"));
    }
    if str_eq(short, "bamboo") {
        return Some(FaceTextures::uniform("bamboo_stalk"));
    }
    None
}

/// Rows 441 to 480 of the face table.
pub open spec fn table_rows_12(s: Seq<char>) -> Option<FaceNames> {
    if s == "torch"@ {
        Some(uniform_names("torch"@))
    } else if s == "wall_torch"@ {
        Some(uniform_names("torch"@))
    } else if s == "soul_torch"@ {
        Some(uniform_names("soul_torch"@))
    } else if s == "soul_wall_torch"@ {
        Some(uniform_names("soul_torch"@))
    } else if s == "redstone_torch"@ {
        Some(uniform_names("redstone_torch"@))
    } else if s == "redstone_wall_torch"@ {
        Some(uniform_names("redstone_torch"@))
    } else if s == "lantern"@ {
        Some(uniform_names("lantern"@))
    } else if s == "soul_lantern"@ {
        Some(uniform_names("soul_lantern"@))
    } else if s == "sea_pickle"@ {
        Some(uniform_names("sea_pickle"@))
    } else if s == "end_rod"@ {
        Some(uniform_names("end_rod"@))
    } else if s == "conduit"@ {
        Some(uniform_names("conduit"@))
    } else if s == "beacon"@ {
        Some(uniform_names("beacon"@))
    } else if s == "redstone_lamp"@ {
        Some(uniform_names("redstone_lamp"@))
    } else if s == "chest"@ {
        Some(uniform_names("oak_planks"@))
    } else if s == "trapped_chest"@ {
        Some(uniform_names("oak_planks"@))
    } else if s == "ender_chest"@ {
        Some(uniform_names("obsidian"@))
    } else if s == "barrel"@ {
        Some(column_names("barrel_top"@, "barrel_bottom"@, "barrel_side"@))
    } else if s == "shulker_box"@ {
        Some(uniform_names("shulker_top"@))
    } else if s == "white_shulker_box"@ {
        Some(uniform_names("shulker_top"@))
    } else if s == "orange_shulker_box"@ {
        Some(uniform_names("shulker_top"@))
    } else if s == "magenta_shulker_box"@ {
        Some(uniform_names("shulker_top"@))
    } else if s == "light_blue_shulker_box"@ {
        Some(uniform_names("shulker_top"@))
    } else if s == "yellow_shulker_box"@ {
        Some(uniform_names("shulker_top"@))
    } else if s == "lime_shulker_box"@ {
        Some(uniform_names("shulker_top"@))
    } else if s == "pink_shulker_box"@ {
        Some(uniform_names("shulker_top"@))
    } else if s == "gray_shulker_box"@ {
        Some(uniform_names("shulker_top"@))
    } else if s == "light_gray_shulker_box"@ {
        Some(uniform_names("shulker_top"@))
    } else if s == "cyan_shulker_box"@ {
        Some(uniform_names("shulker_top"@))
    } else if s == "purple_shulker_box"@ {
        Some(uniform_names("shulker_top"@))
    } else if s == "blue_shulker_box"@ {
        Some(uniform_names("shulker_top"@))
    } else if s == "brown_shulker_box"@ {
        Some(uniform_names("shulker_top"@))
    } else if s == "green_shulker_box"@ {
        Some(uniform_names("shulker_top"@))
    } else if s == "red_shulker_box"@ {
        Some(uniform_names("shulker_top"@))
    } else if s == "black_shulker_box"@ {
        Some(uniform_names("shulker_top"@))
    } else if s == "cartography_table"@ {
        Some(face_names("cartography_table_top"@, "oak_planks"@, "cartography_table_side1"@, "cartography_table_side2"@, "cartography_table_side3"@, "cartography_table_side3"@))
    } else if s == "fletching_table"@ {
        Some(face_names("fletching_table_top"@, "birch_planks"@, "fletching_table_front"@, "fletching_table_side"@, "fletching_table_side"@, "fletching_table_front"@))
    } else if s == "loom"@ {
        Some(face_names("loom_top"@, "oak_planks"@, "loom_front"@, "loom_side"@, "loom_side"@, "loom_side"@))
    } else if s == "smithing_table"@ {
        Some(face_names("smithing_table_top"@, "oak_planks"@, "smithing_table_front"@, "smithing_table_side"@, "smithing_table_side"@, "smithing_table_front"@))
    } else if s == "lectern"@ {
        Some(column_names("lectern_top"@, "oak_planks"@, "lectern_front"@))
    } else if s == "composter"@ {
        Some(column_names("composter_top"@, "composter_bottom"@, "composter_side"@))
    } else {
        None
    }
}

fn lookup_rows_12(short: &str) -> (r: Option<FaceTextures>)
    ensures
        names_of(r) == table_rows_12(short@),
{
    if str_eq(short, "torch") {
        return Some(FaceTextures::uniform("torch"));
    }
    if str_eq(short, "wall_torch") {
        return Some(FaceTextures::uniform("torch"));
    }
    if str_eq(short, "soul_torch") {
        return Some(FaceTextures::uniform("soul_torch"));
    }
    if str_eq(short, "soul_wall_torch") {
        return Some(FaceTextures::uniform("soul_torch"));
    }
    if str_eq(short, "redstone_torch") {
        return Some(FaceTextures::uniform("redstone_torch"));
    }
    if str_eq(short, "redstone_wall_torch") {
        return Some(FaceTextures::uniform("redstone_torch"));
    }
    if str_eq(short, "lantern") {
        return Some(FaceTextures::uniform("lantern"));
    }
    if str_eq(short, "soul_lantern") {
        return Some(FaceTextures::uniform("soul_lantern"));
    }
    if str_eq(short, "sea_pickle") {
        return Some(FaceTextures::uniform("sea_pickle"));
    }
    if str_eq(short, "end_rod") {
        return Some(FaceTextures::uniform("end_rod"));
    }
    if str_eq(short, "conduit") {
        return Some(FaceTextures::uniform("conduit"));
    }
    if str_eq(short, "beacon") {
        return Some(FaceTextures::uniform("beacon"));
    }
    if str_eq(short, "redstone_lamp") {
        return Some(FaceTextures::uniform("redstone_lamp"));
    }
    if str_eq(short, "chest") {
        return Some(FaceTextures::uniform("oak_planks"));
    }
    if str_eq(short, "trapped_chest") {
        return Some(FaceTextures::uniform("oak_planks"));
    }
    if str_eq(short, "ender_chest") {
        return Some(FaceTextures::uniform("obsidian"));
    }
    if str_eq(short, "barrel") {
        return Some(FaceTextures::column("barrel_top", "barrel_bottom", "barrel_side"));
    }
    if str_eq(short, "shulker_box") {
        return Some(FaceTextures::uniform("shulker_top"));
    }
    if str_eq(short, "white_shulker_box") {
        return Some(FaceTextures::uniform("shulker_top"));
    }
    if str_eq(short, "orange_shulker_box") {
        return Some(FaceTextures::uniform("shulker_top"));
    }
    if str_eq(short, "magenta_shulker_box") {
        return Some(FaceTextures::uniform("shulker_top"));
    }
    if str_eq(short, "light_blue_shulker_box") {
        return Some(FaceTextures::uniform("shulker_top"));
    }
    if str_eq(short, "yellow_shulker_box") {
        return Some(FaceTextures::uniform("shulker_top"));
    }
    if str_eq(short, "lime_shulker_box") {
        return Some(FaceTextures::uniform("shulker_top"));
    }
    if str_eq(short, "pink_shulker_box") {
        return Some(FaceTextures::uniform("shulker_top"));
    }
    if str_eq(short, "gray_shulker_box") {
        return Some(FaceTextures::uniform("shulker_top"));
    }
    if str_eq(short, "light_gray_shulker_box") {
        return Some(FaceTextures::uniform("shulker_top"));
    }
    if str_eq(short, "cyan_shulker_box") {
        return Some(FaceTextures::uniform("shulker_top"));
    }
    if str_eq(short, "purple_shulker_box") {
        return Some(FaceTextures::uniform("shulker_top"));
    }
    if str_eq(short, "blue_shulker_box") {
        return Some(FaceTextures::uniform("shulker_top"));
    }
    if str_eq(short, "brown_shulker_box") {
        return Some(FaceTextures::uniform("shulker_top"));
    }
    if str_eq(short, "green_shulker_box") {
        return Some(FaceTextures::uniform("shulker_top"));
    }
    if str_eq(short, "red_shulker_box") {
        return Some(FaceTextures::uniform("shulker_top"));
    }
    if str_eq(short, "black_shulker_box") {
        return Some(FaceTextures::uniform("shulker_top"));
    }
    if str_eq(short, "cartography_table") {
        return Some(FaceTextures::six("cartography_table_top", "oak_planks", "cartography_table_side1", "cartography_table_side2", "cartography_table_side3", "cartography_table_side3"));
    }
    if str_eq(short, "fletching_table") {
        return Some(FaceTextures::six("fletching_table_top", "birch_planks", "fletching_table_front", "fletching_table_side", "fletching_table_side", "fletching_table_front"));
    }
    if str_eq(short, "loom") {
        return Some(FaceTextures::six("loom_top", "oak_planks", "loom_front", "loom_side", "loom_side", "loom_side"));
    }
    if str_eq(short, "smithing_table") {
        return Some(FaceTextures::six("smithing_table_top", "oak_planks", "smithing_table_front", "smithing_table_side", "smithing_table_side", "smithing_table_front"));
    }
    if str_eq(short, "lectern") {
        return Some(FaceTextures::column("lectern_top", "oak_planks", "lectern_front"));
    }
    if str_eq(short, "composter") {
        return Some(FaceTextures::column("composter_top", "composter_bottom", "composter_side"));
    }
    None
}

/// Rows 481 to 520 of the face table.
pub open spec fn table_rows_13(s: Seq<char>) -> Option<FaceNames> {
    if s == "grindstone"@ {
        Some(uniform_names("grindstone_side"@))
    } else if s == "stonecutter"@ {
        Some(column_names("stonecutter_top"@, "stone"@, "stonecutter_side"@))
    } else if s == "bell"@ {
        Some(uniform_names("bell_body"@))
    } else if s == "beehive"@ {
        Some(column_names("beehive_end"@, "beehive_end"@, "beehive_side"@))
    } else if s == "bee_nest"@ {
        Some(column_names("bee_nest_end"@, "bee_nest_end"@, "bee_nest_side"@))
    } else if s == "cauldron"@ {
        Some(column_names("cauldron_top"@, "cauldron_bottom"@, "cauldron_side"@))
    } else if s == "lava_cauldron"@ {
        Some(column_names("cauldron_top"@, "cauldron_bottom"@, "cauldron_side"@))
    } else if s == "water_cauldron"@ {
        Some(column_names("cauldron_top"@, "cauldron_bottom"@, "cauldron_side"@))
    } else if s == "powder_snow_cauldron"@ {
        Some(column_names("cauldron_top"@, "cauldron_bottom"@, "cauldron_side"@))
    } else if s == "jukebox"@ {
        Some(column_names("jukebox_top"@, "oak_planks"@, "jukebox_side"@))
    } else if s == "note_block"@ {
        Some(uniform_names("note_block"@))
    } else if s == "enchanting_table"@ {
        Some(column_names("enchanting_table_top"@, "enchanting_table_bottom"@, "enchanting_table_side"@))
    } else if s == "brewing_stand"@ {
        Some(column_names("brewing_stand_base"@, "brewing_stand_base"@, "brewing_stand"@))
    } else if s == "campfire"@ {
        Some(uniform_names("campfire_log_lit"@))
    } else if s == "soul_campfire"@ {
        Some(uniform_names("soul_campfire_log_lit"@))
    } else if s == "anvil"@ {
        Some(column_names("anvil_top"@, "anvil_base"@, "anvil_base"@))
    } else if s == "chipped_anvil"@ {
        Some(column_names("chipped_anvil_top"@, "anvil_base"@, "anvil_base"@))
    } else if s == "damaged_anvil"@ {
        Some(column_names("damaged_anvil_top"@, "anvil_base"@, "anvil_base"@))
    } else if s == "flower_pot"@ {
        Some(uniform_names("flower_pot"@))
    } else if s == "observer"@ {
        Some(column_names("observer_top"@, "observer_back"@, "observer_side"@))
    } else if s == "piston"@ {
        Some(column_names("piston_top_normal"@, "piston_bottom"@, "piston_side"@))
    } else if s == "sticky_piston"@ {
        Some(column_names("piston_top_sticky"@, "piston_bottom"@, "piston_side"@))
    } else if s == "piston_head"@ {
        Some(uniform_names("piston_top_normal"@))
    } else if s == "dispenser"@ {
        Some(column_names("furnace_top"@, "furnace_top"@, "dispenser_front_horizontal"@))
    } else if s == "dropper"@ {
        Some(column_names("furnace_top"@, "furnace_top"@, "dropper_front_horizontal"@))
    } else if s == "hopper"@ {
        Some(column_names("hopper_top"@, "hopper_outside"@, "hopper_outside"@))
    } else if s == "daylight_detector"@ {
        Some(column_names("daylight_detector_top"@, "oak_planks"@, "daylight_detector_side"@))
    } else if s == "target"@ {
        Some(column_names("target_top"@, "target_top"@, "target_side"@))
    } else if s == "slime_block"@ {
        Some(uniform_names("slime_block"@))
    } else if s == "honey_block"@ {
        Some(column_names("honey_block_top"@, "honey_block_bottom"@, "honey_block_side"@))
    } else if s == "honeycomb_block"@ {
        Some(uniform_names("honeycomb_block"@))
    } else if s == "stone_pressure_plate"@ {
        Some(uniform_names("stone"@))
    } else if s == "stone_button"@ {
        Some(uniform_names("stone"@))
    } else if s == "oak_pressure_plate"@ {
        Some(uniform_names("oak_planks"@))
    } else if s == "oak_button"@ {
        Some(uniform_names("oak_planks"@))
    } else if s == "spruce_pressure_plate"@ {
        Some(uniform_names("spruce_planks"@))
    } else if s == "spruce_button"@ {
        Some(uniform_names("spruce_planks"@))
    } else if s == "birch_pressure_plate"@ {
        Some(uniform_names("birch_planks"@))
    } else if s == "birch_button"@ {
        Some(uniform_names("birch_planks"@))
    } else if s == "jungle_pressure_plate"@ {
        Some(uniform_names("jungle_planks"@))
    } else {
        None
    }
}

fn lookup_rows_13(short: &str) -> (r: Option<FaceTextures>)
    ensures
        names_of(r) == table_rows_13(short@),
{
    if str_eq(short, "grindstone") {
        return Some(FaceTextures::uniform("grindstone_side"));
    }
    if str_eq(short, "stonecutter") {
        return Some(FaceTextures::column("stonecutter_top", "stone", "stonecutter_side"));
    }
    if str_eq(short, "bell") {
        return Some(FaceTextures::uniform("bell_body"));
    }
    if str_eq(short, "beehive") {
        return Some(FaceTextures::column("beehive_end", "beehive_end", "beehive_side"));
    }
    if str_eq(short, "bee_nest") {
        return Some(FaceTextures::column("bee_nest_end", "bee_nest_end", "bee_nest_side"));
    }
    if str_eq(short, "cauldron") {
        return Some(FaceTextures::column("cauldron_top", "cauldron_bottom", "cauldron_side"));
    }
    if str_eq(short, "lava_cauldron") {
        return Some(FaceTextures::column("cauldron_top", "cauldron_bottom", "cauldron_side"));
    }
    if str_eq(short, "water_cauldron") {
        return Some(FaceTextures::column("cauldron_top", "cauldron_bottom", "cauldron_side"));
    }
    if str_eq(short, "powder_snow_cauldron") {
        return Some(FaceTextures::column("cauldron_top", "cauldron_bottom", "cauldron_side"));
    }
    if str_eq(short, "jukebox") {
        return Some(FaceTextures::column("jukebox_top", "oak_planks", "jukebox_side"));
    }
    if str_eq(short, "note_block") {
        return Some(FaceTextures::uniform("note_block"));
    }
    if str_eq(short, "enchanting_table") {
        return Some(FaceTextures::column("enchanting_table_top", "enchanting_table_bottom", "enchanting_table_side"));
    }
    if str_eq(short, "brewing_stand") {
        return Some(FaceTextures::column("brewing_stand_base", "brewing_stand_base", "brewing_stand"));
    }
    if str_eq(short, "campfire") {
        return Some(FaceTextures::uniform("campfire_log_lit"));
    }
    if str_eq(short, "soul_campfire") {
        return Some(FaceTextures::uniform("soul_campfire_log_lit"));
    }
    if str_eq(short, "anvil") {
        return Some(FaceTextures::column("anvil_top", "anvil_base", "anvil_base"));
    }
    if str_eq(short, "chipped_anvil") {
        return Some(FaceTextures::column("chipped_anvil_top", "anvil_base", "anvil_base"));
    }
    if str_eq(short, "damaged_anvil") {
        return Some(FaceTextures::column("damaged_anvil_top", "anvil_base", "anvil_base"));
    }
    if str_eq(short, "flower_pot") {
        return Some(FaceTextures::uniform("flower_pot"));
    }
    if str_eq(short, "observer") {
        return Some(FaceTextures::column("observer_top", "observer_back", "observer_side"));
    }
    if str_eq(short, "piston") {
        return Some(FaceTextures::column("piston_top_normal", "piston_bottom", "piston_side"));
    }
    if str_eq(short, "sticky_piston") {
        return Some(FaceTextures::column("piston_top_sticky", "piston_bottom", "piston_side"));
    }
    if str_eq(short, "piston_head") {
        return Some(FaceTextures::uniform("piston_top_normal"));
    }
    if str_eq(short, "dispenser") {
        return Some(FaceTextures::column("furnace_top", "furnace_top", "dispenser_front_horizontal"));
    }
    if str_eq(short, "dropper") {
        return Some(FaceTextures::column("furnace_top", "furnace_top", "dropper_front_horizontal"));
    }
    if str_eq(short, "hopper") {
        return Some(FaceTextures::column("hopper_top", "hopper_outside", "hopper_outside"));
    }
    if str_eq(short, "daylight_detector") {
        return Some(FaceTextures::column("daylight_detector_top", "oak_planks", "daylight_detector_side"));
    }
    if str_eq(short, "target") {
        return Some(FaceTextures::column("target_top", "target_top", "target_side"));
    }
    if str_eq(short, "slime_block") {
        return Some(FaceTextures::uniform("slime_block"));
    }
    if str_eq(short, "honey_block") {
        return Some(FaceTextures::column("honey_block_top", "honey_block_bottom", "honey_block_side"));
    }
    if str_eq(short, "honeycomb_block") {
        return Some(FaceTextures::uniform("honeycomb_block"));
    }
    if str_eq(short, "stone_pressure_plate") {
        return Some(FaceTextures::uniform("stone"));
    }
    if str_eq(short, "stone_button") {
        return Some(FaceTextures::uniform("stone"));
    }
    if str_eq(short, "oak_pressure_plate") {
        return Some(FaceTextures::uniform("oak_planks"));
    }
    if str_eq(short, "oak_button") {
        return Some(FaceTextures::uniform("oak_planks"));
    }
    if str_eq(short, "spruce_pressure_plate") {
        return Some(FaceTextures::uniform("spruce_planks"));
    }
    if str_eq(short, "spruce_button") {
        return Some(FaceTextures::uniform("spruce_planks"));
    }
    if str_eq(short, "birch_pressure_plate") {
        return Some(FaceTextures::uniform("birch_planks"));
    }
    if str_eq(short, "birch_button") {
        return Some(FaceTextures::uniform("birch_planks"));
    }
    if str_eq(short, "jungle_pressure_plate") {
        return Some(FaceTextures::uniform("jungle_planks"));
    }
    None
}

/// Rows 521 to 560 of the face table.
pub open spec fn table_rows_14(s: Seq<char>) -> Option<FaceNames> {
    if s == "jungle_button"@ {
        Some(uniform_names("jungle_planks"@))
    } else if s == "acacia_pressure_plate"@ {
        Some(uniform_names("acacia_planks"@))
    } else if s == "acacia_button"@ {
        Some(uniform_names("acacia_planks"@))
    } else if s == "dark_oak_pressure_plate"@ {
        Some(uniform_names("dark_oak_planks"@))
    } else if s == "dark_oak_button"@ {
        Some(uniform_names("dark_oak_planks"@))
    } else if s == "mangrove_pressure_plate"@ {
        Some(uniform_names("mangrove_planks"@))
    } else if s == "mangrove_button"@ {
        Some(uniform_names("mangrove_planks"@))
    } else if s == "cherry_pressure_plate"@ {
        Some(uniform_names("cherry_planks"@))
    } else if s == "cherry_button"@ {
        Some(uniform_names("cherry_planks"@))
    } else if s == "crimson_pressure_plate"@ {
        Some(uniform_names("crimson_planks"@))
    } else if s == "crimson_button"@ {
        Some(uniform_names("crimson_planks"@))
    } else if s == "warped_pressure_plate"@ {
        Some(uniform_names("warped_planks"@))
    } else if s == "warped_button"@ {
        Some(uniform_names("warped_planks"@))
    } else if s == "polished_blackstone_pressure_plate"@ {
        Some(uniform_names("polished_blackstone"@))
    } else if s == "polished_blackstone_button"@ {
        Some(uniform_names("polished_blackstone"@))
    } else if s == "heavy_weighted_pressure_plate"@ {
        Some(uniform_names("iron_block"@))
    } else if s == "light_weighted_pressure_plate"@ {
        Some(uniform_names("gold_block"@))
    } else if s == "rail"@ {
        Some(uniform_names("rail"@))
    } else if s == "powered_rail"@ {
        Some(uniform_names("powered_rail"@))
    } else if s == "detector_rail"@ {
        Some(uniform_names("detector_rail"@))
    } else if s == "activator_rail"@ {
        Some(uniform_names("activator_rail"@))
    } else if s == "bamboo_block"@ {
        Some(column_names("bamboo_block_top"@, "bamboo_block_top"@, "bamboo_block"@))
    } else if s == "stripped_bamboo_block"@ {
        Some(column_names("stripped_bamboo_block_top"@, "stripped_bamboo_block_top"@, "stripped_bamboo_block"@))
    } else if s == "oak_wood"@ {
        Some(uniform_names("oak_log"@))
    } else if s == "stripped_oak_wood"@ {
        Some(uniform_names("oak_log"@))
    } else if s == "spruce_wood"@ {
        Some(uniform_names("spruce_log"@))
    } else if s == "stripped_spruce_wood"@ {
        Some(uniform_names("spruce_log"@))
    } else if s == "birch_wood"@ {
        Some(uniform_names("birch_log"@))
    } else if s == "stripped_birch_wood"@ {
        Some(uniform_names("birch_log"@))
    } else if s == "jungle_wood"@ {
        Some(uniform_names("jungle_log"@))
    } else if s == "stripped_jungle_wood"@ {
        Some(uniform_names("jungle_log"@))
    } else if s == "acacia_wood"@ {
        Some(uniform_names("acacia_log"@))
    } else if s == "stripped_acacia_wood"@ {
        Some(uniform_names("acacia_log"@))
    } else if s == "dark_oak_wood"@ {
        Some(uniform_names("dark_oak_log"@))
    } else if s == "stripped_dark_oak_wood"@ {
        Some(uniform_names("dark_oak_log"@))
    } else if s == "mangrove_wood"@ {
        Some(uniform_names("mangrove_log"@))
    } else if s == "stripped_mangrove_wood"@ {
        Some(uniform_names("mangrove_log"@))
    } else if s == "cherry_wood"@ {
        Some(uniform_names("cherry_log"@))
    } else if s == "stripped_cherry_wood"@ {
        Some(uniform_names("cherry_log"@))
    } else if s == "crimson_hyphae"@ {
        Some(uniform_names("crimson_log"@))
    } else {
        None
    }
}

fn lookup_rows_14(short: &str) -> (r: Option<FaceTextures>)
    ensures
        names_of(r) == table_rows_14(short@),
{
    if str_eq(short, "jungle_button") {
        return Some(FaceTextures::uniform("jungle_planks"));
    }
    if str_eq(short, "acacia_pressure_plate") {
        return Some(FaceTextures::uniform("acacia_planks"));
    }
    if str_eq(short, "acacia_button") {
        return Some(FaceTextures::uniform("acacia_planks"));
    }
    if str_eq(short, "dark_oak_pressure_plate") {
        return Some(FaceTextures::uniform("dark_oak_planks"));
    }
    if str_eq(short, "dark_oak_button") {
        return Some(FaceTextures::uniform("dark_oak_planks"));
    }
    if str_eq(short, "mangrove_pressure_plate") {
        return Some(FaceTextures::uniform("mangrove_planks"));
    }
    if str_eq(short, "mangrove_button") {
        return Some(FaceTextures::uniform("mangrove_planks"));
    }
    if str_eq(short, "cherry_pressure_plate") {
        return Some(FaceTextures::uniform("cherry_planks"));
    }
    if str_eq(short, "cherry_button") {
        return Some(FaceTextures::uniform("cherry_planks"));
    }
    if str_eq(short, "crimson_pressure_plate") {
        return Some(FaceTextures::uniform("crimson_planks"));
    }
    if str_eq(short, "crimson_button") {
        return Some(FaceTextures::uniform("crimson_planks"));
    }
    if str_eq(short, "warped_pressure_plate") {
        return Some(FaceTextures::uniform("warped_planks"));
    }
    if str_eq(short, "warped_button") {
        return Some(FaceTextures::uniform("warped_planks"));
    }
    if str_eq(short, "polished_blackstone_pressure_plate") {
        return Some(FaceTextures::uniform("polished_blackstone"));
    }
    if str_eq(short, "polished_blackstone_button") {
        return Some(FaceTextures::uniform("polished_blackstone"));
    }
    if str_eq(short, "heavy_weighted_pressure_plate") {
        return Some(FaceTextures::uniform("iron_block"));
    }
    if str_eq(short, "light_weighted_pressure_plate") {
        return Some(FaceTextures::uniform("gold_block"));
    }
    if str_eq(short, "rail") {
        return Some(FaceTextures::uniform("rail"));
    }
    if str_eq(short, "powered_rail") {
        return Some(FaceTextures::uniform("powered_rail"));
    }
    if str_eq(short, "detector_rail") {
        return Some(FaceTextures::uniform("detector_rail"));
    }
    if str_eq(short, "activator_rail") {
        return Some(FaceTextures::uniform("activator_rail"));
    }
    if str_eq(short, "bamboo_block") {
        return Some(FaceTextures::column("bamboo_block_top", "bamboo_block_top", "bamboo_block"));
    }
    if str_eq(short, "stripped_bamboo_block") {
        return Some(FaceTextures::column("stripped_bamboo_block_top", "stripped_bamboo_block_top", "stripped_bamboo_block"));
    }
    if str_eq(short, "oak_wood") {
        return Some(FaceTextures::uniform("oak_log"));
    }
    if str_eq(short, "stripped_oak_wood") {
        return Some(FaceTextures::uniform("oak_log"));
    }
    if str_eq(short, "spruce_wood") {
        return Some(FaceTextures::uniform("spruce_log"));
    }
    if str_eq(short, "stripped_spruce_wood") {
        return Some(FaceTextures::uniform("spruce_log"));
    }
    if str_eq(short, "birch_wood") {
        return Some(FaceTextures::uniform("birch_log"));
    }
    if str_eq(short, "stripped_birch_wood") {
        return Some(FaceTextures::uniform("birch_log"));
    }
    if str_eq(short, "jungle_wood") {
        return Some(FaceTextures::uniform("jungle_log"));
    }
    if str_eq(short, "stripped_jungle_wood") {
        return Some(FaceTextures::uniform("jungle_log"));
    }
    if str_eq(short, "acacia_wood") {
        return Some(FaceTextures::uniform("acacia_log"));
    }
    if str_eq(short, "stripped_acacia_wood") {
        return Some(FaceTextures::uniform("acacia_log"));
    }
    if str_eq(short, "dark_oak_wood") {
        return Some(FaceTextures::uniform("dark_oak_log"));
    }
    if str_eq(short, "stripped_dark_oak_wood") {
        return Some(FaceTextures::uniform("dark_oak_log"));
    }
    if str_eq(short, "mangrove_wood") {
        return Some(FaceTextures::uniform("mangrove_log"));
    }
    if str_eq(short, "stripped_mangrove_wood") {
        return Some(FaceTextures::uniform("mangrove_log"));
    }
    if str_eq(short, "cherry_wood") {
        return Some(FaceTextures::uniform("cherry_log"));
    }
    if str_eq(short, "stripped_cherry_wood") {
        return Some(FaceTextures::uniform("cherry_log"));
    }
    if str_eq(short, "crimson_hyphae") {
        return Some(FaceTextures::uniform("crimson_log"));
    }
    None
}

/// Rows 561 to 600 of the face table.
pub open spec fn table_rows_15(s: Seq<char>) -> Option<FaceNames> {
    if s == "stripped_crimson_hyphae"@ {
        Some(uniform_names("crimson_log"@))
    } else if s == "warped_hyphae"@ {
        Some(uniform_names("warped_log"@))
    } else if s == "stripped_warped_hyphae"@ {
        Some(uniform_names("warped_log"@))
    } else if s == "warped_nylium"@ {
        Some(column_names("warped_nylium"@, "netherrack"@, "warped_nylium_side"@))
    } else if s == "crimson_nylium"@ {
        Some(column_names("crimson_nylium"@, "netherrack"@, "crimson_nylium_side"@))
    } else if s == "ancient_debris"@ {
        Some(column_names("ancient_debris_top"@, "ancient_debris_top"@, "ancient_debris_side"@))
    } else if s == "respawn_anchor"@ {
        Some(column_names("respawn_anchor_top"@, "respawn_anchor_bottom"@, "respawn_anchor_side0"@))
    } else if s == "lodestone"@ {
        Some(column_names("lodestone_top"@, "lodestone_top"@, "lodestone_side"@))
    } else if s == "gilded_blackstone"@ {
        Some(uniform_names("gilded_blackstone"@))
    } else if s == "chiseled_polished_blackstone"@ {
        Some(uniform_names("chiseled_polished_blackstone"@))
    } else if s == "polished_blackstone_bricks"@ {
        Some(uniform_names("polished_blackstone_bricks"@))
    } else if s == "cracked_polished_blackstone_bricks"@ {
        Some(uniform_names("cracked_polished_blackstone_bricks"@))
    } else if s == "end_portal_frame"@ {
        Some(column_names("end_portal_frame_top"@, "end_stone"@, "end_portal_frame_side"@))
    } else if s == "chorus_flower"@ {
        Some(uniform_names("chorus_flower"@))
    } else if s == "chorus_plant"@ {
        Some(uniform_names("chorus_plant"@))
    } else if s == "white_concrete_powder"@ {
        Some(uniform_names("white_concrete_powder"@))
    } else if s == "orange_concrete_powder"@ {
        Some(uniform_names("orange_concrete_powder"@))
    } else if s == "magenta_concrete_powder"@ {
        Some(uniform_names("magenta_concrete_powder"@))
    } else if s == "light_blue_concrete_powder"@ {
        Some(uniform_names("light_blue_concrete_powder"@))
    } else if s == "yellow_concrete_powder"@ {
        Some(uniform_names("yellow_concrete_powder"@))
    } else if s == "lime_concrete_powder"@ {
        Some(uniform_names("lime_concrete_powder"@))
    } else if s == "pink_concrete_powder"@ {
        Some(uniform_names("pink_concrete_powder"@))
    } else if s == "gray_concrete_powder"@ {
        Some(uniform_names("gray_concrete_powder"@))
    } else if s == "light_gray_concrete_powder"@ {
        Some(uniform_names("light_gray_concrete_powder"@))
    } else if s == "cyan_concrete_powder"@ {
        Some(uniform_names("cyan_concrete_powder"@))
    } else if s == "purple_concrete_powder"@ {
        Some(uniform_names("purple_concrete_powder"@))
    } else if s == "blue_concrete_powder"@ {
        Some(uniform_names("blue_concrete_powder"@))
    } else if s == "brown_concrete_powder"@ {
        Some(uniform_names("brown_concrete_powder"@))
    } else if s == "green_concrete_powder"@ {
        Some(uniform_names("green_concrete_powder"@))
    } else if s == "red_concrete_powder"@ {
        Some(uniform_names("red_concrete_powder"@))
    } else if s == "black_concrete_powder"@ {
        Some(uniform_names("black_concrete_powder"@))
    } else if s == "white_glazed_terracotta"@ {
        Some(uniform_names("white_glazed_terracotta"@))
    } else if s == "orange_glazed_terracotta"@ {
        Some(uniform_names("orange_glazed_terracotta"@))
    } else if s == "magenta_glazed_terracotta"@ {
        Some(uniform_names("magenta_glazed_terracotta"@))
    } else if s == "light_blue_glazed_terracotta"@ {
        Some(uniform_names("light_blue_glazed_terracotta"@))
    } else if s == "yellow_glazed_terracotta"@ {
        Some(uniform_names("yellow_glazed_terracotta"@))
    } else if s == "lime_glazed_terracotta"@ {
        Some(uniform_names("lime_glazed_terracotta"@))
    } else if s == "pink_glazed_terracotta"@ {
        Some(uniform_names("pink_glazed_terracotta"@))
    } else if s == "gray_glazed_terracotta"@ {
        Some(uniform_names("gray_glazed_terracotta"@))
    } else if s == "light_gray_glazed_terracotta"@ {
        Some(uniform_names("light_gray_glazed_terracotta"@))
    } else {
        None
    }
}

fn lookup_rows_15(short: &str) -> (r: Option<FaceTextures>)
    ensures
        names_of(r) == table_rows_15(short@),
{
    if str_eq(short, "stripped_crimson_hyphae") {
        return Some(FaceTextures::uniform("crimson_log"));
    }
    if str_eq(short, "warped_hyphae") {
        return Some(FaceTextures::uniform("warped_log"));
    }
    if str_eq(short, "stripped_warped_hyphae") {
        return Some(FaceTextures::uniform("warped_log"));
    }
    if str_eq(short, "warped_nylium") {
        return Some(FaceTextures::column("warped_nylium", "netherrack", "warped_nylium_side"));
    }
    if str_eq(short, "crimson_nylium") {
        return Some(FaceTextures::column("crimson_nylium", "netherrack", "crimson_nylium_side"));
    }
    if str_eq(short, "ancient_debris") {
        return Some(FaceTextures::column("ancient_debris_top", "ancient_debris_top", "ancient_debris_side"));
    }
    if str_eq(short, "respawn_anchor") {
        return Some(FaceTextures::column("respawn_anchor_top", "respawn_anchor_bottom", "respawn_anchor_side0"));
    }
    if str_eq(short, "lodestone") {
        return Some(FaceTextures::column("lodestone_top", "lodestone_top", "lodestone_side"));
    }
    if str_eq(short, "gilded_blackstone") {
        return Some(FaceTextures::uniform("gilded_blackstone"));
    }
    if str_eq(short, "chiseled_polished_blackstone") {
        return Some(FaceTextures::uniform("chiseled_polished_blackstone"));
    }
    if str_eq(short, "polished_blackstone_bricks") {
        return Some(FaceTextures::uniform("polished_blackstone_bricks"));
    }
    if str_eq(short, "cracked_polished_blackstone_bricks") {
        return Some(FaceTextures::uniform("cracked_polished_blackstone_bricks"));
    }
    if str_eq(short, "end_portal_frame") {
        return Some(FaceTextures::column("end_portal_frame_top", "end_stone", "end_portal_frame_side"));
    }
    if str_eq(short, "chorus_flower") {
        return Some(FaceTextures::uniform("chorus_flower"));
    }
    if str_eq(short, "chorus_plant") {
        return Some(FaceTextures::uniform("chorus_plant"));
    }
    if str_eq(short, "white_concrete_powder") {
        return Some(FaceTextures::uniform("white_concrete_powder"));
    }
    if str_eq(short, "orange_concrete_powder") {
        return Some(FaceTextures::uniform("orange_concrete_powder"));
    }
    if str_eq(short, "magenta_concrete_powder") {
        return Some(FaceTextures::uniform("magenta_concrete_powder"));
    }
    if str_eq(short, "light_blue_concrete_powder") {
        return Some(FaceTextures::uniform("light_blue_concrete_powder"));
    }
    if str_eq(short, "yellow_concrete_powder") {
        return Some(FaceTextures::uniform("yellow_concrete_powder"));
    }
    if str_eq(short, "lime_concrete_powder") {
        return Some(FaceTextures::uniform("lime_concrete_powder"));
    }
    if str_eq(short, "pink_concrete_powder") {
        return Some(FaceTextures::uniform("pink_concrete_powder"));
    }
    if str_eq(short, "gray_concrete_powder") {
        return Some(FaceTextures::uniform("gray_concrete_powder"));
    }
    if str_eq(short, "light_gray_concrete_powder") {
        return Some(FaceTextures::uniform("light_gray_concrete_powder"));
    }
    if str_eq(short, "cyan_concrete_powder") {
        return Some(FaceTextures::uniform("cyan_concrete_powder"));
    }
    if str_eq(short, "purple_concrete_powder") {
        return Some(FaceTextures::uniform("purple_concrete_powder"));
    }
    if str_eq(short, "blue_concrete_powder") {
        return Some(FaceTextures::uniform("blue_concrete_powder"));
    }
    if str_eq(short, "brown_concrete_powder") {
        return Some(FaceTextures::uniform("brown_concrete_powder"));
    }
    if str_eq(short, "green_concrete_powder") {
        return Some(FaceTextures::uniform("green_concrete_powder"));
    }
    if str_eq(short, "red_concrete_powder") {
        return Some(FaceTextures::uniform("red_concrete_powder"));
    }
    if str_eq(short, "black_concrete_powder") {
        return Some(FaceTextures::uniform("black_concrete_powder"));
    }
    if str_eq(short, "white_glazed_terracotta") {
        return Some(FaceTextures::uniform("white_glazed_terracotta"));
    }
    if str_eq(short, "orange_glazed_terracotta") {
        return Some(FaceTextures::uniform("orange_glazed_terracotta"));
    }
    if str_eq(short, "magenta_glazed_terracotta") {
        return Some(FaceTextures::uniform("magenta_glazed_terracotta"));
    }
    if str_eq(short, "light_blue_glazed_terracotta") {
        return Some(FaceTextures::uniform("light_blue_glazed_terracotta"));
    }
    if str_eq(short, "yellow_glazed_terracotta") {
        return Some(FaceTextures::uniform("yellow_glazed_terracotta"));
    }
    if str_eq(short, "lime_glazed_terracotta") {
        return Some(FaceTextures::uniform("lime_glazed_terracotta"));
    }
    if str_eq(short, "pink_glazed_terracotta") {
        return Some(FaceTextures::uniform("pink_glazed_terracotta"));
    }
    if str_eq(short, "gray_glazed_terracotta") {
        return Some(FaceTextures::uniform("gray_glazed_terracotta"));
    }
    if str_eq(short, "light_gray_glazed_terracotta") {
        return Some(FaceTextures::uniform("light_gray_glazed_terracotta"));
    }
    None
}

/// Rows 601 to 640 of the face table.
pub open spec fn table_rows_16(s: Seq<char>) -> Option<FaceNames> {
    if s == "cyan_glazed_terracotta"@ {
        Some(uniform_names("cyan_glazed_terracotta"@))
    } else if s == "purple_glazed_terracotta"@ {
        Some(uniform_names("purple_glazed_terracotta"@))
    } else if s == "blue_glazed_terracotta"@ {
        Some(uniform_names("blue_glazed_terracotta"@))
    } else if s == "brown_glazed_terracotta"@ {
        Some(uniform_names("brown_glazed_terracotta"@))
    } else if s == "green_glazed_terracotta"@ {
        Some(uniform_names("green_glazed_terracotta"@))
    } else if s == "red_glazed_terracotta"@ {
        Some(uniform_names("red_glazed_terracotta"@))
    } else if s == "black_glazed_terracotta"@ {
        Some(uniform_names("black_glazed_terracotta"@))
    } else if s == "sculk"@ {
        Some(uniform_names("sculk"@))
    } else if s == "sculk_catalyst"@ {
        Some(column_names("sculk_catalyst_top"@, "sculk_catalyst_bottom"@, "sculk_catalyst_side"@))
    } else if s == "sculk_shrieker"@ {
        Some(column_names("sculk_shrieker_top"@, "sculk_shrieker_bottom"@, "sculk_shrieker_side"@))
    } else if s == "sculk_sensor"@ {
        Some(column_names("sculk_sensor_top"@, "sculk_sensor_bottom"@, "sculk_sensor_side"@))
    } else if s == "sculk_vein"@ {
        Some(uniform_names("sculk_vein"@))
    } else if s == "mangrove_roots"@ {
        Some(column_names("mangrove_roots_top"@, "mangrove_roots_top"@, "mangrove_roots_side"@))
    } else if s == "glass_pane"@ {
        Some(uniform_names("glass"@))
    } else if s == "iron_bars"@ {
        Some(uniform_names("iron_bars"@))
    } else if s == "white_stained_glass_pane"@ {
        Some(uniform_names("white_stained_glass"@))
    } else if s == "orange_stained_glass_pane"@ {
        Some(uniform_names("orange_stained_glass"@))
    } else if s == "magenta_stained_glass_pane"@ {
        Some(uniform_names("magenta_stained_glass"@))
    } else if s == "light_blue_stained_glass_pane"@ {
        Some(uniform_names("light_blue_stained_glass"@))
    } else if s == "yellow_stained_glass_pane"@ {
        Some(uniform_names("yellow_stained_glass"@))
    } else if s == "lime_stained_glass_pane"@ {
        Some(uniform_names("lime_stained_glass"@))
    } else if s == "pink_stained_glass_pane"@ {
        Some(uniform_names("pink_stained_glass"@))
    } else if s == "gray_stained_glass_pane"@ {
        Some(uniform_names("gray_stained_glass"@))
    } else if s == "light_gray_stained_glass_pane"@ {
        Some(uniform_names("light_gray_stained_glass"@))
    } else if s == "cyan_stained_glass_pane"@ {
        Some(uniform_names("cyan_stained_glass"@))
    } else if s == "purple_stained_glass_pane"@ {
        Some(uniform_names("purple_stained_glass"@))
    } else if s == "blue_stained_glass_pane"@ {
        Some(uniform_names("blue_stained_glass"@))
    } else if s == "brown_stained_glass_pane"@ {
        Some(uniform_names("brown_stained_glass"@))
    } else if s == "green_stained_glass_pane"@ {
        Some(uniform_names("green_stained_glass"@))
    } else if s == "red_stained_glass_pane"@ {
        Some(uniform_names("red_stained_glass"@))
    } else if s == "black_stained_glass_pane"@ {
        Some(uniform_names("black_stained_glass"@))
    } else if s == "white_stained_glass"@ {
        Some(uniform_names("white_stained_glass"@))
    } else if s == "orange_stained_glass"@ {
        Some(uniform_names("orange_stained_glass"@))
    } else if s == "magenta_stained_glass"@ {
        Some(uniform_names("magenta_stained_glass"@))
    } else if s == "light_blue_stained_glass"@ {
        Some(uniform_names("light_blue_stained_glass"@))
    } else if s == "yellow_stained_glass"@ {
        Some(uniform_names("yellow_stained_glass"@))
    } else if s == "lime_stained_glass"@ {
        Some(uniform_names("lime_stained_glass"@))
    } else if s == "pink_stained_glass"@ {
        Some(uniform_names("pink_stained_glass"@))
    } else if s == "gray_stained_glass"@ {
        Some(uniform_names("gray_stained_glass"@))
    } else if s == "light_gray_stained_glass"@ {
        Some(uniform_names("light_gray_stained_glass"@))
    } else {
        None
    }
}

fn lookup_rows_16(short: &str) -> (r: Option<FaceTextures>)
    ensures
        names_of(r) == table_rows_16(short@),
{
    if str_eq(short, "cyan_glazed_terracotta") {
        return Some(FaceTextures::uniform("cyan_glazed_terracotta"));
    }
    if str_eq(short, "purple_glazed_terracotta") {
        return Some(FaceTextures::uniform("purple_glazed_terracotta"));
    }
    if str_eq(short, "blue_glazed_terracotta") {
        return Some(FaceTextures::uniform("blue_glazed_terracotta"));
    }
    if str_eq(short, "brown_glazed_terracotta") {
        return Some(FaceTextures::uniform("brown_glazed_terracotta"));
    }
    if str_eq(short, "green_glazed_terracotta") {
        return Some(FaceTextures::uniform("green_glazed_terracotta"));
    }
    if str_eq(short, "red_glazed_terracotta") {
        return Some(FaceTextures::uniform("red_glazed_terracotta"));
    }
    if str_eq(short, "black_glazed_terracotta") {
        return Some(FaceTextures::uniform("black_glazed_terracotta"));
    }
    if str_eq(short, "sculk") {
        return Some(FaceTextures::uniform("sculk"));
    }
    if str_eq(short, "sculk_catalyst") {
        return Some(FaceTextures::column("sculk_catalyst_top", "sculk_catalyst_bottom", "sculk_catalyst_side"));
    }
    if str_eq(short, "sculk_shrieker") {
        return Some(FaceTextures::column("sculk_shrieker_top", "sculk_shrieker_bottom", "sculk_shrieker_side"));
    }
    if str_eq(short, "sculk_sensor") {
        return Some(FaceTextures::column("sculk_sensor_top", "sculk_sensor_bottom", "sculk_sensor_side"));
    }
    if str_eq(short, "sculk_vein") {
        return Some(FaceTextures::uniform("sculk_vein"));
    }
    if str_eq(short, "mangrove_roots") {
        return Some(FaceTextures::column("mangrove_roots_top", "mangrove_roots_top", "mangrove_roots_side"));
    }
    if str_eq(short, "glass_pane") {
        return Some(FaceTextures::uniform("glass"));
    }
    if str_eq(short, "iron_bars") {
        return Some(FaceTextures::uniform("iron_bars"));
    }
    if str_eq(short, "white_stained_glass_pane") {
        return Some(FaceTextures::uniform("white_stained_glass"));
    }
    if str_eq(short, "orange_stained_glass_pane") {
        return Some(FaceTextures::uniform("orange_stained_glass"));
    }
    if str_eq(short, "magenta_stained_glass_pane") {
        return Some(FaceTextures::uniform("magenta_stained_glass"));
    }
    if str_eq(short, "light_blue_stained_glass_pane") {
        return Some(FaceTextures::uniform("light_blue_stained_glass"));
    }
    if str_eq(short, "yellow_stained_glass_pane") {
        return Some(FaceTextures::uniform("yellow_stained_glass"));
    }
    if str_eq(short, "lime_stained_glass_pane") {
        return Some(FaceTextures::uniform("lime_stained_glass"));
    }
    if str_eq(short, "pink_stained_glass_pane") {
        return Some(FaceTextures::uniform("pink_stained_glass"));
    }
    if str_eq(short, "gray_stained_glass_pane") {
        return Some(FaceTextures::uniform("gray_stained_glass"));
    }
    if str_eq(short, "light_gray_stained_glass_pane") {
        return Some(FaceTextures::uniform("light_gray_stained_glass"));
    }
    if str_eq(short, "cyan_stained_glass_pane") {
        return Some(FaceTextures::uniform("cyan_stained_glass"));
    }
    if str_eq(short, "purple_stained_glass_pane") {
        return Some(FaceTextures::uniform("purple_stained_glass"));
    }
    if str_eq(short, "blue_stained_glass_pane") {
        return Some(FaceTextures::uniform("blue_stained_glass"));
    }
    if str_eq(short, "brown_stained_glass_pane") {
        return Some(FaceTextures::uniform("brown_stained_glass"));
    }
    if str_eq(short, "green_stained_glass_pane") {
        return Some(FaceTextures::uniform("green_stained_glass"));
    }
    if str_eq(short, "red_stained_glass_pane") {
        return Some(FaceTextures::uniform("red_stained_glass"));
    }
    if str_eq(short, "black_stained_glass_pane") {
        return Some(FaceTextures::uniform("black_stained_glass"));
    }
    if str_eq(short, "white_stained_glass") {
        return Some(FaceTextures::uniform("white_stained_glass"));
    }
    if str_eq(short, "orange_stained_glass") {
        return Some(FaceTextures::uniform("orange_stained_glass"));
    }
    if str_eq(short, "magenta_stained_glass") {
        return Some(FaceTextures::uniform("magenta_stained_glass"));
    }
    if str_eq(short, "light_blue_stained_glass") {
        return Some(FaceTextures::uniform("light_blue_stained_glass"));
    }
    if str_eq(short, "yellow_stained_glass") {
        return Some(FaceTextures::uniform("yellow_stained_glass"));
    }
    if str_eq(short, "lime_stained_glass") {
        return Some(FaceTextures::uniform("lime_stained_glass"));
    }
    if str_eq(short, "pink_stained_glass") {
        return Some(FaceTextures::uniform("pink_stained_glass"));
    }
    if str_eq(short, "gray_stained_glass") {
        return Some(FaceTextures::uniform("gray_stained_glass"));
    }
    if str_eq(short, "light_gray_stained_glass") {
        return Some(FaceTextures::uniform("light_gray_stained_glass"));
    }
    None
}

/// Rows 641 to 680 of the face table.
pub open spec fn table_rows_17(s: Seq<char>) -> Option<FaceNames> {
    if s == "cyan_stained_glass"@ {
        Some(uniform_names("cyan_stained_glass"@))
    } else if s == "purple_stained_glass"@ {
        Some(uniform_names("purple_stained_glass"@))
    } else if s == "blue_stained_glass"@ {
        Some(uniform_names("blue_stained_glass"@))
    } else if s == "brown_stained_glass"@ {
        Some(uniform_names("brown_stained_glass"@))
    } else if s == "green_stained_glass"@ {
        Some(uniform_names("green_stained_glass"@))
    } else if s == "red_stained_glass"@ {
        Some(uniform_names("red_stained_glass"@))
    } else if s == "black_stained_glass"@ {
        Some(uniform_names("black_stained_glass"@))
    } else if s == "oak_sign"@ {
        Some(uniform_names("oak_planks"@))
    } else if s == "oak_wall_sign"@ {
        Some(uniform_names("oak_planks"@))
    } else if s == "oak_hanging_sign"@ {
        Some(uniform_names("oak_planks"@))
    } else if s == "oak_wall_hanging_sign"@ {
        Some(uniform_names("oak_planks"@))
    } else if s == "spruce_sign"@ {
        Some(uniform_names("spruce_planks"@))
    } else if s == "spruce_wall_sign"@ {
        Some(uniform_names("spruce_planks"@))
    } else if s == "spruce_hanging_sign"@ {
        Some(uniform_names("spruce_planks"@))
    } else if s == "spruce_wall_hanging_sign"@ {
        Some(uniform_names("spruce_planks"@))
    } else if s == "birch_sign"@ {
        Some(uniform_names("birch_planks"@))
    } else if s == "birch_wall_sign"@ {
        Some(uniform_names("birch_planks"@))
    } else if s == "birch_hanging_sign"@ {
        Some(uniform_names("birch_planks"@))
    } else if s == "birch_wall_hanging_sign"@ {
        Some(uniform_names("birch_planks"@))
    } else if s == "jungle_sign"@ {
        Some(uniform_names("jungle_planks"@))
    } else if s == "jungle_wall_sign"@ {
        Some(uniform_names("jungle_planks"@))
    } else if s == "jungle_hanging_sign"@ {
        Some(uniform_names("jungle_planks"@))
    } else if s == "jungle_wall_hanging_sign"@ {
        Some(uniform_names("jungle_planks"@))
    } else if s == "acacia_sign"@ {
        Some(uniform_names("acacia_planks"@))
    } else if s == "acacia_wall_sign"@ {
        Some(uniform_names("acacia_planks"@))
    } else if s == "acacia_hanging_sign"@ {
        Some(uniform_names("acacia_planks"@))
    } else if s == "acacia_wall_hanging_sign"@ {
        Some(uniform_names("acacia_planks"@))
    } else if s == "dark_oak_sign"@ {
        Some(uniform_names("dark_oak_planks"@))
    } else if s == "dark_oak_wall_sign"@ {
        Some(uniform_names("dark_oak_planks"@))
    } else if s == "dark_oak_hanging_sign"@ {
        Some(uniform_names("dark_oak_planks"@))
    } else if s == "dark_oak_wall_hanging_sign"@ {
        Some(uniform_names("dark_oak_planks"@))
    } else if s == "mangrove_sign"@ {
        Some(uniform_names("mangrove_planks"@))
    } else if s == "mangrove_wall_sign"@ {
        Some(uniform_names("mangrove_planks"@))
    } else if s == "mangrove_hanging_sign"@ {
        Some(uniform_names("mangrove_planks"@))
    } else if s == "mangrove_wall_hanging_sign"@ {
        Some(uniform_names("mangrove_planks"@))
    } else if s == "cherry_sign"@ {
        Some(uniform_names("cherry_planks"@))
    } else if s == "cherry_wall_sign"@ {
        Some(uniform_names("cherry_planks"@))
    } else if s == "cherry_hanging_sign"@ {
        Some(uniform_names("cherry_planks"@))
    } else if s == "cherry_wall_hanging_sign"@ {
        Some(uniform_names("cherry_planks"@))
    } else if s == "bamboo_sign"@ {
        Some(uniform_names("bamboo_planks"@))
    } else {
        None
    }
}

fn lookup_rows_17(short: &str) -> (r: Option<FaceTextures>)
    ensures
        names_of(r) == table_rows_17(short@),
{
    if str_eq(short, "cyan_stained_glass") {
        return Some(FaceTextures::uniform("cyan_stained_glass"));
    }
    if str_eq(short, "purple_stained_glass") {
        return Some(FaceTextures::uniform("purple_stained_glass"));
    }
    if str_eq(short, "blue_stained_glass") {
        return Some(FaceTextures::uniform("blue_stained_glass"));
    }
    if str_eq(short, "brown_stained_glass") {
        return Some(FaceTextures::uniform("brown_stained_glass"));
    }
    if str_eq(short, "green_stained_glass") {
        return Some(FaceTextures::uniform("green_stained_glass"));
    }
    if str_eq(short, "red_stained_glass") {
        return Some(FaceTextures::uniform("red_stained_glass"));
    }
    if str_eq(short, "black_stained_glass") {
        return Some(FaceTextures::uniform("black_stained_glass"));
    }
    if str_eq(short, "oak_sign") {
        return Some(FaceTextures::uniform("oak_planks"));
    }
    if str_eq(short, "oak_wall_sign") {
        return Some(FaceTextures::uniform("oak_planks"));
    }
    if str_eq(short, "oak_hanging_sign") {
        return Some(FaceTextures::uniform("oak_planks"));
    }
    if str_eq(short, "oak_wall_hanging_sign") {
        return Some(FaceTextures::uniform("oak_planks"));
    }
    if str_eq(short, "spruce_sign") {
        return Some(FaceTextures::uniform("spruce_planks"));
    }
    if str_eq(short, "spruce_wall_sign") {
        return Some(FaceTextures::uniform("spruce_planks"));
    }
    if str_eq(short, "spruce_hanging_sign") {
        return Some(FaceTextures::uniform("spruce_planks"));
    }
    if str_eq(short, "spruce_wall_hanging_sign") {
        return Some(FaceTextures::uniform("spruce_planks"));
    }
    if str_eq(short, "birch_sign") {
        return Some(FaceTextures::uniform("birch_planks"));
    }
    if str_eq(short, "birch_wall_sign") {
        return Some(FaceTextures::uniform("birch_planks"));
    }
    if str_eq(short, "birch_hanging_sign") {
        return Some(FaceTextures::uniform("birch_planks"));
    }
    if str_eq(short, "birch_wall_hanging_sign") {
        return Some(FaceTextures::uniform("birch_planks"));
    }
    if str_eq(short, "jungle_sign") {
        return Some(FaceTextures::uniform("jungle_planks"));
    }
    if str_eq(short, "jungle_wall_sign") {
        return Some(FaceTextures::uniform("jungle_planks"));
    }
    if str_eq(short, "jungle_hanging_sign") {
        return Some(FaceTextures::uniform("jungle_planks"));
    }
    if str_eq(short, "jungle_wall_hanging_sign") {
        return Some(FaceTextures::uniform("jungle_planks"));
    }
    if str_eq(short, "acacia_sign") {
        return Some(FaceTextures::uniform("acacia_planks"));
    }
    if str_eq(short, "acacia_wall_sign") {
        return Some(FaceTextures::uniform("acacia_planks"));
    }
    if str_eq(short, "acacia_hanging_sign") {
        return Some(FaceTextures::uniform("acacia_planks"));
    }
    if str_eq(short, "acacia_wall_hanging_sign") {
        return Some(FaceTextures::uniform("acacia_planks"));
    }
    if str_eq(short, "dark_oak_sign") {
        return Some(FaceTextures::uniform("dark_oak_planks"));
    }
    if str_eq(short, "dark_oak_wall_sign") {
        return Some(FaceTextures::uniform("dark_oak_planks"));
    }
    if str_eq(short, "dark_oak_hanging_sign") {
        return Some(FaceTextures::uniform("dark_oak_planks"));
    }
    if str_eq(short, "dark_oak_wall_hanging_sign") {
        return Some(FaceTextures::uniform("dark_oak_planks"));
    }
    if str_eq(short, "mangrove_sign") {
        return Some(FaceTextures::uniform("mangrove_planks"));
    }
    if str_eq(short, "mangrove_wall_sign") {
        return Some(FaceTextures::uniform("mangrove_planks"));
    }
    if str_eq(short, "mangrove_hanging_sign") {
        return Some(FaceTextures::uniform("mangrove_planks"));
    }
    if str_eq(short, "mangrove_wall_hanging_sign") {
        return Some(FaceTextures::uniform("mangrove_planks"));
    }
    if str_eq(short, "cherry_sign") {
        return Some(FaceTextures::uniform("cherry_planks"));
    }
    if str_eq(short, "cherry_wall_sign") {
        return Some(FaceTextures::uniform("cherry_planks"));
    }
    if str_eq(short, "cherry_hanging_sign") {
        return Some(FaceTextures::uniform("cherry_planks"));
    }
    if str_eq(short, "cherry_wall_hanging_sign") {
        return Some(FaceTextures::uniform("cherry_planks"));
    }
    if str_eq(short, "bamboo_sign") {
        return Some(FaceTextures::uniform("bamboo_planks"));
    }
    None
}

/// Rows 681 to 693 of the face table.
pub open spec fn table_rows_18(s: Seq<char>) -> Option<FaceNames> {
    if s == "bamboo_wall_sign"@ {
        Some(uniform_names("bamboo_planks"@))
    } else if s == "bamboo_hanging_sign"@ {
        Some(uniform_names("bamboo_planks"@))
    } else if s == "bamboo_wall_hanging_sign"@ {
        Some(uniform_names("bamboo_planks"@))
    } else if s == "crimson_sign"@ {
        Some(uniform_names("crimson_planks"@))
    } else if s == "crimson_wall_sign"@ {
        Some(uniform_names("crimson_planks"@))
    } else if s == "crimson_hanging_sign"@ {
        Some(uniform_names("crimson_planks"@))
    } else if s == "crimson_wall_hanging_sign"@ {
        Some(uniform_names("crimson_planks"@))
    } else if s == "warped_sign"@ {
        Some(uniform_names("warped_planks"@))
    } else if s == "warped_wall_sign"@ {
        Some(uniform_names("warped_planks"@))
    } else if s == "warped_hanging_sign"@ {
        Some(uniform_names("warped_planks"@))
    } else if s == "warped_wall_hanging_sign"@ {
        Some(uniform_names("warped_planks"@))
    } else if s == "dried_kelp_block"@ {
        Some(column_names("dried_kelp_top"@, "dried_kelp_bottom"@, "dried_kelp_side"@))
    } else if s == "powder_snow"@ {
        Some(uniform_names("powder_snow"@))
    } else {
        None
    }
}

fn lookup_rows_18(short: &str) -> (r: Option<FaceTextures>)
    ensures
        names_of(r) == table_rows_18(short@),
{
    if str_eq(short, "bamboo_wall_sign") {
        return Some(FaceTextures::uniform("bamboo_planks"));
    }
    if str_eq(short, "bamboo_hanging_sign") {
        return Some(FaceTextures::uniform("bamboo_planks"));
    }
    if str_eq(short, "bamboo_wall_hanging_sign") {
        return Some(FaceTextures::uniform("bamboo_planks"));
    }
    if str_eq(short, "crimson_sign") {
        return Some(FaceTextures::uniform("crimson_planks"));
    }
    if str_eq(short, "crimson_wall_sign") {
        return Some(FaceTextures::uniform("crimson_planks"));
    }
    if str_eq(short, "crimson_hanging_sign") {
        return Some(FaceTextures::uniform("crimson_planks"));
    }
    if str_eq(short, "crimson_wall_hanging_sign") {
        return Some(FaceTextures::uniform("crimson_planks"));
    }
    if str_eq(short, "warped_sign") {
        return Some(FaceTextures::uniform("warped_planks"));
    }
    if str_eq(short, "warped_wall_sign") {
        return Some(FaceTextures::uniform("warped_planks"));
    }
    if str_eq(short, "warped_hanging_sign") {
        return Some(FaceTextures::uniform("warped_planks"));
    }
    if str_eq(short, "warped_wall_hanging_sign") {
        return Some(FaceTextures::uniform("warped_planks"));
    }
    if str_eq(short, "dried_kelp_block") {
        return Some(FaceTextures::column("dried_kelp_top", "dried_kelp_bottom", "dried_kelp_side"));
    }
    if str_eq(short, "powder_snow") {
        return Some(FaceTextures::uniform("powder_snow"));
    }
    None
}

/// The face table: the textures of the blocks it lists, `None` for any
/// other name.
pub open spec fn table_faces(s: Seq<char>) -> Option<FaceNames> {
    if table_rows_1(s) is Some {
        table_rows_1(s)
    } else if table_rows_2(s) is Some {
        table_rows_2(s)
    } else if table_rows_3(s) is Some {
        table_rows_3(s)
    } else if table_rows_4(s) is Some {
        table_rows_4(s)
    } else if table_rows_5(s) is Some {
        table_rows_5(s)
    } else if table_rows_6(s) is Some {
        table_rows_6(s)
    } else if table_rows_7(s) is Some {
        table_rows_7(s)
    } else if table_rows_8(s) is Some {
        table_rows_8(s)
    } else if table_rows_9(s) is Some {
        table_rows_9(s)
    } else if table_rows_10(s) is Some {
        table_rows_10(s)
    } else if table_rows_11(s) is Some {
        table_rows_11(s)
    } else if table_rows_12(s) is Some {
        table_rows_12(s)
    } else if table_rows_13(s) is Some {
        table_rows_13(s)
    } else if table_rows_14(s) is Some {
        table_rows_14(s)
    } else if table_rows_15(s) is Some {
        table_rows_15(s)
    } else if table_rows_16(s) is Some {
        table_rows_16(s)
    } else if table_rows_17(s) is Some {
        table_rows_17(s)
    } else if table_rows_18(s) is Some {
        table_rows_18(s)
    } else {
        None
    }
}

/// Looks a short block name up in the face table.
pub(crate) fn static_face_textures(short: &str) -> (r: Option<FaceTextures>)
    ensures
        names_of(r) == table_faces(short@),
{
    let found = lookup_rows_1(short);
    if found.is_some() {
        return found;
    }
    let found = lookup_rows_2(short);
    if found.is_some() {
        return found;
    }
    let found = lookup_rows_3(short);
    if found.is_some() {
        return found;
    }
    let found = lookup_rows_4(short);
    if found.is_some() {
        return found;
    }
    let found = lookup_rows_5(short);
    if found.is_some() {
        return found;
    }
    let found = lookup_rows_6(short);
    if found.is_some() {
        return found;
    }
    let found = lookup_rows_7(short);
    if found.is_some() {
        return found;
    }
    let found = lookup_rows_8(short);
    if found.is_some() {
        return found;
    }
    let found = lookup_rows_9(short);
    if found.is_some() {
        return found;
    }
    let found = lookup_rows_10(short);
    if found.is_some() {
        return found;
    }
    let found = lookup_rows_11(short);
    if found.is_some() {
        return found;
    }
    let found = lookup_rows_12(short);
    if found.is_some() {
        return found;
    }
    let found = lookup_rows_13(short);
    if found.is_some() {
        return found;
    }
    let found = lookup_rows_14(short);
    if found.is_some() {
        return found;
    }
    let found = lookup_rows_15(short);
    if found.is_some() {
        return found;
    }
    let found = lookup_rows_16(short);
    if found.is_some() {
        return found;
    }
    let found = lookup_rows_17(short);
    if found.is_some() {
        return found;
    }
    let found = lookup_rows_18(short);
    if found.is_some() {
        return found;
    }
    None
}
} // verus!
