//! The per-face swatch rules: blocks whose six faces take different
//! textures, each face with the tile it falls back to when the table has no
//! such texture.

use vstd::prelude::*;
use crate::text::str_eq;

verus! {

/// Where one face of a block takes its swatch from.
#[derive(Debug, Clone, Copy)]
pub enum FaceSource {
    /// The swatch of a texture file name, or the given swatch when the
    /// table has no such texture.
    Texture(&'static str, usize),
    /// The block's own swatch.
    Block,
}

/// Rules 1 of 4 of the per-face table, faces ordered top, bottom, east,
/// west, south, north.
pub open spec fn face_rules_1(s: Seq<char>) -> Option<[FaceSource; 6]> {
    if s == "grass_block"@ {
        Some([FaceSource::Texture("grass_block_top", 0), FaceSource::Texture("dirt", 2), FaceSource::Texture("grass_block_side", 3), FaceSource::Texture("grass_block_side", 3), FaceSource::Texture("grass_block_side", 3), FaceSource::Texture("grass_block_side", 3)])
    } else if s == "grass_block_snow"@ {
        Some([FaceSource::Texture("grass_block_top", 0), FaceSource::Texture("dirt", 2), FaceSource::Texture("grass_block_snow", 68), FaceSource::Texture("grass_block_snow", 68), FaceSource::Texture("grass_block_snow", 68), FaceSource::Texture("grass_block_snow", 68)])
    } else if s == "podzol"@ {
        Some([FaceSource::Texture("podzol_top", 287), FaceSource::Texture("dirt", 2), FaceSource::Texture("podzol_side", 286), FaceSource::Texture("podzol_side", 286), FaceSource::Texture("podzol_side", 286), FaceSource::Texture("podzol_side", 286)])
    } else if s == "mycelium"@ {
        Some([FaceSource::Texture("mycelium_top", 78), FaceSource::Texture("dirt", 2), FaceSource::Texture("mycelium_side", 77), FaceSource::Texture("mycelium_side", 77), FaceSource::Texture("mycelium_side", 77), FaceSource::Texture("mycelium_side", 77)])
    } else if s == "oak_log"@ {
        Some([FaceSource::Texture("oak_log_top", 21), FaceSource::Texture("oak_log_top", 21), FaceSource::Texture("oak_log", 20), FaceSource::Texture("oak_log", 20), FaceSource::Texture("oak_log", 20), FaceSource::Texture("oak_log", 20)])
    } else if s == "spruce_log"@ {
        Some([FaceSource::Texture("spruce_log_top", 188), FaceSource::Texture("spruce_log_top", 188), FaceSource::Texture("spruce_log", 116), FaceSource::Texture("spruce_log", 116), FaceSource::Texture("spruce_log", 116), FaceSource::Texture("spruce_log", 116)])
    } else if s == "birch_log"@ {
        Some([FaceSource::Texture("birch_log_top", 187), FaceSource::Texture("birch_log_top", 187), FaceSource::Texture("birch_log", 117), FaceSource::Texture("birch_log", 117), FaceSource::Texture("birch_log", 117), FaceSource::Texture("birch_log", 117)])
    } else if s == "jungle_log"@ {
        Some([FaceSource::Texture("jungle_log_top", 189), FaceSource::Texture("jungle_log_top", 189), FaceSource::Texture("jungle_log", 153), FaceSource::Texture("jungle_log", 153), FaceSource::Texture("jungle_log", 153), FaceSource::Texture("jungle_log", 153)])
    } else if s == "acacia_log"@ {
        Some([FaceSource::Texture("acacia_log_top", 317), FaceSource::Texture("acacia_log_top", 317), FaceSource::Texture("acacia_log", 181), FaceSource::Texture("acacia_log", 181), FaceSource::Texture("acacia_log", 181), FaceSource::Texture("acacia_log", 181)])
    } else if s == "dark_oak_log"@ {
        Some([FaceSource::Texture("dark_oak_log_top", 319), FaceSource::Texture("dark_oak_log_top", 319), FaceSource::Texture("dark_oak_log", 318), FaceSource::Texture("dark_oak_log", 318), FaceSource::Texture("dark_oak_log", 318), FaceSource::Texture("dark_oak_log", 318)])
    } else if s == "mangrove_log"@ {
        Some([FaceSource::Texture("mangrove_log_top", 629), FaceSource::Texture("mangrove_log_top", 629), FaceSource::Texture("mangrove_log", 628), FaceSource::Texture("mangrove_log", 628), FaceSource::Texture("mangrove_log", 628), FaceSource::Texture("mangrove_log", 628)])
    } else if s == "cherry_log"@ {
        Some([FaceSource::Texture("cherry_log_top", 892), FaceSource::Texture("cherry_log_top", 892), FaceSource::Texture("cherry_log", 891), FaceSource::Texture("cherry_log", 891), FaceSource::Texture("cherry_log", 891), FaceSource::Texture("cherry_log", 891)])
    } else if s == "pale_oak_log"@ {
        Some([FaceSource::Texture("pale_oak_log_top", 780), FaceSource::Texture("pale_oak_log_top", 780), FaceSource::Texture("pale_oak_log", 779), FaceSource::Texture("pale_oak_log", 779), FaceSource::Texture("pale_oak_log", 779), FaceSource::Texture("pale_oak_log", 779)])
    } else if s == "stripped_oak_log"@ {
        Some([FaceSource::Block, FaceSource::Block, FaceSource::Block, FaceSource::Block, FaceSource::Block, FaceSource::Block])
    } else if s == "stripped_spruce_log"@ {
        Some([FaceSource::Texture("spruce_log_top", 188), FaceSource::Texture("spruce_log_top", 188), FaceSource::Block, FaceSource::Block, FaceSource::Block, FaceSource::Block])
    } else if s == "stripped_birch_log"@ {
        Some([FaceSource::Texture("birch_log_top", 187), FaceSource::Texture("birch_log_top", 187), FaceSource::Block, FaceSource::Block, FaceSource::Block, FaceSource::Block])
    } else if s == "stripped_jungle_log"@ {
        Some([FaceSource::Texture("jungle_log_top", 189), FaceSource::Texture("jungle_log_top", 189), FaceSource::Block, FaceSource::Block, FaceSource::Block, FaceSource::Block])
    } else if s == "stripped_acacia_log"@ {
        Some([FaceSource::Texture("acacia_log_top", 317), FaceSource::Texture("acacia_log_top", 317), FaceSource::Block, FaceSource::Block, FaceSource::Block, FaceSource::Block])
    } else if s == "stripped_dark_oak_log"@ {
        Some([FaceSource::Texture("dark_oak_log_top", 319), FaceSource::Texture("dark_oak_log_top", 319), FaceSource::Block, FaceSource::Block, FaceSource::Block, FaceSource::Block])
    } else {
        None
    }
}

fn lookup_rules_1(short: &str) -> (r: Option<[FaceSource; 6]>)
    ensures
        r == face_rules_1(short@),
{
    if str_eq(short, "grass_block") {
        return Some([FaceSource::Texture("grass_block_top", 0), FaceSource::Texture("dirt", 2), FaceSource::Texture("grass_block_side", 3), FaceSource::Texture("grass_block_side", 3), FaceSource::Texture("grass_block_side", 3), FaceSource::Texture("grass_block_side", 3)]);
    }
    if str_eq(short, "grass_block_snow") {
        return Some([FaceSource::Texture("grass_block_top", 0), FaceSource::Texture("dirt", 2), FaceSource::Texture("grass_block_snow", 68), FaceSource::Texture("grass_block_snow", 68), FaceSource::Texture("grass_block_snow", 68), FaceSource::Texture("grass_block_snow", 68)]);
    }
    if str_eq(short, "podzol") {
        return Some([FaceSource::Texture("podzol_top", 287), FaceSource::Texture("dirt", 2), FaceSource::Texture("podzol_side", 286), FaceSource::Texture("podzol_side", 286), FaceSource::Texture("podzol_side", 286), FaceSource::Texture("podzol_side", 286)]);
    }
    if str_eq(short, "mycelium") {
        return Some([FaceSource::Texture("mycelium_top", 78), FaceSource::Texture("dirt", 2), FaceSource::Texture("mycelium_side", 77), FaceSource::Texture("mycelium_side", 77), FaceSource::Texture("mycelium_side", 77), FaceSource::Texture("mycelium_side", 77)]);
    }
    if str_eq(short, "oak_log") {
        return Some([FaceSource::Texture("oak_log_top", 21), FaceSource::Texture("oak_log_top", 21), FaceSource::Texture("oak_log", 20), FaceSource::Texture("oak_log", 20), FaceSource::Texture("oak_log", 20), FaceSource::Texture("oak_log", 20)]);
    }
    if str_eq(short, "spruce_log") {
        return Some([FaceSource::Texture("spruce_log_top", 188), FaceSource::Texture("spruce_log_top", 188), FaceSource::Texture("spruce_log", 116), FaceSource::Texture("spruce_log", 116), FaceSource::Texture("spruce_log", 116), FaceSource::Texture("spruce_log", 116)]);
    }
    if str_eq(short, "birch_log") {
        return Some([FaceSource::Texture("birch_log_top", 187), FaceSource::Texture("birch_log_top", 187), FaceSource::Texture("birch_log", 117), FaceSource::Texture("birch_log", 117), FaceSource::Texture("birch_log", 117), FaceSource::Texture("birch_log", 117)]);
    }
    if str_eq(short, "jungle_log") {
        return Some([FaceSource::Texture("jungle_log_top", 189), FaceSource::Texture("jungle_log_top", 189), FaceSource::Texture("jungle_log", 153), FaceSource::Texture("jungle_log", 153), FaceSource::Texture("jungle_log", 153), FaceSource::Texture("jungle_log", 153)]);
    }
    if str_eq(short, "acacia_log") {
        return Some([FaceSource::Texture("acacia_log_top", 317), FaceSource::Texture("acacia_log_top", 317), FaceSource::Texture("acacia_log", 181), FaceSource::Texture("acacia_log", 181), FaceSource::Texture("acacia_log", 181), FaceSource::Texture("acacia_log", 181)]);
    }
    if str_eq(short, "dark_oak_log") {
        return Some([FaceSource::Texture("dark_oak_log_top", 319), FaceSource::Texture("dark_oak_log_top", 319), FaceSource::Texture("dark_oak_log", 318), FaceSource::Texture("dark_oak_log", 318), FaceSource::Texture("dark_oak_log", 318), FaceSource::Texture("dark_oak_log", 318)]);
    }
    if str_eq(short, "mangrove_log") {
        return Some([FaceSource::Texture("mangrove_log_top", 629), FaceSource::Texture("mangrove_log_top", 629), FaceSource::Texture("mangrove_log", 628), FaceSource::Texture("mangrove_log", 628), FaceSource::Texture("mangrove_log", 628), FaceSource::Texture("mangrove_log", 628)]);
    }
    if str_eq(short, "cherry_log") {
        return Some([FaceSource::Texture("cherry_log_top", 892), FaceSource::Texture("cherry_log_top", 892), FaceSource::Texture("cherry_log", 891), FaceSource::Texture("cherry_log", 891), FaceSource::Texture("cherry_log", 891), FaceSource::Texture("cherry_log", 891)]);
    }
    if str_eq(short, "pale_oak_log") {
        return Some([FaceSource::Texture("pale_oak_log_top", 780), FaceSource::Texture("pale_oak_log_top", 780), FaceSource::Texture("pale_oak_log", 779), FaceSource::Texture("pale_oak_log", 779), FaceSource::Texture("pale_oak_log", 779), FaceSource::Texture("pale_oak_log", 779)]);
    }
    if str_eq(short, "stripped_oak_log") {
        return Some([FaceSource::Block, FaceSource::Block, FaceSource::Block, FaceSource::Block, FaceSource::Block, FaceSource::Block]);
    }
    if str_eq(short, "stripped_spruce_log") {
        return Some([FaceSource::Texture("spruce_log_top", 188), FaceSource::Texture("spruce_log_top", 188), FaceSource::Block, FaceSource::Block, FaceSource::Block, FaceSource::Block]);
    }
    if str_eq(short, "stripped_birch_log") {
        return Some([FaceSource::Texture("birch_log_top", 187), FaceSource::Texture("birch_log_top", 187), FaceSource::Block, FaceSource::Block, FaceSource::Block, FaceSource::Block]);
    }
    if str_eq(short, "stripped_jungle_log") {
        return Some([FaceSource::Texture("jungle_log_top", 189), FaceSource::Texture("jungle_log_top", 189), FaceSource::Block, FaceSource::Block, FaceSource::Block, FaceSource::Block]);
    }
    if str_eq(short, "stripped_acacia_log") {
        return Some([FaceSource::Texture("acacia_log_top", 317), FaceSource::Texture("acacia_log_top", 317), FaceSource::Block, FaceSource::Block, FaceSource::Block, FaceSource::Block]);
    }
    if str_eq(short, "stripped_dark_oak_log") {
        return Some([FaceSource::Texture("dark_oak_log_top", 319), FaceSource::Texture("dark_oak_log_top", 319), FaceSource::Block, FaceSource::Block, FaceSource::Block, FaceSource::Block]);
    }
    None
}

/// Rules 2 of 4 of the per-face table, faces ordered top, bottom, east,
/// west, south, north.
pub open spec fn face_rules_2(s: Seq<char>) -> Option<[FaceSource; 6]> {
    if s == "stripped_mangrove_log"@ {
        Some([FaceSource::Texture("stripped_mangrove_log_top", 630), FaceSource::Texture("stripped_mangrove_log_top", 630), FaceSource::Texture("stripped_mangrove_log", 631), FaceSource::Texture("stripped_mangrove_log", 631), FaceSource::Texture("stripped_mangrove_log", 631), FaceSource::Texture("stripped_mangrove_log", 631)])
    } else if s == "stripped_cherry_log"@ {
        Some([FaceSource::Texture("stripped_cherry_log_top", 894), FaceSource::Texture("stripped_cherry_log_top", 894), FaceSource::Texture("stripped_cherry_log", 893), FaceSource::Texture("stripped_cherry_log", 893), FaceSource::Texture("stripped_cherry_log", 893), FaceSource::Texture("stripped_cherry_log", 893)])
    } else if s == "stripped_pale_oak_log"@ {
        Some([FaceSource::Texture("stripped_pale_oak_log_top", 782), FaceSource::Texture("stripped_pale_oak_log_top", 782), FaceSource::Texture("stripped_pale_oak_log", 781), FaceSource::Texture("stripped_pale_oak_log", 781), FaceSource::Texture("stripped_pale_oak_log", 781), FaceSource::Texture("stripped_pale_oak_log", 781)])
    } else if s == "stripped_oak_wood"@ {
        Some([FaceSource::Block, FaceSource::Block, FaceSource::Block, FaceSource::Block, FaceSource::Block, FaceSource::Block])
    } else if s == "stripped_spruce_wood"@ {
        Some([FaceSource::Block, FaceSource::Block, FaceSource::Block, FaceSource::Block, FaceSource::Block, FaceSource::Block])
    } else if s == "stripped_birch_wood"@ {
        Some([FaceSource::Block, FaceSource::Block, FaceSource::Block, FaceSource::Block, FaceSource::Block, FaceSource::Block])
    } else if s == "stripped_jungle_wood"@ {
        Some([FaceSource::Block, FaceSource::Block, FaceSource::Block, FaceSource::Block, FaceSource::Block, FaceSource::Block])
    } else if s == "stripped_acacia_wood"@ {
        Some([FaceSource::Block, FaceSource::Block, FaceSource::Block, FaceSource::Block, FaceSource::Block, FaceSource::Block])
    } else if s == "stripped_dark_oak_wood"@ {
        Some([FaceSource::Block, FaceSource::Block, FaceSource::Block, FaceSource::Block, FaceSource::Block, FaceSource::Block])
    } else if s == "barrel"@ {
        Some([FaceSource::Block, FaceSource::Block, FaceSource::Block, FaceSource::Block, FaceSource::Block, FaceSource::Block])
    } else if s == "hay_block"@ {
        Some([FaceSource::Texture("hay_block_top", 250), FaceSource::Texture("hay_block_top", 250), FaceSource::Texture("hay_block_side", 249), FaceSource::Texture("hay_block_side", 249), FaceSource::Texture("hay_block_side", 249), FaceSource::Texture("hay_block_side", 249)])
    } else if s == "bone_block"@ {
        Some([FaceSource::Texture("bone_block_top", 420), FaceSource::Texture("bone_block_top", 420), FaceSource::Texture("bone_block_side", 419), FaceSource::Texture("bone_block_side", 419), FaceSource::Texture("bone_block_side", 419), FaceSource::Texture("bone_block_side", 419)])
    } else if s == "basalt"@ {
        Some([FaceSource::Texture("basalt_top", 592), FaceSource::Texture("basalt_top", 592), FaceSource::Texture("basalt_side", 593), FaceSource::Texture("basalt_side", 593), FaceSource::Texture("basalt_side", 593), FaceSource::Texture("basalt_side", 593)])
    } else if s == "polished_basalt"@ {
        Some([FaceSource::Texture("polished_basalt_top", 594), FaceSource::Texture("polished_basalt_top", 594), FaceSource::Texture("polished_basalt_side", 595), FaceSource::Texture("polished_basalt_side", 595), FaceSource::Texture("polished_basalt_side", 595), FaceSource::Texture("polished_basalt_side", 595)])
    } else if s == "crimson_stem"@ {
        Some([FaceSource::Texture("crimson_stem_top", 568), FaceSource::Texture("crimson_stem_top", 568), FaceSource::Texture("crimson_stem", 567), FaceSource::Texture("crimson_stem", 567), FaceSource::Texture("crimson_stem", 567), FaceSource::Texture("crimson_stem", 567)])
    } else if s == "warped_stem"@ {
        Some([FaceSource::Texture("warped_stem_top", 570), FaceSource::Texture("warped_stem_top", 570), FaceSource::Texture("warped_stem", 569), FaceSource::Texture("warped_stem", 569), FaceSource::Texture("warped_stem", 569), FaceSource::Texture("warped_stem", 569)])
    } else if s == "stripped_crimson_stem"@ {
        Some([FaceSource::Texture("stripped_crimson_stem_top", 573), FaceSource::Texture("stripped_crimson_stem_top", 573), FaceSource::Texture("stripped_crimson_stem", 575), FaceSource::Texture("stripped_crimson_stem", 575), FaceSource::Texture("stripped_crimson_stem", 575), FaceSource::Texture("stripped_crimson_stem", 575)])
    } else if s == "stripped_warped_stem"@ {
        Some([FaceSource::Texture("stripped_warped_stem_top", 574), FaceSource::Texture("stripped_warped_stem_top", 574), FaceSource::Texture("stripped_warped_stem", 576), FaceSource::Texture("stripped_warped_stem", 576), FaceSource::Texture("stripped_warped_stem", 576), FaceSource::Texture("stripped_warped_stem", 576)])
    } else if s == "crimson_nylium"@ {
        Some([FaceSource::Texture("crimson_nylium", 585), FaceSource::Texture("netherrack", 103), FaceSource::Texture("crimson_nylium_side", 586), FaceSource::Texture("crimson_nylium_side", 586), FaceSource::Texture("crimson_nylium_side", 586), FaceSource::Texture("crimson_nylium_side", 586)])
    } else {
        None
    }
}

fn lookup_rules_2(short: &str) -> (r: Option<[FaceSource; 6]>)
    ensures
        r == face_rules_2(short@),
{
    if str_eq(short, "stripped_mangrove_log") {
        return Some([FaceSource::Texture("stripped_mangrove_log_top", 630), FaceSource::Texture("stripped_mangrove_log_top", 630), FaceSource::Texture("stripped_mangrove_log", 631), FaceSource::Texture("stripped_mangrove_log", 631), FaceSource::Texture("stripped_mangrove_log", 631), FaceSource::Texture("stripped_mangrove_log", 631)]);
    }
    if str_eq(short, "stripped_cherry_log") {
        return Some([FaceSource::Texture("stripped_cherry_log_top", 894), FaceSource::Texture("stripped_cherry_log_top", 894), FaceSource::Texture("stripped_cherry_log", 893), FaceSource::Texture("stripped_cherry_log", 893), FaceSource::Texture("stripped_cherry_log", 893), FaceSource::Texture("stripped_cherry_log", 893)]);
    }
    if str_eq(short, "stripped_pale_oak_log") {
        return Some([FaceSource::Texture("stripped_pale_oak_log_top", 782), FaceSource::Texture("stripped_pale_oak_log_top", 782), FaceSource::Texture("stripped_pale_oak_log", 781), FaceSource::Texture("stripped_pale_oak_log", 781), FaceSource::Texture("stripped_pale_oak_log", 781), FaceSource::Texture("stripped_pale_oak_log", 781)]);
    }
    if str_eq(short, "stripped_oak_wood") {
        return Some([FaceSource::Block, FaceSource::Block, FaceSource::Block, FaceSource::Block, FaceSource::Block, FaceSource::Block]);
    }
    if str_eq(short, "stripped_spruce_wood") {
        return Some([FaceSource::Block, FaceSource::Block, FaceSource::Block, FaceSource::Block, FaceSource::Block, FaceSource::Block]);
    }
    if str_eq(short, "stripped_birch_wood") {
        return Some([FaceSource::Block, FaceSource::Block, FaceSource::Block, FaceSource::Block, FaceSource::Block, FaceSource::Block]);
    }
    if str_eq(short, "stripped_jungle_wood") {
        return Some([FaceSource::Block, FaceSource::Block, FaceSource::Block, FaceSource::Block, FaceSource::Block, FaceSource::Block]);
    }
    if str_eq(short, "stripped_acacia_wood") {
        return Some([FaceSource::Block, FaceSource::Block, FaceSource::Block, FaceSource::Block, FaceSource::Block, FaceSource::Block]);
    }
    if str_eq(short, "stripped_dark_oak_wood") {
        return Some([FaceSource::Block, FaceSource::Block, FaceSource::Block, FaceSource::Block, FaceSource::Block, FaceSource::Block]);
    }
    if str_eq(short, "barrel") {
        return Some([FaceSource::Block, FaceSource::Block, FaceSource::Block, FaceSource::Block, FaceSource::Block, FaceSource::Block]);
    }
    if str_eq(short, "hay_block") {
        return Some([FaceSource::Texture("hay_block_top", 250), FaceSource::Texture("hay_block_top", 250), FaceSource::Texture("hay_block_side", 249), FaceSource::Texture("hay_block_side", 249), FaceSource::Texture("hay_block_side", 249), FaceSource::Texture("hay_block_side", 249)]);
    }
    if str_eq(short, "bone_block") {
        return Some([FaceSource::Texture("bone_block_top", 420), FaceSource::Texture("bone_block_top", 420), FaceSource::Texture("bone_block_side", 419), FaceSource::Texture("bone_block_side", 419), FaceSource::Texture("bone_block_side", 419), FaceSource::Texture("bone_block_side", 419)]);
    }
    if str_eq(short, "basalt") {
        return Some([FaceSource::Texture("basalt_top", 592), FaceSource::Texture("basalt_top", 592), FaceSource::Texture("basalt_side", 593), FaceSource::Texture("basalt_side", 593), FaceSource::Texture("basalt_side", 593), FaceSource::Texture("basalt_side", 593)]);
    }
    if str_eq(short, "polished_basalt") {
        return Some([FaceSource::Texture("polished_basalt_top", 594), FaceSource::Texture("polished_basalt_top", 594), FaceSource::Texture("polished_basalt_side", 595), FaceSource::Texture("polished_basalt_side", 595), FaceSource::Texture("polished_basalt_side", 595), FaceSource::Texture("polished_basalt_side", 595)]);
    }
    if str_eq(short, "crimson_stem") {
        return Some([FaceSource::Texture("crimson_stem_top", 568), FaceSource::Texture("crimson_stem_top", 568), FaceSource::Texture("crimson_stem", 567), FaceSource::Texture("crimson_stem", 567), FaceSource::Texture("crimson_stem", 567), FaceSource::Texture("crimson_stem", 567)]);
    }
    if str_eq(short, "warped_stem") {
        return Some([FaceSource::Texture("warped_stem_top", 570), FaceSource::Texture("warped_stem_top", 570), FaceSource::Texture("warped_stem", 569), FaceSource::Texture("warped_stem", 569), FaceSource::Texture("warped_stem", 569), FaceSource::Texture("warped_stem", 569)]);
    }
    if str_eq(short, "stripped_crimson_stem") {
        return Some([FaceSource::Texture("stripped_crimson_stem_top", 573), FaceSource::Texture("stripped_crimson_stem_top", 573), FaceSource::Texture("stripped_crimson_stem", 575), FaceSource::Texture("stripped_crimson_stem", 575), FaceSource::Texture("stripped_crimson_stem", 575), FaceSource::Texture("stripped_crimson_stem", 575)]);
    }
    if str_eq(short, "stripped_warped_stem") {
        return Some([FaceSource::Texture("stripped_warped_stem_top", 574), FaceSource::Texture("stripped_warped_stem_top", 574), FaceSource::Texture("stripped_warped_stem", 576), FaceSource::Texture("stripped_warped_stem", 576), FaceSource::Texture("stripped_warped_stem", 576), FaceSource::Texture("stripped_warped_stem", 576)]);
    }
    if str_eq(short, "crimson_nylium") {
        return Some([FaceSource::Texture("crimson_nylium", 585), FaceSource::Texture("netherrack", 103), FaceSource::Texture("crimson_nylium_side", 586), FaceSource::Texture("crimson_nylium_side", 586), FaceSource::Texture("crimson_nylium_side", 586), FaceSource::Texture("crimson_nylium_side", 586)]);
    }
    None
}

/// Rules 3 of 4 of the per-face table, faces ordered top, bottom, east,
/// west, south, north.
pub open spec fn face_rules_3(s: Seq<char>) -> Option<[FaceSource; 6]> {
    if s == "warped_nylium"@ {
        Some([FaceSource::Texture("warped_nylium", 587), FaceSource::Texture("netherrack", 103), FaceSource::Texture("warped_nylium_side", 588), FaceSource::Texture("warped_nylium_side", 588), FaceSource::Texture("warped_nylium_side", 588), FaceSource::Texture("warped_nylium_side", 588)])
    } else if s == "target"@ {
        Some([FaceSource::Texture("target_top", 608), FaceSource::Texture("target_top", 608), FaceSource::Texture("target_side", 609), FaceSource::Texture("target_side", 609), FaceSource::Texture("target_side", 609), FaceSource::Texture("target_side", 609)])
    } else if s == "lodestone"@ {
        Some([FaceSource::Texture("lodestone_top", 610), FaceSource::Texture("lodestone_top", 610), FaceSource::Texture("lodestone_side", 611), FaceSource::Texture("lodestone_side", 611), FaceSource::Texture("lodestone_side", 611), FaceSource::Texture("lodestone_side", 611)])
    } else if s == "observer"@ {
        Some([FaceSource::Block, FaceSource::Block, FaceSource::Block, FaceSource::Block, FaceSource::Block, FaceSource::Block])
    } else if s == "dispenser"@ {
        Some([FaceSource::Texture("furnace_top", 62), FaceSource::Texture("furnace_top", 62), FaceSource::Block, FaceSource::Block, FaceSource::Block, FaceSource::Block])
    } else if s == "dropper"@ {
        Some([FaceSource::Texture("furnace_top", 62), FaceSource::Texture("furnace_top", 62), FaceSource::Block, FaceSource::Block, FaceSource::Block, FaceSource::Block])
    } else if s == "furnace"@ {
        Some([FaceSource::Texture("furnace_top", 62), FaceSource::Texture("furnace_top", 62), FaceSource::Texture("furnace_side", 45), FaceSource::Texture("furnace_side", 45), FaceSource::Texture("furnace_side", 45), FaceSource::Texture("furnace_front", 44)])
    } else if s == "lit_furnace"@ {
        Some([FaceSource::Texture("furnace_top", 62), FaceSource::Texture("furnace_top", 62), FaceSource::Texture("furnace_side", 45), FaceSource::Texture("furnace_side", 45), FaceSource::Texture("furnace_side", 45), FaceSource::Texture("furnace_front_on", 61)])
    } else if s == "crafting_table"@ {
        Some([FaceSource::Texture("crafting_table_top", 43), FaceSource::Texture("crafting_table_bottom", 919), FaceSource::Texture("crafting_table_side", 59), FaceSource::Texture("crafting_table_side", 59), FaceSource::Texture("crafting_table_side", 59), FaceSource::Texture("crafting_table_front", 60)])
    } else if s == "bookshelf"@ {
        Some([FaceSource::Texture("oak_planks", 4), FaceSource::Texture("oak_planks", 4), FaceSource::Texture("bookshelf", 35), FaceSource::Texture("bookshelf", 35), FaceSource::Texture("bookshelf", 35), FaceSource::Texture("bookshelf", 35)])
    } else if s == "jukebox"@ {
        Some([FaceSource::Texture("jukebox_top", 75), FaceSource::Texture("jukebox_top", 75), FaceSource::Texture("jukebox_side", 74), FaceSource::Texture("jukebox_side", 74), FaceSource::Texture("jukebox_side", 74), FaceSource::Texture("jukebox_side", 74)])
    } else if s == "melon"@ {
        Some([FaceSource::Texture("melon_top", 137), FaceSource::Texture("melon_top", 137), FaceSource::Texture("melon_side", 136), FaceSource::Texture("melon_side", 136), FaceSource::Texture("melon_side", 136), FaceSource::Texture("melon_side", 136)])
    } else if s == "pumpkin"@ || s == "carved_pumpkin"@ {
        Some([FaceSource::Texture("pumpkin_top", 102), FaceSource::Texture("pumpkin_top", 102), FaceSource::Texture("pumpkin_side", 118), FaceSource::Texture("pumpkin_side", 118), FaceSource::Texture("pumpkin_side", 118), FaceSource::Texture("carved_pumpkin", 119)])
    } else if s == "jack_o_lantern"@ {
        Some([FaceSource::Texture("pumpkin_top", 102), FaceSource::Texture("pumpkin_top", 102), FaceSource::Texture("pumpkin_side", 118), FaceSource::Texture("pumpkin_side", 118), FaceSource::Texture("pumpkin_side", 118), FaceSource::Texture("jack_o_lantern", 120)])
    } else if s == "cactus"@ {
        Some([FaceSource::Texture("cactus_top", 69), FaceSource::Texture("cactus_bottom", 71), FaceSource::Texture("cactus_side", 70), FaceSource::Texture("cactus_side", 70), FaceSource::Texture("cactus_side", 70), FaceSource::Texture("cactus_side", 70)])
    } else if s == "dirt_path"@ || s == "grass_path"@ {
        Some([FaceSource::Texture("dirt_path_top", 392), FaceSource::Texture("dirt", 2), FaceSource::Texture("dirt_path_side", 393), FaceSource::Texture("dirt_path_side", 393), FaceSource::Texture("dirt_path_side", 393), FaceSource::Texture("dirt_path_side", 393)])
    } else if s == "daylight_detector"@ {
        Some([FaceSource::Texture("daylight_detector_top", 246), FaceSource::Texture("daylight_detector_top", 246), FaceSource::Texture("daylight_detector_side", 245), FaceSource::Texture("daylight_detector_side", 245), FaceSource::Texture("daylight_detector_side", 245), FaceSource::Texture("daylight_detector_side", 245)])
    } else if s == "note_block"@ {
        Some([FaceSource::Texture("note_block", 140), FaceSource::Texture("note_block", 140), FaceSource::Texture("note_block", 140), FaceSource::Texture("note_block", 140), FaceSource::Texture("note_block", 140), FaceSource::Texture("note_block", 140)])
    } else if s == "deepslate"@ {
        Some([FaceSource::Texture("deepslate_top", 664), FaceSource::Texture("deepslate_top", 664), FaceSource::Texture("deepslate", 663), FaceSource::Texture("deepslate", 663), FaceSource::Texture("deepslate", 663), FaceSource::Texture("deepslate", 663)])
    } else {
        None
    }
}

fn lookup_rules_3(short: &str) -> (r: Option<[FaceSource; 6]>)
    ensures
        r == face_rules_3(short@),
{
    if str_eq(short, "warped_nylium") {
        return Some([FaceSource::Texture("warped_nylium", 587), FaceSource::Texture("netherrack", 103), FaceSource::Texture("warped_nylium_side", 588), FaceSource::Texture("warped_nylium_side", 588), FaceSource::Texture("warped_nylium_side", 588), FaceSource::Texture("warped_nylium_side", 588)]);
    }
    if str_eq(short, "target") {
        return Some([FaceSource::Texture("target_top", 608), FaceSource::Texture("target_top", 608), FaceSource::Texture("target_side", 609), FaceSource::Texture("target_side", 609), FaceSource::Texture("target_side", 609), FaceSource::Texture("target_side", 609)]);
    }
    if str_eq(short, "lodestone") {
        return Some([FaceSource::Texture("lodestone_top", 610), FaceSource::Texture("lodestone_top", 610), FaceSource::Texture("lodestone_side", 611), FaceSource::Texture("lodestone_side", 611), FaceSource::Texture("lodestone_side", 611), FaceSource::Texture("lodestone_side", 611)]);
    }
    if str_eq(short, "observer") {
        return Some([FaceSource::Block, FaceSource::Block, FaceSource::Block, FaceSource::Block, FaceSource::Block, FaceSource::Block]);
    }
    if str_eq(short, "dispenser") {
        return Some([FaceSource::Texture("furnace_top", 62), FaceSource::Texture("furnace_top", 62), FaceSource::Block, FaceSource::Block, FaceSource::Block, FaceSource::Block]);
    }
    if str_eq(short, "dropper") {
        return Some([FaceSource::Texture("furnace_top", 62), FaceSource::Texture("furnace_top", 62), FaceSource::Block, FaceSource::Block, FaceSource::Block, FaceSource::Block]);
    }
    if str_eq(short, "furnace") {
        return Some([FaceSource::Texture("furnace_top", 62), FaceSource::Texture("furnace_top", 62), FaceSource::Texture("furnace_side", 45), FaceSource::Texture("furnace_side", 45), FaceSource::Texture("furnace_side", 45), FaceSource::Texture("furnace_front", 44)]);
    }
    if str_eq(short, "lit_furnace") {
        return Some([FaceSource::Texture("furnace_top", 62), FaceSource::Texture("furnace_top", 62), FaceSource::Texture("furnace_side", 45), FaceSource::Texture("furnace_side", 45), FaceSource::Texture("furnace_side", 45), FaceSource::Texture("furnace_front_on", 61)]);
    }
    if str_eq(short, "crafting_table") {
        return Some([FaceSource::Texture("crafting_table_top", 43), FaceSource::Texture("crafting_table_bottom", 919), FaceSource::Texture("crafting_table_side", 59), FaceSource::Texture("crafting_table_side", 59), FaceSource::Texture("crafting_table_side", 59), FaceSource::Texture("crafting_table_front", 60)]);
    }
    if str_eq(short, "bookshelf") {
        return Some([FaceSource::Texture("oak_planks", 4), FaceSource::Texture("oak_planks", 4), FaceSource::Texture("bookshelf", 35), FaceSource::Texture("bookshelf", 35), FaceSource::Texture("bookshelf", 35), FaceSource::Texture("bookshelf", 35)]);
    }
    if str_eq(short, "jukebox") {
        return Some([FaceSource::Texture("jukebox_top", 75), FaceSource::Texture("jukebox_top", 75), FaceSource::Texture("jukebox_side", 74), FaceSource::Texture("jukebox_side", 74), FaceSource::Texture("jukebox_side", 74), FaceSource::Texture("jukebox_side", 74)]);
    }
    if str_eq(short, "melon") {
        return Some([FaceSource::Texture("melon_top", 137), FaceSource::Texture("melon_top", 137), FaceSource::Texture("melon_side", 136), FaceSource::Texture("melon_side", 136), FaceSource::Texture("melon_side", 136), FaceSource::Texture("melon_side", 136)]);
    }
    if str_eq(short, "pumpkin") || str_eq(short, "carved_pumpkin") {
        return Some([FaceSource::Texture("pumpkin_top", 102), FaceSource::Texture("pumpkin_top", 102), FaceSource::Texture("pumpkin_side", 118), FaceSource::Texture("pumpkin_side", 118), FaceSource::Texture("pumpkin_side", 118), FaceSource::Texture("carved_pumpkin", 119)]);
    }
    if str_eq(short, "jack_o_lantern") {
        return Some([FaceSource::Texture("pumpkin_top", 102), FaceSource::Texture("pumpkin_top", 102), FaceSource::Texture("pumpkin_side", 118), FaceSource::Texture("pumpkin_side", 118), FaceSource::Texture("pumpkin_side", 118), FaceSource::Texture("jack_o_lantern", 120)]);
    }
    if str_eq(short, "cactus") {
        return Some([FaceSource::Texture("cactus_top", 69), FaceSource::Texture("cactus_bottom", 71), FaceSource::Texture("cactus_side", 70), FaceSource::Texture("cactus_side", 70), FaceSource::Texture("cactus_side", 70), FaceSource::Texture("cactus_side", 70)]);
    }
    if str_eq(short, "dirt_path") || str_eq(short, "grass_path") {
        return Some([FaceSource::Texture("dirt_path_top", 392), FaceSource::Texture("dirt", 2), FaceSource::Texture("dirt_path_side", 393), FaceSource::Texture("dirt_path_side", 393), FaceSource::Texture("dirt_path_side", 393), FaceSource::Texture("dirt_path_side", 393)]);
    }
    if str_eq(short, "daylight_detector") {
        return Some([FaceSource::Texture("daylight_detector_top", 246), FaceSource::Texture("daylight_detector_top", 246), FaceSource::Texture("daylight_detector_side", 245), FaceSource::Texture("daylight_detector_side", 245), FaceSource::Texture("daylight_detector_side", 245), FaceSource::Texture("daylight_detector_side", 245)]);
    }
    if str_eq(short, "note_block") {
        return Some([FaceSource::Texture("note_block", 140), FaceSource::Texture("note_block", 140), FaceSource::Texture("note_block", 140), FaceSource::Texture("note_block", 140), FaceSource::Texture("note_block", 140), FaceSource::Texture("note_block", 140)]);
    }
    if str_eq(short, "deepslate") {
        return Some([FaceSource::Texture("deepslate_top", 664), FaceSource::Texture("deepslate_top", 664), FaceSource::Texture("deepslate", 663), FaceSource::Texture("deepslate", 663), FaceSource::Texture("deepslate", 663), FaceSource::Texture("deepslate", 663)]);
    }
    None
}

/// Rules 4 of 4 of the per-face table, faces ordered top, bottom, east,
/// west, south, north.
pub open spec fn face_rules_4(s: Seq<char>) -> Option<[FaceSource; 6]> {
    if s == "ancient_debris"@ {
        Some([FaceSource::Texture("ancient_debris_top", 591), FaceSource::Texture("ancient_debris_top", 591), FaceSource::Texture("ancient_debris_side", 590), FaceSource::Texture("ancient_debris_side", 590), FaceSource::Texture("ancient_debris_side", 590), FaceSource::Texture("ancient_debris_side", 590)])
    } else if s == "shroomlight"@ {
        Some([FaceSource::Texture("shroomlight", 607), FaceSource::Texture("shroomlight", 607), FaceSource::Texture("shroomlight", 607), FaceSource::Texture("shroomlight", 607), FaceSource::Texture("shroomlight", 607), FaceSource::Texture("shroomlight", 607)])
    } else if s == "respawn_anchor"@ {
        Some([FaceSource::Texture("respawn_anchor_top", 612), FaceSource::Texture("respawn_anchor_bottom", 617), FaceSource::Texture("respawn_anchor_side0", 613), FaceSource::Texture("respawn_anchor_side0", 613), FaceSource::Texture("respawn_anchor_side0", 613), FaceSource::Texture("respawn_anchor_side0", 613)])
    } else if s == "sculk_catalyst"@ {
        Some([FaceSource::Texture("sculk_catalyst_top", 656), FaceSource::Texture("sculk_catalyst_bottom", 658), FaceSource::Texture("sculk_catalyst_side", 657), FaceSource::Texture("sculk_catalyst_side", 657), FaceSource::Texture("sculk_catalyst_side", 657), FaceSource::Texture("sculk_catalyst_side", 657)])
    } else if s == "muddy_mangrove_roots"@ {
        Some([FaceSource::Texture("muddy_mangrove_roots_top", 637), FaceSource::Texture("muddy_mangrove_roots_top", 637), FaceSource::Texture("muddy_mangrove_roots_side", 636), FaceSource::Texture("muddy_mangrove_roots_side", 636), FaceSource::Texture("muddy_mangrove_roots_side", 636), FaceSource::Texture("muddy_mangrove_roots_side", 636)])
    } else if s == "mangrove_roots"@ {
        Some([FaceSource::Texture("mangrove_roots_side", 634), FaceSource::Texture("mangrove_roots_side", 634), FaceSource::Texture("mangrove_roots_side", 634), FaceSource::Texture("mangrove_roots_side", 634), FaceSource::Texture("mangrove_roots_side", 634), FaceSource::Texture("mangrove_roots_side", 634)])
    } else if s == "copper_block"@ {
        Some([FaceSource::Texture("copper_block", 696), FaceSource::Texture("copper_block", 696), FaceSource::Texture("copper_block", 696), FaceSource::Texture("copper_block", 696), FaceSource::Texture("copper_block", 696), FaceSource::Texture("copper_block", 696)])
    } else if s == "exposed_copper"@ {
        Some([FaceSource::Texture("exposed_copper", 697), FaceSource::Texture("exposed_copper", 697), FaceSource::Texture("exposed_copper", 697), FaceSource::Texture("exposed_copper", 697), FaceSource::Texture("exposed_copper", 697), FaceSource::Texture("exposed_copper", 697)])
    } else if s == "weathered_copper"@ {
        Some([FaceSource::Texture("weathered_copper", 698), FaceSource::Texture("weathered_copper", 698), FaceSource::Texture("weathered_copper", 698), FaceSource::Texture("weathered_copper", 698), FaceSource::Texture("weathered_copper", 698), FaceSource::Texture("weathered_copper", 698)])
    } else if s == "oxidized_copper"@ {
        Some([FaceSource::Texture("oxidized_copper", 699), FaceSource::Texture("oxidized_copper", 699), FaceSource::Texture("oxidized_copper", 699), FaceSource::Texture("oxidized_copper", 699), FaceSource::Texture("oxidized_copper", 699), FaceSource::Texture("oxidized_copper", 699)])
    } else if s == "waxed_copper_block"@ {
        Some([FaceSource::Texture("waxed_copper_block", 700), FaceSource::Texture("waxed_copper_block", 700), FaceSource::Texture("waxed_copper_block", 700), FaceSource::Texture("waxed_copper_block", 700), FaceSource::Texture("waxed_copper_block", 700), FaceSource::Texture("waxed_copper_block", 700)])
    } else if s == "waxed_exposed_copper"@ {
        Some([FaceSource::Texture("waxed_exposed_copper", 701), FaceSource::Texture("waxed_exposed_copper", 701), FaceSource::Texture("waxed_exposed_copper", 701), FaceSource::Texture("waxed_exposed_copper", 701), FaceSource::Texture("waxed_exposed_copper", 701), FaceSource::Texture("waxed_exposed_copper", 701)])
    } else if s == "waxed_weathered_copper"@ {
        Some([FaceSource::Texture("waxed_weathered_copper", 702), FaceSource::Texture("waxed_weathered_copper", 702), FaceSource::Texture("waxed_weathered_copper", 702), FaceSource::Texture("waxed_weathered_copper", 702), FaceSource::Texture("waxed_weathered_copper", 702), FaceSource::Texture("waxed_weathered_copper", 702)])
    } else if s == "waxed_oxidized_copper"@ {
        Some([FaceSource::Texture("waxed_oxidized_copper", 703), FaceSource::Texture("waxed_oxidized_copper", 703), FaceSource::Texture("waxed_oxidized_copper", 703), FaceSource::Texture("waxed_oxidized_copper", 703), FaceSource::Texture("waxed_oxidized_copper", 703), FaceSource::Texture("waxed_oxidized_copper", 703)])
    } else if s == "cut_copper"@ {
        Some([FaceSource::Texture("cut_copper", 704), FaceSource::Texture("cut_copper", 704), FaceSource::Texture("cut_copper", 704), FaceSource::Texture("cut_copper", 704), FaceSource::Texture("cut_copper", 704), FaceSource::Texture("cut_copper", 704)])
    } else if s == "exposed_cut_copper"@ {
        Some([FaceSource::Texture("exposed_cut_copper", 705), FaceSource::Texture("exposed_cut_copper", 705), FaceSource::Texture("exposed_cut_copper", 705), FaceSource::Texture("exposed_cut_copper", 705), FaceSource::Texture("exposed_cut_copper", 705), FaceSource::Texture("exposed_cut_copper", 705)])
    } else if s == "weathered_cut_copper"@ {
        Some([FaceSource::Texture("weathered_cut_copper", 706), FaceSource::Texture("weathered_cut_copper", 706), FaceSource::Texture("weathered_cut_copper", 706), FaceSource::Texture("weathered_cut_copper", 706), FaceSource::Texture("weathered_cut_copper", 706), FaceSource::Texture("weathered_cut_copper", 706)])
    } else if s == "oxidized_cut_copper"@ {
        Some([FaceSource::Texture("oxidized_cut_copper", 707), FaceSource::Texture("oxidized_cut_copper", 707), FaceSource::Texture("oxidized_cut_copper", 707), FaceSource::Texture("oxidized_cut_copper", 707), FaceSource::Texture("oxidized_cut_copper", 707), FaceSource::Texture("oxidized_cut_copper", 707)])
    } else if s == "waxed_cut_copper"@ {
        Some([FaceSource::Texture("waxed_cut_copper", 708), FaceSource::Texture("waxed_cut_copper", 708), FaceSource::Texture("waxed_cut_copper", 708), FaceSource::Texture("waxed_cut_copper", 708), FaceSource::Texture("waxed_cut_copper", 708), FaceSource::Texture("waxed_cut_copper", 708)])
    } else {
        None
    }
}

fn lookup_rules_4(short: &str) -> (r: Option<[FaceSource; 6]>)
    ensures
        r == face_rules_4(short@),
{
    if str_eq(short, "ancient_debris") {
        return Some([FaceSource::Texture("ancient_debris_top", 591), FaceSource::Texture("ancient_debris_top", 591), FaceSource::Texture("ancient_debris_side", 590), FaceSource::Texture("ancient_debris_side", 590), FaceSource::Texture("ancient_debris_side", 590), FaceSource::Texture("ancient_debris_side", 590)]);
    }
    if str_eq(short, "shroomlight") {
        return Some([FaceSource::Texture("shroomlight", 607), FaceSource::Texture("shroomlight", 607), FaceSource::Texture("shroomlight", 607), FaceSource::Texture("shroomlight", 607), FaceSource::Texture("shroomlight", 607), FaceSource::Texture("shroomlight", 607)]);
    }
    if str_eq(short, "respawn_anchor") {
        return Some([FaceSource::Texture("respawn_anchor_top", 612), FaceSource::Texture("respawn_anchor_bottom", 617), FaceSource::Texture("respawn_anchor_side0", 613), FaceSource::Texture("respawn_anchor_side0", 613), FaceSource::Texture("respawn_anchor_side0", 613), FaceSource::Texture("respawn_anchor_side0", 613)]);
    }
    if str_eq(short, "sculk_catalyst") {
        return Some([FaceSource::Texture("sculk_catalyst_top", 656), FaceSource::Texture("sculk_catalyst_bottom", 658), FaceSource::Texture("sculk_catalyst_side", 657), FaceSource::Texture("sculk_catalyst_side", 657), FaceSource::Texture("sculk_catalyst_side", 657), FaceSource::Texture("sculk_catalyst_side", 657)]);
    }
    if str_eq(short, "muddy_mangrove_roots") {
        return Some([FaceSource::Texture("muddy_mangrove_roots_top", 637), FaceSource::Texture("muddy_mangrove_roots_top", 637), FaceSource::Texture("muddy_mangrove_roots_side", 636), FaceSource::Texture("muddy_mangrove_roots_side", 636), FaceSource::Texture("muddy_mangrove_roots_side", 636), FaceSource::Texture("muddy_mangrove_roots_side", 636)]);
    }
    if str_eq(short, "mangrove_roots") {
        return Some([FaceSource::Texture("mangrove_roots_side", 634), FaceSource::Texture("mangrove_roots_side", 634), FaceSource::Texture("mangrove_roots_side", 634), FaceSource::Texture("mangrove_roots_side", 634), FaceSource::Texture("mangrove_roots_side", 634), FaceSource::Texture("mangrove_roots_side", 634)]);
    }
    if str_eq(short, "copper_block") {
        return Some([FaceSource::Texture("copper_block", 696), FaceSource::Texture("copper_block", 696), FaceSource::Texture("copper_block", 696), FaceSource::Texture("copper_block", 696), FaceSource::Texture("copper_block", 696), FaceSource::Texture("copper_block", 696)]);
    }
    if str_eq(short, "exposed_copper") {
        return Some([FaceSource::Texture("exposed_copper", 697), FaceSource::Texture("exposed_copper", 697), FaceSource::Texture("exposed_copper", 697), FaceSource::Texture("exposed_copper", 697), FaceSource::Texture("exposed_copper", 697), FaceSource::Texture("exposed_copper", 697)]);
    }
    if str_eq(short, "weathered_copper") {
        return Some([FaceSource::Texture("weathered_copper", 698), FaceSource::Texture("weathered_copper", 698), FaceSource::Texture("weathered_copper", 698), FaceSource::Texture("weathered_copper", 698), FaceSource::Texture("weathered_copper", 698), FaceSource::Texture("weathered_copper", 698)]);
    }
    if str_eq(short, "oxidized_copper") {
        return Some([FaceSource::Texture("oxidized_copper", 699), FaceSource::Texture("oxidized_copper", 699), FaceSource::Texture("oxidized_copper", 699), FaceSource::Texture("oxidized_copper", 699), FaceSource::Texture("oxidized_copper", 699), FaceSource::Texture("oxidized_copper", 699)]);
    }
    if str_eq(short, "waxed_copper_block") {
        return Some([FaceSource::Texture("waxed_copper_block", 700), FaceSource::Texture("waxed_copper_block", 700), FaceSource::Texture("waxed_copper_block", 700), FaceSource::Texture("waxed_copper_block", 700), FaceSource::Texture("waxed_copper_block", 700), FaceSource::Texture("waxed_copper_block", 700)]);
    }
    if str_eq(short, "waxed_exposed_copper") {
        return Some([FaceSource::Texture("waxed_exposed_copper", 701), FaceSource::Texture("waxed_exposed_copper", 701), FaceSource::Texture("waxed_exposed_copper", 701), FaceSource::Texture("waxed_exposed_copper", 701), FaceSource::Texture("waxed_exposed_copper", 701), FaceSource::Texture("waxed_exposed_copper", 701)]);
    }
    if str_eq(short, "waxed_weathered_copper") {
        return Some([FaceSource::Texture("waxed_weathered_copper", 702), FaceSource::Texture("waxed_weathered_copper", 702), FaceSource::Texture("waxed_weathered_copper", 702), FaceSource::Texture("waxed_weathered_copper", 702), FaceSource::Texture("waxed_weathered_copper", 702), FaceSource::Texture("waxed_weathered_copper", 702)]);
    }
    if str_eq(short, "waxed_oxidized_copper") {
        return Some([FaceSource::Texture("waxed_oxidized_copper", 703), FaceSource::Texture("waxed_oxidized_copper", 703), FaceSource::Texture("waxed_oxidized_copper", 703), FaceSource::Texture("waxed_oxidized_copper", 703), FaceSource::Texture("waxed_oxidized_copper", 703), FaceSource::Texture("waxed_oxidized_copper", 703)]);
    }
    if str_eq(short, "cut_copper") {
        return Some([FaceSource::Texture("cut_copper", 704), FaceSource::Texture("cut_copper", 704), FaceSource::Texture("cut_copper", 704), FaceSource::Texture("cut_copper", 704), FaceSource::Texture("cut_copper", 704), FaceSource::Texture("cut_copper", 704)]);
    }
    if str_eq(short, "exposed_cut_copper") {
        return Some([FaceSource::Texture("exposed_cut_copper", 705), FaceSource::Texture("exposed_cut_copper", 705), FaceSource::Texture("exposed_cut_copper", 705), FaceSource::Texture("exposed_cut_copper", 705), FaceSource::Texture("exposed_cut_copper", 705), FaceSource::Texture("exposed_cut_copper", 705)]);
    }
    if str_eq(short, "weathered_cut_copper") {
        return Some([FaceSource::Texture("weathered_cut_copper", 706), FaceSource::Texture("weathered_cut_copper", 706), FaceSource::Texture("weathered_cut_copper", 706), FaceSource::Texture("weathered_cut_copper", 706), FaceSource::Texture("weathered_cut_copper", 706), FaceSource::Texture("weathered_cut_copper", 706)]);
    }
    if str_eq(short, "oxidized_cut_copper") {
        return Some([FaceSource::Texture("oxidized_cut_copper", 707), FaceSource::Texture("oxidized_cut_copper", 707), FaceSource::Texture("oxidized_cut_copper", 707), FaceSource::Texture("oxidized_cut_copper", 707), FaceSource::Texture("oxidized_cut_copper", 707), FaceSource::Texture("oxidized_cut_copper", 707)]);
    }
    if str_eq(short, "waxed_cut_copper") {
        return Some([FaceSource::Texture("waxed_cut_copper", 708), FaceSource::Texture("waxed_cut_copper", 708), FaceSource::Texture("waxed_cut_copper", 708), FaceSource::Texture("waxed_cut_copper", 708), FaceSource::Texture("waxed_cut_copper", 708), FaceSource::Texture("waxed_cut_copper", 708)]);
    }
    None
}

/// The per-face rule of a block, if it has one.
pub open spec fn face_rule(s: Seq<char>) -> Option<[FaceSource; 6]> {
    if face_rules_1(s) is Some {
        face_rules_1(s)
    } else {
        if face_rules_2(s) is Some {
            face_rules_2(s)
        } else {
            if face_rules_3(s) is Some {
                face_rules_3(s)
            } else {
                if face_rules_4(s) is Some {
                    face_rules_4(s)
                } else {
                    None
                }
            }
        }
    }
}

/// The per-face rule of a short block name, if it has one.
pub fn lookup_face_rule(short: &str) -> (r: Option<[FaceSource; 6]>)
    ensures
        r == face_rule(short@),
{
    let found = lookup_rules_1(short);
    if found.is_some() {
        return found;
    }
    let found = lookup_rules_2(short);
    if found.is_some() {
        return found;
    }
    let found = lookup_rules_3(short);
    if found.is_some() {
        return found;
    }
    lookup_rules_4(short)
}

} // verus!
