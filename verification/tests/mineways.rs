use bedrock::mineways::{
    legacy_color_suffix, normalize_block_name, remap_pillar_face, split_texture_key,
    tint_for_atlas_swatch,
};
use bedrock::texture::biome_tint;

#[test]
fn pillar_face_remap_is_identity_for_vertical_axis() {
    for face in 0..6 {
        assert_eq!(remap_pillar_face(face, "y"), face);
        assert_eq!(remap_pillar_face(face, "unknown"), face);
    }
}

#[test]
fn pillar_face_remap_moves_end_grain_for_horizontal_axis() {
    // axis=x: end-grain belongs on the east/west faces (2, 3), not top/bottom (0, 1).
    assert_eq!(remap_pillar_face(2, "x"), 0);
    assert_eq!(remap_pillar_face(3, "x"), 1);
    for bark_face in [0, 1, 4, 5] {
        assert_eq!(remap_pillar_face(bark_face, "x"), 2);
    }

    // axis=z: end-grain belongs on the south/north faces (4, 5).
    assert_eq!(remap_pillar_face(4, "z"), 0);
    assert_eq!(remap_pillar_face(5, "z"), 1);
    for bark_face in [0, 1, 2, 3] {
        assert_eq!(remap_pillar_face(bark_face, "z"), 2);
    }
}

#[test]
fn both_tint_tables_agree() {
    // Every name mentioned by either table, checked in both directions.
    const NAMES: &[&str] = &[
        "grass_block_top", "grass_block_side_overlay", "grass_block_side",
        "short_grass", "fern", "tall_grass_top", "tall_grass_bottom",
        "large_fern_top", "large_fern_bottom", "melon_stem", "pumpkin_stem",
        "attached_melon_stem", "attached_pumpkin_stem",
        "oak_leaves", "birch_leaves", "acacia_leaves", "dark_oak_leaves",
        "mangrove_leaves", "spruce_leaves", "jungle_leaves", "cherry_leaves",
        "vine", "bush", "leaf_litter", "lily_pad", "firefly_bush", "pale_oak_leaves", "azalea_leaves",
        "moss_block", "sugar_cane", "dirt", "stone",
    ];
    // The two tables read different images, so they are allowed to differ
    // where those images differ.
    const MEASURED_EXCEPTIONS: &[&str] = &["pale_oak_leaves", "jungle_leaves"];

    let mut disagree = Vec::new();
    for name in NAMES {
        if MEASURED_EXCEPTIONS.contains(name) {
            continue;
        }
        let atlas = tint_for_atlas_swatch(name);
        let proto = biome_tint(name);
        if atlas != proto {
            disagree.push(format!("{name}: atlas={atlas:?} prototype={proto:?}"));
        }
    }
    assert!(
        disagree.is_empty(),
        "tint tables disagree, so the same block renders differently \
         depending on which path draws it:\n  {}",
        disagree.join("\n  "),
    );
}

#[test]
fn texture_keys_split_at_the_first_bar() {
    assert_eq!(split_texture_key("minecraft:wool|red"), ("minecraft:wool", Some("red")));
    assert_eq!(split_texture_key("minecraft:stone"), ("minecraft:stone", None));
    assert_eq!(split_texture_key("a|b|c"), ("a", Some("b|c")));
}

#[test]
fn legacy_names_and_colour_suffixes() {
    assert_eq!(normalize_block_name("grass_block"), "grass_block_top");
    assert_eq!(normalize_block_name("web"), "cobweb");
    assert_eq!(normalize_block_name("stone"), "stone");
    assert_eq!(legacy_color_suffix("carpet"), Some("_wool"));
    assert_eq!(legacy_color_suffix("stained_glass_pane"), Some("_stained_glass"));
    assert_eq!(legacy_color_suffix("red_wool"), None);
}

#[test]
fn atlas_tints_spare_the_composited_grass_side() {
    assert_eq!(tint_for_atlas_swatch("grass_block_side"), None);
    assert_eq!(tint_for_atlas_swatch("grass_block_top"), Some([0x79, 0xC0, 0x5A]));
    assert_eq!(tint_for_atlas_swatch("spruce_leaves"), Some([0x61, 0x99, 0x61]));
    assert_eq!(biome_tint("water"), Some([0x3F, 0x76, 0xE4]));
    assert_eq!(biome_tint("pale_oak_leaves"), Some([0x59, 0xAE, 0x30]));
    assert_eq!(tint_for_atlas_swatch("pale_oak_leaves"), None);
}

#[test]
fn texture_keys_split_back_into_name_and_colour() {
    let mut s = bedrock::chunk::BlockState::new("minecraft:wool".to_string());
    assert_eq!(split_texture_key(&s.texture_key()), ("minecraft:wool", None));
    s.set_property("color", "red");
    assert_eq!(split_texture_key(&s.texture_key()), ("minecraft:wool", Some("red")));
}

#[test]
fn tint_tables_differ_only_where_the_images_do() {
    assert_eq!(biome_tint("grass_block_top"), Some([0x79, 0xC0, 0x5A]));
    assert_eq!(biome_tint("grass_block_side"), None);
    assert_eq!(biome_tint("jungle_leaves"), None);
    assert_eq!(tint_for_atlas_swatch("jungle_leaves"), None);
    assert!(biome_tint("pale_oak_leaves").is_some());
    assert_eq!(tint_for_atlas_swatch("pale_oak_leaves"), None);
    assert!(biome_tint("water_still").is_some());
    assert_eq!(tint_for_atlas_swatch("water_still"), None);
}
