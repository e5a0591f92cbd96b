use bedrock::block_model::face_textures;

#[test]
fn grass_block_has_distinct_faces() {
    let ft = face_textures("minecraft:grass_block");
    assert_eq!(ft.top, "grass_block_top");
    assert_eq!(ft.bottom, "dirt");
    assert_eq!(ft.south, "grass_block_side");
}

#[test]
fn oak_log_has_distinct_top() {
    let ft = face_textures("minecraft:oak_log");
    assert_eq!(ft.top, "oak_log_top");
    assert_eq!(ft.south, "oak_log");
}

#[test]
fn unknown_block_falls_back() {
    let ft = face_textures("minecraft:mystery_block_xyz");
    assert_eq!(ft.top, "mystery_block_xyz");
    assert_eq!(ft.south, "mystery_block_xyz");
}

#[test]
fn stone_is_uniform() {
    let ft = face_textures("stone");
    assert_eq!(ft.top, "stone");
    assert_eq!(ft.bottom, "stone");
    assert_eq!(ft.east, "stone");
}

#[test]
fn face_index_mapping() {
    let ft = face_textures("minecraft:grass_block");
    assert_eq!(ft.for_face_index(0), "grass_block_top"); // +Y
    assert_eq!(ft.for_face_index(1), "dirt"); // -Y
    assert_eq!(ft.for_face_index(2), "grass_block_side"); // +X (east)
}

#[test]
fn beds_take_the_wool_of_their_colour() {
    let ft = face_textures("minecraft:red_bed");
    assert_eq!(ft.top, "red_wool");
    assert_eq!(ft.bottom, "oak_planks");
    assert_eq!(ft.west, "red_wool");
}

#[test]
fn six_sided_rows_keep_each_face() {
    let ft = face_textures("minecraft:crafting_table");
    assert_eq!(ft.top, "crafting_table_top");
    assert_eq!(ft.bottom, "oak_planks");
    assert_eq!(ft.south, "crafting_table_front");
    assert_eq!(ft.north, "crafting_table_side");
    assert_eq!(ft.west, "crafting_table_front");
    assert_eq!(ft.for_face_index(4), "crafting_table_front");
    assert_eq!(ft.for_face_index(5), "crafting_table_side");
    assert_eq!(ft.for_face_index(9), "crafting_table_top");
}

#[test]
fn stripped_logs_use_their_own_end_grain() {
    let ft = face_textures("stripped_oak_log");
    assert_eq!(ft.top, "stripped_oak_log_top");
    assert_eq!(ft.east, "stripped_oak_log");
    let last = face_textures("minecraft:powder_snow");
    assert_eq!(last.north, "powder_snow");
}
