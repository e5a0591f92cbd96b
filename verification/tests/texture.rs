use bedrock::texture::{alloc_atlas, apply_tint, biome_tint};

#[test]
fn atlases_hold_sixteen_tiles_a_row() {
    let (w, h, pixels) = alloc_atlas(0);
    assert_eq!((w, h), (256, 16));
    assert_eq!(pixels.len(), 256 * 16 * 4);
    let (w, h, pixels) = alloc_atlas(40);
    assert_eq!((w, h), (256, 48));
    assert!(pixels.iter().all(|&p| p == 0));
    assert_eq!(alloc_atlas(16).1, 16);
    assert_eq!(alloc_atlas(17).1, 32);
}

#[test]
fn tinting_multiplies_colour_and_keeps_alpha() {
    let mut tile = [255u8; 1024];
    tile[4] = 100;
    apply_tint(&mut tile, [0x79, 0xC0, 0x5A]);
    assert_eq!(&tile[0..4], &[0x79, 0xC0, 0x5A, 255]);
    assert_eq!(tile[4], (100u32 * 0x79 / 255) as u8);
    assert_eq!(tile[1023], 255);
}

#[test]
fn grayscale_textures_get_their_biome_colour() {
    assert_eq!(biome_tint("grass_block_top"), Some([0x79, 0xC0, 0x5A]));
    assert_eq!(biome_tint("oak_leaves"), Some([0x59, 0xAE, 0x30]));
    assert_eq!(biome_tint("lilypad"), Some([0x20, 0x80, 0x30]));
    assert_eq!(biome_tint("sugar_cane"), None);
    assert_eq!(biome_tint("jungle_leaves"), None);
}
