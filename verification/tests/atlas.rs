use bedrock::assets_extractor::{asset_entry, AssetKind, VanillaAssets};
use bedrock::jar_textures::JarTextureLoader;
use bedrock::mineways::{decode_atlas, jar_tile};
use bedrock::swatch::{get_swatch_for_block, mineways_face_tiles, resolve_texture_keys, tint_biome_swatches, SwatchTable};
use bedrock::texture::{append_tiles, block_tile, collect_unique, TileSet};

fn png_of(rgba: [u8; 4]) -> Vec<u8> {
    let img = image::RgbaImage::from_pixel(16, 16, image::Rgba(rgba));
    let mut out = std::io::Cursor::new(Vec::new());
    img.write_to(&mut out, image::ImageFormat::Png).unwrap();
    out.into_inner()
}

fn table(names: &[&str]) -> SwatchTable {
    SwatchTable {
        tiles: names
            .iter()
            .enumerate()
            .map(|(i, n)| ((i % 16) as u32, (i / 16) as u32, n.to_string()))
            .collect(),
        definitions: vec![("Mossy Thing".to_string(), 3, 2)],
    }
}

#[test]
fn unique_names_are_sorted_and_air_stands_in_for_none() {
    let out = collect_unique(vec!["b".into(), "a".into(), "b".into()]);
    assert_eq!(out, vec!["a".to_string(), "b".to_string()]);
    assert_eq!(collect_unique(Vec::new()), vec!["minecraft:air".to_string()]);
}

#[test]
fn raw_tilesets_cover_no_names() {
    let set = TileSet::from_raw(vec![1, 2, 3, 4], 1, 1);
    assert!(set.names().is_empty());
    assert_eq!((set.width, set.height), (1, 1));
    assert_eq!(set.tile_index("minecraft:stone"), 0);
}

#[test]
fn real_atlas_uses_jar_tiles_and_the_fallback() {
    let loader = JarTextureLoader::from_textures(
        vec![("stone".to_string(), png_of([10, 20, 30, 255]))],
        "1.21".to_string(),
    )
    .unwrap();
    let names = vec!["minecraft:stone".to_string(), "minecraft:dirt".to_string()];
    let set = TileSet::build_real(names, &loader, &[], |_n: &String| [7u8; 1024]);
    assert_eq!(set.names(), &["minecraft:dirt".to_string(), "minecraft:stone".to_string()]);
    assert_eq!(set.tile_index("minecraft:stone"), 1);
    assert_eq!(set.tile_index("minecraft:nope"), 0);
    assert_eq!((set.width, set.height), (256, 16));
    // Slot 0 (dirt) comes from the fallback, slot 1 (stone) from the JAR.
    assert_eq!(&set.pixels[0..4], &[7, 7, 7, 7]);
    assert_eq!(&set.pixels[64..68], &[10, 20, 30, 255]);
    // Second pixel row of slot 1.
    let row1 = 256 * 4 + 64;
    assert_eq!(&set.pixels[row1..row1 + 4], &[10, 20, 30, 255]);
    // Slot 2 onwards stays empty.
    assert_eq!(&set.pixels[128..132], &[0, 0, 0, 0]);
}

#[test]
fn grayscale_jar_textures_are_tinted() {
    let loader = JarTextureLoader::from_textures(
        vec![("oak_leaves".to_string(), png_of([255, 255, 255, 255]))],
        "1.21".to_string(),
    )
    .unwrap();
    let tile = block_tile(&loader, &[], "minecraft:oak_leaves").unwrap();
    assert_eq!(&tile[0..4], &[0x59, 0xAE, 0x30, 255]);
    assert!(block_tile(&loader, &[], "minecraft:stone").is_none());
    // Faces resolved from the vanilla definitions pick the texture.
    let faces = vec![(
        "stone".to_string(),
        bedrock::block_model::FaceTextures {
            top: "oak_leaves".into(),
            bottom: "x".into(),
            south: "x".into(),
            north: "x".into(),
            east: "x".into(),
            west: "x".into(),
        },
    )];
    assert_eq!(&block_tile(&loader, &faces, "minecraft:stone").unwrap()[0..4], &[0x59, 0xAE, 0x30, 255]);
}

#[test]
fn jar_entries_are_sorted_into_blockstates_and_models() {
    assert_eq!(
        asset_entry("assets/minecraft/blockstates/stone.json"),
        Some((AssetKind::Blockstate, "stone"))
    );
    assert_eq!(
        asset_entry("assets/minecraft/models/block/stone.json"),
        Some((AssetKind::Model, "block/stone"))
    );
    assert_eq!(asset_entry("assets/minecraft/models/block/stone.png"), None);
    assert_eq!(asset_entry("data/minecraft/tags/x.json"), None);

    let assets = VanillaAssets::from_entries(
        vec![
            ("assets/minecraft/blockstates/stone.json".into(), "{a}".into()),
            ("assets/minecraft/models/block/stone.json".into(), "{b}".into()),
            ("pack.mcmeta".into(), "{c}".into()),
        ],
        "1.21".into(),
        "client.jar",
    )
    .unwrap();
    assert_eq!(assets.blockstate("stone"), Some("{a}"));
    assert_eq!(assets.model("block/stone"), Some("{b}"));
    assert_eq!(assets.model("stone"), None);
    assert_eq!(assets.version, "1.21");

    let err = VanillaAssets::from_entries(Vec::new(), "1.21".into(), "client.jar").err().unwrap();
    assert_eq!(err, "No blockstates or models found in JAR client.jar");
}

#[test]
fn swatches_come_from_names_rules_and_fallbacks() {
    let t = table(&[
        "grass_block_top",
        "stone",
        "dirt",
        "grass_block_side",
        "red_wool",
        "white_wool",
        "oak_planks",
        "stone_bricks",
    ]);
    assert_eq!(get_swatch_for_block(&t, "minecraft:stone", None), Some([1; 6]));
    assert_eq!(get_swatch_for_block(&t, "minecraft:grass_block", None), Some([0, 2, 3, 3, 3, 3]));
    assert_eq!(get_swatch_for_block(&t, "minecraft:wool", Some("red")), Some([4; 6]));
    assert_eq!(get_swatch_for_block(&t, "minecraft:wool", Some("mauve")), Some([5; 6]));
    assert_eq!(get_swatch_for_block(&t, "minecraft:oak_fence", None), Some([6; 6]));
    assert_eq!(get_swatch_for_block(&t, "minecraft:stone_brick_slab", None), Some([7; 6]));
    assert_eq!(get_swatch_for_block(&t, "minecraft:mossy_thing", None), Some([35; 6]));
    assert_eq!(get_swatch_for_block(&t, "minecraft:unobtainium", None), None);
    // Per-face defaults apply when the table lacks the named texture.
    assert_eq!(get_swatch_for_block(&t, "minecraft:podzol", None), Some([287, 2, 286, 286, 286, 286]));
}

#[test]
fn texture_keys_split_into_resolved_and_unmapped() {
    let t = table(&["stone", "red_wool"]);
    let keys: Vec<String> = ["minecraft:stone", "minecraft:air", "minecraft:zzz", "minecraft:aaa", "minecraft:zzz", "minecraft:wool|red"]
        .iter()
        .map(|s| s.to_string())
        .collect();
    let (resolved, unmapped) = resolve_texture_keys(&t, &keys);
    assert_eq!(
        resolved,
        vec![
            ("minecraft:stone".to_string(), [0; 6]),
            ("minecraft:wool|red".to_string(), [1; 6]),
        ]
    );
    assert_eq!(unmapped, vec!["aaa".to_string(), "zzz".to_string()]);
}

#[test]
fn biome_swatches_are_tinted_once() {
    // Tile 0 is listed twice; tile 1 is not tintable; tile 2 lies outside.
    let t = SwatchTable {
        tiles: vec![
            (0, 0, "grass_block_top".to_string()),
            (0, 0, "oak_leaves".to_string()),
            (1, 0, "stone".to_string()),
            (5, 0, "grass_block_top".to_string()),
        ],
        definitions: Vec::new(),
    };
    let (w, h) = (32u32, 16u32);
    let mut pixels = vec![255u8; (w * h * 4) as usize];
    tint_biome_swatches(&t, &mut pixels, w, h);
    assert_eq!(&pixels[0..4], &[0x79, 0xC0, 0x5A, 255]);
    let last_of_tile0 = ((15 * w + 15) * 4) as usize;
    assert_eq!(&pixels[last_of_tile0..last_of_tile0 + 4], &[0x79, 0xC0, 0x5A, 255]);
    assert_eq!(&pixels[64..68], &[255, 255, 255, 255]);
}

#[test]
fn texture_atlases_keep_the_given_order() {
    let loader = JarTextureLoader::from_textures(
        vec![("stone".to_string(), png_of([10, 20, 30, 255]))],
        "1.21".to_string(),
    )
    .unwrap();
    let set = TileSet::build_textures(vec!["zzz".to_string(), "stone".to_string()], &loader, |_n: &String| [9u8; 1024]);
    assert_eq!(set.names(), &["zzz".to_string(), "stone".to_string()]);
    assert_eq!(&set.pixels[0..4], &[9, 9, 9, 9]);
    assert_eq!(&set.pixels[64..68], &[10, 20, 30, 255]);
}

#[test]
fn jar_tiles_take_the_first_candidate_and_the_atlas_tint() {
    let loader = JarTextureLoader::from_textures(
        vec![
            ("foo_side".to_string(), png_of([1, 2, 3, 255])),
            ("foo_top".to_string(), png_of([4, 5, 6, 255])),
            ("oak_leaves".to_string(), png_of([255, 255, 255, 255])),
        ],
        "1.21".to_string(),
    )
    .unwrap();
    let (name, tile) = jar_tile(&loader, "foo").unwrap();
    assert_eq!(name, "foo_top");
    assert_eq!(&tile[0..4], &[4, 5, 6, 255]);
    let (name, tile) = jar_tile(&loader, "oak_leaves").unwrap();
    assert_eq!(name, "oak_leaves");
    assert_eq!(&tile[0..4], &[0x59, 0xAE, 0x30, 255]);
    assert!(jar_tile(&loader, "bar").is_none());
}

#[test]
fn appended_tiles_go_below_the_atlas_sixteen_to_a_row() {
    let (w, h) = (256u32, 16u32);
    let mut pixels = vec![1u8; (w * h * 4) as usize];
    let tiles = vec![[2u8; 1024]; 17];
    let new_h = append_tiles(&mut pixels, w, h, &tiles);
    assert_eq!(new_h, 48);
    assert_eq!(pixels.len(), (256 * 48 * 4) as usize);
    // The old rows are kept; the first new tile starts at pixel row 16.
    assert_eq!(pixels[0], 1);
    assert_eq!(pixels[(16 * 256 * 4) as usize], 2);
    // Tile 17 opens the next row; the rest of that row stays empty.
    assert_eq!(pixels[(32 * 256 * 4) as usize], 2);
    assert_eq!(pixels[(32 * 256 * 4 + 64) as usize], 0);
}

fn strip_png(w: u32, h: u32) -> Vec<u8> {
    // Top square red, the rest blue.
    let img = image::RgbaImage::from_fn(w, h, |_, y| if y < w { image::Rgba([255, 0, 0, 255]) } else { image::Rgba([0, 0, 255, 255]) });
    let mut out = std::io::Cursor::new(Vec::new());
    img.write_to(&mut out, image::ImageFormat::Png).unwrap();
    out.into_inner()
}

#[test]
fn animation_strips_give_their_first_frame() {
    let loader = JarTextureLoader::from_textures(
        vec![("lava_still".to_string(), strip_png(16, 64)), ("wide".to_string(), strip_png(32, 16))],
        "1.21".to_string(),
    )
    .unwrap();
    let (name, tile) = jar_tile(&loader, "lava_still").unwrap();
    assert_eq!(name, "lava_still");
    // Every pixel of the tile comes from the red top frame.
    assert!(tile.chunks(4).all(|p| p == [255, 0, 0, 255]));
    let (_, tile) = jar_tile(&loader, "wide").unwrap();
    assert!(tile.chunks(4).all(|p| p == [255, 0, 0, 255]));
}

#[test]
fn atlases_decode_to_rgba_with_their_size() {
    let png = strip_png(16, 32);
    let (pixels, w, h) = decode_atlas(&png).unwrap();
    assert_eq!((w, h), (16, 32));
    assert_eq!(pixels.len(), 16 * 32 * 4);
    assert_eq!(&pixels[0..4], &[255, 0, 0, 255]);
    assert_eq!(&pixels[pixels.len() - 4..], &[0, 0, 255, 255]);
    assert!(decode_atlas(b"not a png").is_none());
}

#[test]
fn faces_get_swatches_jar_tiles_or_stone() {
    let t = table(&["grass_block_top", "stone", "red_wool"]);
    let keys: Vec<String> = ["minecraft:stone", "minecraft:air", "minecraft:new_block", "minecraft:odd", "minecraft:stone"]
        .iter()
        .map(|s| s.to_string())
        .collect();
    let extra = vec!["new_block".to_string()];
    let tiles = mineways_face_tiles(&t, &keys, &extra, 20);
    let of = |key: &str| -> Vec<(usize, Option<(u32, u32)>)> {
        tiles.iter().filter(|(k, _, _)| k == key).map(|(_, f, c)| (*f, *c)).collect()
    };
    // Listed twice, so resolved twice.
    assert_eq!(of("minecraft:stone"), (0..12).map(|f| (f % 6, Some((1, 0)))).collect::<Vec<_>>());
    assert_eq!(of("minecraft:new_block"), (0..6).map(|f| (f, Some((0, 20)))).collect::<Vec<_>>());
    assert_eq!(of("minecraft:odd"), (0..6).map(|f| (f, Some((1, 0)))).collect::<Vec<_>>());
    assert!(of("minecraft:air").is_empty());
    assert_eq!(tiles.len(), 24);
}

#[test]
fn jar_bytes_give_their_blockstates_and_models() {
    let mut w = zip::ZipWriter::new(std::io::Cursor::new(Vec::new()));
    for (name, data) in [
        ("assets/minecraft/blockstates/stone.json", &b"{\"variants\":{}}"[..]),
        ("assets/minecraft/models/block/stone.json", &b"{}"[..]),
        ("assets/minecraft/models/block/bad.json", &[0xffu8, 0xfe][..]),
        ("assets/minecraft/textures/block/stone.png", &b"png"[..]),
    ] {
        w.start_file(name, zip::write::SimpleFileOptions::default()).unwrap();
        std::io::Write::write_all(&mut w, data).unwrap();
    }
    let jar = w.finish().unwrap().into_inner();
    let assets = VanillaAssets::extract_bytes(&jar, "1.21".to_string(), "client.jar").unwrap();
    assert_eq!(assets.blockstate("stone"), Some("{\"variants\":{}}"));
    assert_eq!(assets.model("block/stone"), Some("{}"));
    assert_eq!(assets.model("block/bad"), None);
    assert_eq!(assets.models.len(), 1);
    assert!(VanillaAssets::extract_bytes(b"nope", "1.21".to_string(), "x").is_err());
}

#[test]
fn print_unknown_block_swatches() {
    // Blocks that might be in a real world but are not explicitly handled,
    // against a small table.
    let t = table(&["stone", "deepslate", "calcite", "mud", "moss_block", "azalea_leaves", "dirt"]);
    let unknowns = &[
        "minecraft:polished_deepslate",
        "minecraft:cobbled_deepslate",
        "minecraft:deepslate_bricks",
        "minecraft:deepslate_tiles",
        "minecraft:calcite",
        "minecraft:smooth_basalt",
        "minecraft:dripstone_block",
        "minecraft:raw_iron_block",
        "minecraft:raw_copper_block",
        "minecraft:copper_ore",
        "minecraft:deepslate_iron_ore",
        "minecraft:deepslate_copper_ore",
        "minecraft:moss_block",
        "minecraft:mud",
        "minecraft:mud_bricks",
        "minecraft:packed_mud",
        "minecraft:rooted_dirt",
        "minecraft:azalea_leaves",
    ];
    for name in unknowns {
        let short = bedrock::chunk::strip_namespace(name);
        match get_swatch_for_block(&t, short, None) {
            Some(s) => {
                let tile = t.tiles.get(s[0]).map(|(c, r, _)| (*c as i64, *r as i64)).unwrap_or((-1, -1));
                println!("  {name}: swatches=[{},{},{},{}]", tile.0, tile.1, s[0], s[1]);
            },
            None => println!("  {name}: NO SWATCH FOUND"),
        }
    }
}
