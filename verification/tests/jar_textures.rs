use bedrock::jar_textures::{
    launcher_profile_pairs,
    block_texture_name, compare_versions, is_release_version, newest_version, pick_profile_version,
    JarTextureLoader, BLOCK_PREFIX,
};
use std::cmp::Ordering;

#[test]
fn version_comparison_works() {
    assert_eq!(compare_versions("1.21.1", "1.20.4"), Ordering::Greater);
    assert_eq!(compare_versions("1.8", "1.21"), Ordering::Less);
    assert_eq!(compare_versions("1.21.1", "1.21.1"), Ordering::Equal);
}

#[test]
fn texture_name_strip() {
    // Verify our prefix/suffix stripping logic.
    let full = "assets/minecraft/textures/block/grass_block_top.png";
    assert!(full.starts_with(BLOCK_PREFIX));
    assert!(full.ends_with(".png"));
    let name = &full[BLOCK_PREFIX.len()..full.len() - 4];
    assert_eq!(name, "grass_block_top");
}

#[test]
fn archive_entries_name_their_textures() {
    assert_eq!(
        block_texture_name("assets/minecraft/textures/block/grass_block_top.png"),
        Some("grass_block_top")
    );
    assert_eq!(block_texture_name("assets/minecraft/textures/item/apple.png"), None);
    assert_eq!(block_texture_name("assets/minecraft/textures/block/water.png.mcmeta"), None);
}

#[test]
fn versions_skip_fields_that_are_not_numbers() {
    assert_eq!(compare_versions("1.20", "1.20.0"), Ordering::Less);
    assert_eq!(compare_versions("1.x.2", "1.2"), Ordering::Equal);
    assert_eq!(compare_versions("+1.10", "1.9"), Ordering::Greater);
}

#[test]
fn loader_stores_and_finds_textures_by_alias() {
    assert!(JarTextureLoader::from_textures(Vec::new(), "1.21".to_owned()).is_none());
    let loader = JarTextureLoader::from_textures(
        vec![
            ("stone".to_owned(), vec![1, 2]),
            ("grass".to_owned(), vec![3]),
            ("stone".to_owned(), vec![9]),
        ],
        "1.21".to_owned(),
    )
    .unwrap();
    assert_eq!(loader.len(), 2);
    assert!(!loader.is_empty());
    assert_eq!(loader.version, "1.21");
    assert_eq!(loader.get("stone"), Some(&[9u8][..]));
    assert_eq!(loader.get("short_grass"), Some(&[3u8][..]));
    assert_eq!(loader.get("dirt"), None);
    let empty = JarTextureLoader::empty();
    assert!(empty.is_empty());
    assert_eq!(empty.version, "none");
    assert_eq!(empty.get("stone"), None);
}

#[test]
fn the_newest_release_is_picked() {
    assert!(is_release_version("1.21.1"));
    assert!(!is_release_version("24w14a"));
    let versions = vec!["1.8.9".to_owned(), "1.21".to_owned(), "1.20.4".to_owned()];
    assert_eq!(newest_version(&versions), Some("1.21".to_owned()));
    assert_eq!(newest_version(&[]), None);
    let profiles = vec![
        ("2024-01-01".to_owned(), "1.20.1".to_owned()),
        ("2024-05-01".to_owned(), "fabric-1.21".to_owned()),
        ("2024-03-01".to_owned(), "1.19".to_owned()),
    ];
    assert_eq!(pick_profile_version(&profiles), Some("1.19".to_owned()));
}

fn jar_of(entries: &[(&str, &[u8])]) -> Vec<u8> {
    let mut w = zip::ZipWriter::new(std::io::Cursor::new(Vec::new()));
    for (name, data) in entries {
        w.start_file(*name, zip::write::SimpleFileOptions::default()).unwrap();
        std::io::Write::write_all(&mut w, data).unwrap();
    }
    w.finish().unwrap().into_inner()
}

#[test]
fn jar_bytes_give_their_block_textures() {
    let jar = jar_of(&[
        ("assets/minecraft/textures/block/stone.png", b"first"),
        ("assets/minecraft/textures/item/stick.png", b"item"),
        ("assets/minecraft/textures/block/dirt.png", b"dirt"),
    ]);
    let loader = JarTextureLoader::from_jar_bytes(&jar, "1.21".to_string(), "test.jar").unwrap();
    assert_eq!(loader.get("stone"), Some(&b"first"[..]));
    assert_eq!(loader.get("dirt"), Some(&b"dirt"[..]));
    assert_eq!(loader.get("stick"), None);
    assert_eq!(loader.len(), 2);
    assert!(JarTextureLoader::from_jar_bytes(b"not a zip", "1.21".to_string(), "x").is_err());
    let none = jar_of(&[("assets/minecraft/textures/item/stick.png", b"item")]);
    assert_eq!(
        JarTextureLoader::from_jar_bytes(&none, "1.21".to_string(), "empty.jar").err(),
        Some("No block textures found in JAR empty.jar".to_string())
    );
}

#[test]
fn launcher_profiles_give_their_pairs_in_name_order() {
    let json = br#"{"profiles":{"b":{"lastUsed":"2024-01-02","lastVersionId":"1.20.1"},
        "a":{"lastVersionId":"1.21"},"c":{"lastUsed":"2025"},"d":{"lastVersionId":3}}}"#;
    assert_eq!(
        launcher_profile_pairs(json),
        Some(vec![("".to_string(), "1.21".to_string()), ("2024-01-02".to_string(), "1.20.1".to_string())])
    );
    assert_eq!(launcher_profile_pairs(b"{}"), Some(Vec::new()));
    assert_eq!(launcher_profile_pairs(b"{"), None);
}
