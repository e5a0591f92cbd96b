use bedrock::block_model::FaceTextures;
use bedrock::model_textures::{
    all_textures, blockstate_faces, elements_source, face_texture_set, face_textures_with,
    preferred_variant, resolve_textures, resolved_texture_map, ModelTextures,
};

fn model(parent: Option<&str>, textures: &[(&str, &str)]) -> ModelTextures {
    ModelTextures {
        parent: parent.map(|p| p.to_string()),
        textures: textures.iter().map(|(k, v)| (k.to_string(), v.to_string())).collect(),
        has_elements: parent.is_none(),
    }
}

fn models() -> Vec<(String, ModelTextures)> {
    vec![
        ("block/cube".to_string(), model(None, &[("particle", "#down")])),
        (
            "block/cube_column".to_string(),
            model(Some("block/cube"), &[("up", "#end"), ("down", "#end"), ("north", "#side"), ("south", "#side"), ("east", "#side"), ("west", "#side")]),
        ),
        (
            "block/oak_log".to_string(),
            model(Some("minecraft:block/cube_column"), &[("end", "minecraft:block/oak_log_top"), ("side", "block/oak_log")]),
        ),
        ("block/loop_a".to_string(), model(Some("block/loop_b"), &[("all", "#x"), ("x", "#y"), ("y", "#x")])),
        ("block/loop_b".to_string(), model(Some("block/loop_a"), &[])),
    ]
}

fn faces(f: &FaceTextures) -> [&str; 6] {
    [&f.top, &f.bottom, &f.south, &f.north, &f.east, &f.west]
}

#[test]
fn variables_are_resolved_up_the_parent_chain() {
    let ms = models();
    let f = resolve_textures("block/oak_log", &ms);
    assert_eq!(faces(&f), ["oak_log_top", "oak_log_top", "oak_log", "oak_log", "oak_log", "oak_log"]);
}

#[test]
fn cycles_and_missing_models_fall_back_to_the_model_name() {
    let ms = models();
    // The chain loops between two models and the variables loop too; the
    // unresolved reference is kept as it is.
    let f = resolve_textures("block/loop_a", &ms);
    assert_eq!(f.top, "#x");
    let missing = resolve_textures("block/nothing_here", &ms);
    assert_eq!(faces(&missing), ["nothing_here"; 6]);
}

#[test]
fn preferred_variants_follow_the_upright_rules() {
    let keys = |ks: &[&str]| ks.iter().map(|k| k.to_string()).collect::<Vec<_>>();
    assert_eq!(preferred_variant(&keys(&["axis=x", "axis=y", ""])), Some(2));
    assert_eq!(preferred_variant(&keys(&["axis=x", "normal"])), Some(1));
    assert_eq!(preferred_variant(&keys(&["axis=x", "axis=y", "axis=z"])), Some(1));
    assert_eq!(preferred_variant(&keys(&["facing=north", "facing=south"])), Some(1));
    assert_eq!(preferred_variant(&keys(&["a=1", "b=2"])), Some(0));
    assert_eq!(preferred_variant(&[]), None);
}

#[test]
fn blockstates_resolve_their_preferred_model() {
    let ms = models();
    let variants = vec![
        ("axis=x".to_string(), Some("minecraft:block/cube".to_string())),
        ("axis=y".to_string(), Some("minecraft:block/oak_log".to_string())),
    ];
    let f = blockstate_faces(&variants, &ms).unwrap();
    assert_eq!(f.top, "oak_log_top");
    let unreadable = vec![("".to_string(), None)];
    assert!(blockstate_faces(&unreadable, &ms).is_none());
}

#[test]
fn resolved_faces_win_over_built_in_ones() {
    let table = vec![(
        "stone".to_string(),
        FaceTextures {
            top: "a".into(),
            bottom: "b".into(),
            south: "c".into(),
            north: "d".into(),
            east: "e".into(),
            west: "f".into(),
        },
    )];
    assert_eq!(face_textures_with(&table, "minecraft:stone").top, "a");
    assert_eq!(face_textures_with(&table, "minecraft:oak_log").top, "oak_log_top");
}

#[test]
fn texture_maps_name_the_model_under_the_empty_variable() {
    let ms = models();
    let map = resolved_texture_map("block/oak_log", &ms);
    assert!(map.contains(&("end".to_string(), "oak_log_top".to_string())));
    assert!(map.contains(&("north".to_string(), "oak_log".to_string())));
    assert_eq!(map.last(), Some(&("".to_string(), "oak_log".to_string())));
}

#[test]
fn elements_come_from_the_nearest_model_that_has_them() {
    let ms = models();
    // Only the root `block/cube` lists elements in this set.
    assert_eq!(elements_source(&ms, "block/oak_log"), Some(0));
    assert_eq!(elements_source(&ms, "block/loop_a"), None);
}

#[test]
fn block_textures_are_collected_once_each() {
    let ms = models();
    let listed = vec!["minecraft:block/oak_log".to_string(), "block/oak_log".to_string()];
    let texs = all_textures(&listed, &ms);
    assert!(texs.contains(&"oak_log_top".to_string()));
    assert!(texs.contains(&"oak_log".to_string()));
    let mut dedup = texs.clone();
    dedup.sort();
    dedup.dedup();
    assert_eq!(dedup.len(), texs.len());

    let faces = FaceTextures {
        top: "a".into(),
        bottom: "a".into(),
        south: "b".into(),
        north: "b".into(),
        east: "b".into(),
        west: "c".into(),
    };
    let set = face_texture_set(&[(vec!["z".to_string(), "a".to_string()], faces)]);
    assert_eq!(set, vec!["z".to_string(), "a".to_string(), "b".to_string(), "c".to_string()]);
}

#[test]
fn a_child_variable_overrides_its_parent() {
    let ms = vec![
        ("block/base".to_string(), model(None, &[("all", "block/stone")])),
        ("block/child".to_string(), model(Some("block/base"), &[("all", "block/dirt")])),
    ];
    let f = resolve_textures("block/child", &ms);
    assert_eq!(faces(&f), ["dirt"; 6]);
    let g = resolve_textures("block/base", &ms);
    assert_eq!(faces(&g), ["stone"; 6]);
}
