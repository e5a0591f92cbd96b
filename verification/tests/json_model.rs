use bedrock::chunk::BlockState;
use bedrock::json_model::{
    match_variants, BlockstateMultipart, BlockstateMultipartCondition, BlockstateVariant,
    MultipartApply,
};

fn variant(model: &str) -> BlockstateVariant {
    BlockstateVariant { model: model.to_owned(), x: None, y: None, uvlock: None }
}

fn state(props: &[(&str, &str)]) -> BlockState {
    let mut s = BlockState::new("minecraft:oak_stairs".to_owned());
    for (k, v) in props {
        s.set_property(k, v);
    }
    s
}

#[test]
fn the_best_matching_variant_wins() {
    let variants = vec![
        ("facing=east,half=bottom".to_owned(), Some(variant("east_bottom"))),
        ("facing=east,half=top".to_owned(), Some(variant("east_top"))),
        ("facing=west".to_owned(), Some(variant("west"))),
    ];
    let got = match_variants(&variants, &[], &state(&[("facing", "east"), ("half", "top")]));
    let models: Vec<&str> = got.iter().map(|v| v.model.as_str()).collect();
    assert_eq!(models, vec!["east_top"]);
}

#[test]
fn missing_properties_prefer_the_default_looking_variant() {
    let variants = vec![
        ("powered=true".to_owned(), Some(variant("on"))),
        ("powered=false".to_owned(), Some(variant("off"))),
    ];
    let got = match_variants(&variants, &[], &state(&[]));
    assert_eq!(got.len(), 1);
    assert_eq!(got[0].model, "off");
    let normal = vec![("normal".to_owned(), Some(variant("plain"))), ("".to_owned(), Some(variant("other")))];
    let got = match_variants(&normal, &[], &state(&[("facing", "east")]));
    assert_eq!(got[0].model, "plain");
}

#[test]
fn multipart_pieces_apply_on_their_conditions() {
    let cond = |k: &str, v: &str| BlockstateMultipartCondition { properties: vec![(k.to_owned(), v.to_owned())] };
    let parts = vec![
        BlockstateMultipart { when: None, apply: MultipartApply::Single(variant("post")) },
        BlockstateMultipart { when: Some(cond("north", "true")), apply: MultipartApply::Single(variant("side_n")) },
        BlockstateMultipart {
            when: Some(cond("east|west", "true|low")),
            apply: MultipartApply::Multiple(vec![variant("side_ew"), variant("ignored")]),
        },
        BlockstateMultipart { when: Some(cond("up", "false")), apply: MultipartApply::Multiple(vec![]) },
    ];
    let got = match_variants(&[], &parts, &state(&[("west", "low"), ("north", "false")]));
    let models: Vec<&str> = got.iter().map(|v| v.model.as_str()).collect();
    assert_eq!(models, vec!["post", "side_ew"]);
}

#[test]
fn variants_name_their_first_model() {
    let v = |s: &str| serde_json::from_str::<serde_json::Value>(s).unwrap();
    assert_eq!(bedrock::json_model::first_model(&v(r#"{"model":"block/stone","y":90}"#)), Some("block/stone".to_string()));
    assert_eq!(bedrock::json_model::first_model(&v(r#"[{"model":"block/a"},{"model":"block/b"}]"#)), Some("block/a".to_string()));
    assert_eq!(bedrock::json_model::first_model(&v(r#"[]"#)), None);
    assert_eq!(bedrock::json_model::first_model(&v(r#"{"x":90}"#)), None);
    assert_eq!(bedrock::json_model::first_model(&v(r#"[["block/c"]]"#)), Some("block/c".to_string()));
}
