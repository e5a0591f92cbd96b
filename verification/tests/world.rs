use bedrock::world::{
    legacy_dimension, opening_regions, order_dimensions, region_coordinates,
    region_name_coordinates, sort_regions, Dimension, DimensionKind, World,
};
use std::path::{Path, PathBuf};

#[test]
fn parses_region_filenames() {
    assert_eq!(
        region_coordinates(Path::new("region/r.0.0.mca")),
        Some((0, 0))
    );
    assert_eq!(region_coordinates(Path::new("r.-3.17.mca")), Some((-3, 17)));
    assert_eq!(region_coordinates(Path::new("r.0.0.mca.old")), None);
    assert_eq!(region_coordinates(Path::new("level.dat")), None);
}

#[test]
fn region_names_take_the_first_two_fields() {
    assert_eq!(region_name_coordinates("r.1.2.3.mca"), Some((1, 2)));
    assert_eq!(region_name_coordinates("r.+4.-0.mca"), Some((4, 0)));
    assert_eq!(region_name_coordinates("r.5.mca"), None);
    assert_eq!(region_name_coordinates("r.mca"), None);
    assert_eq!(region_name_coordinates("r.99999999999.0.mca"), None);
}

#[test]
fn dimension_kinds_are_named_and_classified() {
    assert_eq!(DimensionKind::Overworld.label(), "Overworld");
    assert_eq!(DimensionKind::Legacy(1).label(), "End");
    assert_eq!(DimensionKind::Legacy(-1).label(), "Nether");
    assert_eq!(DimensionKind::Legacy(7).label(), "DIM7");
    assert_eq!(DimensionKind::Legacy(-12).label(), "DIM-12");
    assert_eq!(DimensionKind::Named("overworld".to_owned()).label(), "overworld");
    assert!(DimensionKind::Legacy(-1).is_nether());
    assert!(DimensionKind::Named("the_nether".to_owned()).is_nether());
    assert!(DimensionKind::Named("end".to_owned()).is_end());
    assert!(!DimensionKind::Legacy(1).is_overworld());
    assert!(DimensionKind::Named("overworld".to_owned()).is_overworld());
    assert!(DimensionKind::Overworld.is_overworld());
}

#[test]
fn legacy_dimension_folders_are_recognised() {
    assert!(matches!(legacy_dimension("DIM1"), Some(DimensionKind::Legacy(1))));
    assert!(matches!(legacy_dimension("DIM-1"), Some(DimensionKind::Legacy(-1))));
    assert!(legacy_dimension("DIMX").is_none());
    assert!(legacy_dimension("playerdata").is_none());
}

fn dim(kind: DimensionKind, x: i32) -> Dimension {
    Dimension { kind, regions: vec![(x, 0, PathBuf::from(format!("r.{x}.0.mca")))] }
}

#[test]
fn the_overworld_opens_first() {
    let found = vec![
        dim(DimensionKind::Legacy(1), 1),
        dim(DimensionKind::Named("the_nether".to_owned()), 2),
        dim(DimensionKind::Overworld, 3),
        dim(DimensionKind::Named("overworld".to_owned()), 4),
    ];
    let ordered = order_dimensions(found);
    let labels: Vec<String> = ordered.iter().map(|d| d.kind.label()).collect();
    assert_eq!(labels, vec!["Overworld", "overworld", "the_nether", "End"]);
    let coords: Vec<(i32, i32)> = opening_regions(ordered).into_iter().map(|(x, z, _)| (x, z)).collect();
    assert_eq!(coords, vec![(3, 0)]);
    assert!(opening_regions(Vec::new()).is_empty());
}

#[test]
fn a_save_without_a_top_level_region_folder_opens_its_other_dimension() {
    let ordered = order_dimensions(vec![dim(DimensionKind::Legacy(-1), 5), dim(DimensionKind::Legacy(1), 6)]);
    assert_eq!(ordered[0].kind.label(), "Nether");
    let coords: Vec<(i32, i32)> = opening_regions(ordered).into_iter().map(|(x, z, _)| (x, z)).collect();
    assert_eq!(coords, vec![(5, 0)]);
}

#[test]
fn regions_sort_by_x_then_z_keeping_ties_in_order() {
    let regions = vec![
        (1, 0, PathBuf::from("b")),
        (0, 5, PathBuf::from("c")),
        (0, -2, PathBuf::from("d")),
        (1, 0, PathBuf::from("a")),
    ];
    let sorted = sort_regions(regions);
    let keys: Vec<(i32, i32, PathBuf)> = sorted;
    assert_eq!(
        keys,
        vec![
            (0, -2, PathBuf::from("d")),
            (0, 5, PathBuf::from("c")),
            (1, 0, PathBuf::from("b")),
            (1, 0, PathBuf::from("a")),
        ]
    );
}

#[test]
fn a_world_keeps_its_folder() {
    let w = World::open(PathBuf::from("saves/My World"));
    assert_eq!(w.folder(), Path::new("saves/My World"));
}
