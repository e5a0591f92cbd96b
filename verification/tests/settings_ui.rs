use bedrock::detect::{order_worlds, Edition, WorldSummary};
use bedrock::dock::Panel;
use bedrock::settings::{
    clamp_load_radius, config_dir, data_dir, data_file, layout_path, log_path, settings_path, DebugSettings, ExportFormat, ExportPreferences, ExportPreset, Theme,
    MAX_LOAD_RADIUS_CHUNKS, MIN_LOAD_RADIUS_CHUNKS,
};
use std::path::PathBuf;

#[test]
fn debug_defaults_are_off() {
    let d = DebugSettings::default();
    assert!(!d.show_stats);
    assert!(!d.show_chunk_borders);
    assert!(!d.show_wireframe);
    assert!(!d.show_occluded);
}

#[test]
fn load_radius_is_clamped() {
    assert_eq!(clamp_load_radius(9999), MAX_LOAD_RADIUS_CHUNKS);
    assert_eq!(clamp_load_radius(-5), MIN_LOAD_RADIUS_CHUNKS);
    assert_eq!(clamp_load_radius(24), 24);
}

#[test]
fn choices_have_labels_and_defaults() {
    assert_eq!(Theme::default(), Theme::Dark);
    assert_eq!(Theme::ALL.map(|t| t.label()), ["Dark", "Light"]);
    assert_eq!(ExportPreset::LowMemory.label(), "Low Memory");
    assert_eq!(ExportFormat::Gltf.label(), "glTF");
    assert!(ExportFormat::Obj.is_supported());
    assert!(!ExportFormat::Usd.is_supported());
    let prefs = ExportPreferences::default();
    assert_eq!(prefs.preset, ExportPreset::HighQuality);
    assert_eq!(prefs.format, ExportFormat::Obj);
    assert!(prefs.output_dir.is_empty());
    assert_eq!(Panel::OverviewMap.title(), "2D Overview");
    assert_eq!(Panel::ALL.len(), 7);
    assert_eq!(Edition::Bedrock.label(), "Bedrock");
}

fn world(name: &str, played: Option<i64>) -> WorldSummary {
    WorldSummary {
        edition: Edition::Java,
        folder: PathBuf::from(name),
        name: name.to_owned(),
        icon: None,
        last_played_ms: played,
        size_bytes: 0,
        data_version: None,
    }
}

#[test]
fn worlds_list_most_recently_played_first() {
    let worlds = vec![
        world("a", Some(5)),
        world("b", None),
        world("c", Some(9)),
        world("d", Some(5)),
        world("e", Some(0)),
    ];
    let names: Vec<String> = order_worlds(worlds).into_iter().map(|w| w.name).collect();
    assert_eq!(names, vec!["c", "a", "d", "b", "e"]);
}

#[test]
fn data_files_sit_in_the_data_directory() {
    let dir = config_dir();
    assert!(dir.ends_with("ProjectBedrock"));
    assert_eq!(settings_path(), dir.join("settings.toml"));
    assert_eq!(layout_path(), dir.join("layout.json"));
    assert_eq!(log_path(), dir.join("bedrock.log"));
}

#[test]
fn the_data_directory_falls_back_to_the_current_one() {
    assert_eq!(data_dir(Some(PathBuf::from("/home/u/.config"))), PathBuf::from("/home/u/.config/ProjectBedrock"));
    assert_eq!(data_dir(None), PathBuf::from("./ProjectBedrock"));
    assert_eq!(data_file(&PathBuf::from("d"), "settings.toml"), PathBuf::from("d/settings.toml"));
}
