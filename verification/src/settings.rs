//! Persistent application settings.
//!
//! Settings are stored as TOML in the user's config directory
//! (`%APPDATA%/ProjectBedrock/settings.toml` on Windows). The dock layout and
//! the log file live next to it. Reading and writing the file is the
//! caller's part; the choices a settings file can hold, their labels and
//! defaults, and the range the load radius is kept in are here.

use vstd::prelude::*;
use std::path::PathBuf;

verus! {

/// The user's configuration directory as `dirs::config_dir` reports it:
/// `None` on a platform that has none. It depends on the environment, so
/// nothing is stated of which directory it is.
#[verifier::external_body]
fn user_config_dir() -> (r: Option<PathBuf>) {
    dirs::config_dir()
}

/// The path that `PathBuf::from` makes of a text; it depends on the text
/// alone.
pub uninterp spec fn relative_path(text: Seq<char>) -> PathBuf;

/// A path from its text (`PathBuf::from`), known through the name
/// `relative_path`.
#[verifier::external_body]
fn path_from(text: &str) -> (r: PathBuf)
    ensures
        r == relative_path(text@),
{
    PathBuf::from(text)
}

/// The path that `Path::join` makes of `base` and `name`: `name` appended
/// as a further component (or `name` itself when it is absolute). It
/// depends on its two arguments alone.
pub uninterp spec fn joined_path(base: &PathBuf, name: Seq<char>) -> PathBuf;

/// `base` with `name` appended as a further component (`Path::join`),
/// known through the name `joined_path`.
#[verifier::external_body]
fn join(base: &PathBuf, name: &str) -> (r: PathBuf)
    ensures
        r == joined_path(base, name@),
{
    base.join(name)
}

/// The data directory made from what the platform reports as the user's
/// configuration directory: `ProjectBedrock` inside it, or inside `.` when
/// there is none.
pub open spec fn data_dir_from(base: Option<PathBuf>) -> PathBuf {
    match base {
        Some(b) => joined_path(&b, "ProjectBedrock"@),
        None => joined_path(&relative_path("."@), "ProjectBedrock"@),
    }
}

/// A file called `name` inside the data directory made from `base`.
pub open spec fn data_file_from(base: Option<PathBuf>, name: Seq<char>) -> PathBuf {
    joined_path(&data_dir_from(base), name)
}

/// The Project Bedrock data directory for what the platform reports as the
/// user's configuration directory: `ProjectBedrock` inside it, or inside
/// `.` when the platform has none.
pub fn data_dir(base: Option<PathBuf>) -> (r: PathBuf)
    ensures
        r == data_dir_from(base),
{
    let b = match base {
        Some(b) => b,
        None => path_from("."),
    };
    join(&b, "ProjectBedrock")
}

/// The file called `name` inside a data directory.
pub fn data_file(dir: &PathBuf, name: &str) -> (r: PathBuf)
    ensures
        r == joined_path(dir, name@),
{
    join(dir, name)
}

/// Directory that holds all Project Bedrock user data: `ProjectBedrock`
/// inside the user's configuration directory (`.` where the platform has
/// none). Which directory the platform reports depends on the environment;
/// what is made of it is [`data_dir`].
pub fn config_dir() -> (r: PathBuf)
    ensures
        exists|base: Option<PathBuf>| r == #[trigger] data_dir_from(base),
{
    let reported = user_config_dir();
    let r = data_dir(reported);
    assert(r == data_dir_from(reported));
    r
}

/// Path of the TOML settings file.
pub fn settings_path() -> (r: PathBuf)
    ensures
        exists|base: Option<PathBuf>| r == #[trigger] data_file_from(base, "settings.toml"@),
{
    let reported = user_config_dir();
    let dir = data_dir(reported);
    let r = data_file(&dir, "settings.toml");
    assert(r == data_file_from(reported, "settings.toml"@));
    r
}

/// Path of the serialized dock layout (`DockState` as JSON).
pub fn layout_path() -> (r: PathBuf)
    ensures
        exists|base: Option<PathBuf>| r == #[trigger] data_file_from(base, "layout.json"@),
{
    let reported = user_config_dir();
    let dir = data_dir(reported);
    let r = data_file(&dir, "layout.json");
    assert(r == data_file_from(reported, "layout.json"@));
    r
}

/// Path of the human-readable application log.
pub fn log_path() -> (r: PathBuf)
    ensures
        exists|base: Option<PathBuf>| r == #[trigger] data_file_from(base, "bedrock.log"@),
{
    let reported = user_config_dir();
    let dir = data_dir(reported);
    let r = data_file(&dir, "bedrock.log");
    assert(r == data_file_from(reported, "bedrock.log"@));
    r
}

/// UI color theme.
#[derive(Debug, Clone, Copy, PartialEq, Eq, Structural)]
pub enum Theme {
    /// Dark theme (the default).
    Dark,
    /// Light theme.
    Light,
}

impl Default for Theme {
    fn default() -> (r: Self)
        ensures
            r == Theme::Dark,
    {
        Theme::Dark
    }
}

impl Theme {
    /// Every theme, for pickers.
    pub const ALL: [Theme; 2] = [Theme::Dark, Theme::Light];

    /// Human-readable label.
    pub fn label(self) -> (r: &'static str)
        ensures
            r@ == match self {
                Theme::Dark => "Dark"@,
                Theme::Light => "Light"@,
            },
    {
        match self {
            Theme::Dark => "Dark",
            Theme::Light => "Light",
        }
    }
}

/// Export quality preset shown in the Export Settings panel.
#[derive(Debug, Clone, Copy, PartialEq, Eq, Structural)]
pub enum ExportPreset {
    /// Maximum fidelity export (the default).
    HighQuality,
    /// Tuned for animation scenes.
    Animation,
    /// Tuned for thumbnails / renders.
    Thumbnail,
    /// Minimal memory footprint.
    LowMemory,
    /// User-defined.
    Custom,
}

impl Default for ExportPreset {
    fn default() -> (r: Self)
        ensures
            r == ExportPreset::HighQuality,
    {
        ExportPreset::HighQuality
    }
}

impl ExportPreset {
    /// Every preset, for pickers.
    pub const ALL: [ExportPreset; 5] = [
        ExportPreset::HighQuality,
        ExportPreset::Animation,
        ExportPreset::Thumbnail,
        ExportPreset::LowMemory,
        ExportPreset::Custom,
    ];

    /// Human-readable label.
    pub fn label(self) -> (r: &'static str)
        ensures
            r@ == match self {
                ExportPreset::HighQuality => "High Quality"@,
                ExportPreset::Animation => "Animation"@,
                ExportPreset::Thumbnail => "Thumbnail"@,
                ExportPreset::LowMemory => "Low Memory"@,
                ExportPreset::Custom => "Custom"@,
            },
    {
        match self {
            ExportPreset::HighQuality => "High Quality",
            ExportPreset::Animation => "Animation",
            ExportPreset::Thumbnail => "Thumbnail",
            ExportPreset::LowMemory => "Low Memory",
            ExportPreset::Custom => "Custom",
        }
    }
}

/// Export file format.
#[derive(Debug, Clone, Copy, PartialEq, Eq, Structural)]
pub enum ExportFormat {
    /// Wavefront OBJ (the default).
    Obj,
    /// FBX — future.
    Fbx,
    /// USD — future.
    Usd,
    /// glTF 2.0 — supported (PBR materials, texture atlas).
    Gltf,
}

impl Default for ExportFormat {
    fn default() -> (r: Self)
        ensures
            r == ExportFormat::Obj,
    {
        ExportFormat::Obj
    }
}

impl ExportFormat {
    /// Every format, for pickers.
    pub const ALL: [ExportFormat; 4] = [
        ExportFormat::Obj,
        ExportFormat::Fbx,
        ExportFormat::Usd,
        ExportFormat::Gltf,
    ];

    /// Human-readable label.
    pub fn label(self) -> (r: &'static str)
        ensures
            r@ == match self {
                ExportFormat::Obj => "OBJ"@,
                ExportFormat::Fbx => "FBX"@,
                ExportFormat::Usd => "USD"@,
                ExportFormat::Gltf => "glTF"@,
            },
    {
        match self {
            ExportFormat::Obj => "OBJ",
            ExportFormat::Fbx => "FBX",
            ExportFormat::Usd => "USD",
            ExportFormat::Gltf => "glTF",
        }
    }

    /// Whether the format can actually be produced today.
    pub fn is_supported(self) -> (r: bool)
        ensures
            r == (self == ExportFormat::Obj || self == ExportFormat::Gltf),
    {
        match self {
            ExportFormat::Obj | ExportFormat::Gltf => true,
            _ => false,
        }
    }
}

/// Preferences for the export pipeline.
#[derive(Debug, Clone)]
pub struct ExportPreferences {
    /// Selected quality preset.
    pub preset: ExportPreset,
    /// Selected output format.
    pub format: ExportFormat,
    /// Output directory chosen by the user (empty = ask at export time).
    pub output_dir: String,
}

impl Default for ExportPreferences {
    fn default() -> (r: Self)
        ensures
            r.preset == ExportPreset::HighQuality,
            r.format == ExportFormat::Obj,
            r.output_dir@.len() == 0,
    {
        ExportPreferences {
            preset: ExportPreset::HighQuality,
            format: ExportFormat::Obj,
            output_dir: String::new(),
        }
    }
}

/// Smallest allowed load radius, in chunks.
pub const MIN_LOAD_RADIUS_CHUNKS: i32 = 4;
/// Largest allowed load radius, in chunks. Bounded to keep worst-case
/// memory/load time predictable until chunk streaming lands.
pub const MAX_LOAD_RADIUS_CHUNKS: i32 = 48;
/// Default load radius, generous enough for most worlds.
pub const DEFAULT_LOAD_RADIUS_CHUNKS: i32 = 24;

/// A load radius brought into the allowed range, as a hand-edited or older
/// settings file may hold one outside it.
pub open spec fn spec_clamp_radius(r: i32) -> i32 {
    if r < MIN_LOAD_RADIUS_CHUNKS {
        MIN_LOAD_RADIUS_CHUNKS
    } else if r > MAX_LOAD_RADIUS_CHUNKS {
        MAX_LOAD_RADIUS_CHUNKS
    } else {
        r
    }
}

/// Keep a load radius read from a settings file inside
/// `[MIN_LOAD_RADIUS_CHUNKS, MAX_LOAD_RADIUS_CHUNKS]`.
pub fn clamp_load_radius(r: i32) -> (c: i32)
    ensures
        c == spec_clamp_radius(r),
        MIN_LOAD_RADIUS_CHUNKS <= c <= MAX_LOAD_RADIUS_CHUNKS,
        MIN_LOAD_RADIUS_CHUNKS <= r <= MAX_LOAD_RADIUS_CHUNKS ==> c == r,
{
    if r < MIN_LOAD_RADIUS_CHUNKS {
        MIN_LOAD_RADIUS_CHUNKS
    } else if r > MAX_LOAD_RADIUS_CHUNKS {
        MAX_LOAD_RADIUS_CHUNKS
    } else {
        r
    }
}

/// Debug visualisation toggles; all off by default.
#[derive(Debug, Clone, Copy, PartialEq, Eq, Structural)]
pub struct DebugSettings {
    /// Overlay FPS + vertex/triangle counts on the viewport.
    pub show_stats: bool,
    /// Draw wireframe boxes around every loaded chunk.
    pub show_chunk_borders: bool,
    /// Overlay mesh edges as a wireframe.
    pub show_wireframe: bool,
    /// Highlight occluded (culled) faces.
    pub show_occluded: bool,
}

impl Default for DebugSettings {
    fn default() -> (r: Self)
        ensures
            !r.show_stats && !r.show_chunk_borders && !r.show_wireframe && !r.show_occluded,
    {
        DebugSettings {
            show_stats: false,
            show_chunk_borders: false,
            show_wireframe: false,
            show_occluded: false,
        }
    }
}

} // verus!
