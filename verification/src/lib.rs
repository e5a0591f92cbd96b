//! Minecraft save reading: little-endian NBT, chunk palettes, region and
//! structure files, texture naming rules and the small formatting helpers
//! the world browser shows.

pub mod text;
pub mod nbt_le;
pub mod chunk;
pub mod mcstructure;
pub mod blocks;
pub mod region;
pub mod block_model;
pub mod face_table;
pub mod texture;
pub mod mineways;
pub mod texture_animation;
pub mod jar_textures;
pub mod world;
pub mod settings;
pub mod dock;
pub mod scene;
pub mod world_browser;
pub mod json_model;
pub mod detect;
pub mod bedrock;
pub mod chunk_nbt;
pub mod java_simple;
pub mod assets_extractor;
pub mod swatch_rules;
pub mod swatch;
pub mod model_textures;
pub mod log;
pub mod bedrock_world;
pub mod java_nbt;
pub mod archive;
pub mod json;
