//! Plain data the viewport renderer is handed each frame.

use vstd::prelude::*;

verus! {

/// Debug visualisation toggles passed from the app to the renderer each frame.
#[derive(Debug, Clone, Copy, PartialEq, Eq, Structural)]
pub struct DebugState {
    /// Overlay FPS + vertex/triangle counts on the viewport.
    pub show_stats: bool,
    /// Draw wireframe boxes around every loaded chunk.
    pub show_chunk_borders: bool,
    /// Overlay mesh edges as a wireframe.
    pub show_wireframe: bool,
}

impl Default for DebugState {
    fn default() -> (r: Self)
        ensures
            !r.show_stats && !r.show_chunk_borders && !r.show_wireframe,
    {
        DebugState { show_stats: false, show_chunk_borders: false, show_wireframe: false }
    }
}

/// A chunk-aligned axis-aligned box for border rendering.
#[derive(Debug, Clone, Copy)]
pub struct ChunkBorder {
    /// Minimum corner in world block coordinates.
    pub min: [i32; 3],
    /// Maximum corner (exclusive) in world block coordinates.
    pub max: [i32; 3],
}

/// Raw atlas pixels, carried with the mesh so the renderer can upload them.
#[derive(Clone)]
pub struct AtlasPixels {
    /// RGBA pixels, row-major.
    pub rgba: Vec<u8>,
    /// Atlas width in pixels.
    pub width: u32,
    /// Atlas height in pixels.
    pub height: u32,
}

} // verus!
