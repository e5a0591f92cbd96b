//! Per-face texture resolution for Minecraft blocks.
//!
//! Maps a block name (without namespace) to the six texture names used on its
//! faces. Most blocks are uniform (same texture on all six faces), but some
//! important ones — grass, logs, TNT, crafting tables, pistons — use
//! different textures on the top, bottom, and sides.
//!
//! The faces come from a static lookup table covering the most common
//! blocks (see `face_table`). Blocks not in the table fall back to a single
//! texture named after the block.

use vstd::prelude::*;
use crate::chunk::{spec_strip_namespace, strip_namespace};
use crate::face_table::{static_face_textures, table_faces};

verus! {

/// The six texture names of a block, as sequences of characters.
pub struct FaceNames {
    pub top: Seq<char>,
    pub bottom: Seq<char>,
    pub south: Seq<char>,
    pub north: Seq<char>,
    pub east: Seq<char>,
    pub west: Seq<char>,
}

/// Six faces given one by one.
pub open spec fn face_names(
    top: Seq<char>,
    bottom: Seq<char>,
    south: Seq<char>,
    north: Seq<char>,
    east: Seq<char>,
    west: Seq<char>,
) -> FaceNames {
    FaceNames { top, bottom, south, north, east, west }
}

/// The same texture on every face.
pub open spec fn uniform_names(name: Seq<char>) -> FaceNames {
    face_names(name, name, name, name, name, name)
}

/// Distinct top and bottom, one texture on the four sides.
pub open spec fn column_names(top: Seq<char>, bottom: Seq<char>, side: Seq<char>) -> FaceNames {
    face_names(top, bottom, side, side, side, side)
}

/// The six texture names for one block (without path prefix or `.png`).
///
/// Each field is a Minecraft texture name such as `"grass_block_top"` or
/// `"oak_log"`. These match the file names inside the client JAR under
/// `assets/minecraft/textures/block/`.
#[derive(Debug, Clone)]
pub struct FaceTextures {
    /// +Y face (the top).
    pub top: String,
    /// -Y face (the bottom).
    pub bottom: String,
    /// +Z face (south / front).
    pub south: String,
    /// -Z face (north / back).
    pub north: String,
    /// +X face (east / right).
    pub east: String,
    /// -X face (west / left).
    pub west: String,
}

impl View for FaceTextures {
    type V = FaceNames;

    open spec fn view(&self) -> FaceNames {
        face_names(self.top@, self.bottom@, self.south@, self.north@, self.east@, self.west@)
    }
}

/// The faces of an optional result.
pub open spec fn names_of(r: Option<FaceTextures>) -> Option<FaceNames> {
    match r {
        Some(f) => Some(f@),
        None => None,
    }
}

/// The texture of the face with outward normal index `face`:
/// `0` = +Y, `1` = -Y, `2` = +X, `3` = -X, `4` = +Z, `5` = -Z; any other
/// index gives the top.
pub open spec fn face_at(f: FaceNames, face: int) -> Seq<char> {
    if face == 1 {
        f.bottom
    } else if face == 2 {
        f.east
    } else if face == 3 {
        f.west
    } else if face == 4 {
        f.south
    } else if face == 5 {
        f.north
    } else {
        f.top
    }
}

impl FaceTextures {
    /// A block that uses the same texture on every face.
    pub(crate) fn uniform(name: &str) -> (r: Self)
        ensures
            r@ == uniform_names(name@),
    {
        Self {
            top: String::from_str(name),
            bottom: String::from_str(name),
            south: String::from_str(name),
            north: String::from_str(name),
            east: String::from_str(name),
            west: String::from_str(name),
        }
    }

    /// A block with different top/bottom and uniform sides.
    pub(crate) fn column(top: &str, bottom: &str, side: &str) -> (r: Self)
        ensures
            r@ == column_names(top@, bottom@, side@),
    {
        Self {
            top: String::from_str(top),
            bottom: String::from_str(bottom),
            south: String::from_str(side),
            north: String::from_str(side),
            east: String::from_str(side),
            west: String::from_str(side),
        }
    }

    /// Unique textures on all three axes (top, bottom, sides).
    pub(crate) fn tri(top: &str, bottom: &str, side: &str) -> (r: Self)
        ensures
            r@ == column_names(top@, bottom@, side@),
    {
        Self::column(top, bottom, side)
    }

    /// Every face given on its own.
    pub(crate) fn six(
        top: &str,
        bottom: &str,
        south: &str,
        north: &str,
        east: &str,
        west: &str,
    ) -> (r: Self)
        ensures
            r@ == face_names(top@, bottom@, south@, north@, east@, west@),
    {
        Self {
            top: String::from_str(top),
            bottom: String::from_str(bottom),
            south: String::from_str(south),
            north: String::from_str(north),
            east: String::from_str(east),
            west: String::from_str(west),
        }
    }

    /// Return the texture name for a face given its outward normal index.
    ///
    /// Normal index matches the `FACES` constant of the mesher:
    /// `0` = +Y, `1` = -Y, `2` = +X, `3` = -X, `4` = +Z, `5` = -Z.
    pub fn for_face_index(&self, face: usize) -> (r: &str)
        ensures
            r@ == face_at(self@, face as int),
    {
        match face {
            0 => self.top.as_str(),
            1 => self.bottom.as_str(),
            2 => self.east.as_str(),
            3 => self.west.as_str(),
            4 => self.south.as_str(),
            5 => self.north.as_str(),
            _ => self.top.as_str(),
        }
    }
}

/// The dye colour of a bed: the name before a trailing `_bed`.
pub open spec fn bed_color(short: Seq<char>) -> Option<Seq<char>> {
    if short.len() >= 4 && short.subrange(short.len() - 4, short.len() as int) == "_bed"@ {
        Some(short.subrange(0, short.len() - 4))
    } else {
        None
    }
}

/// Bed faces: the mattress top and sides read as the wool of the bed's
/// colour, the underside as oak planks.
pub open spec fn bed_faces(color: Seq<char>) -> FaceNames {
    let wool = color + "_wool"@;
    face_names(wool, "oak_planks"@, wool, wool, wool, wool)
}

/// The faces `face_textures` gives a short block name: a bed by its
/// colour, then the face table, then one texture named after the block.
pub open spec fn faces_for(short: Seq<char>) -> FaceNames {
    if bed_color(short) is Some {
        bed_faces(bed_color(short).unwrap())
    } else if table_faces(short) is Some {
        table_faces(short).unwrap()
    } else {
        uniform_names(short)
    }
}

/// Bed face textures: the mattress top/sides read as coloured wool (the
/// closest ordinary block texture to the actual dyed blanket colour), and
/// the underside as oak planks (frame colour). This is a deliberate
/// approximation — real beds sample a dedicated entity-style multi-region
/// atlas (`textures/entity/bed/<color>.png`) that the one-texture-per-face
/// scheme does not support — but it reads clearly as "a bed".
fn bed_face_textures(short: &str) -> (r: Option<FaceTextures>)
    ensures
        names_of(r) == (match bed_color(short@) {
            Some(c) => Some(bed_faces(c)),
            None => None,
        }),
{
    let n = short.unicode_len();
    proof {
        reveal_strlit("_bed");
    }
    if n < 4 {
        return None;
    }
    let suffix = short.substring_char(n - 4, n);
    if !crate::text::str_eq(suffix, "_bed") {
        return None;
    }
    let color = short.substring_char(0, n - 4);
    let mut wool = String::from_str(color);
    wool.append("_wool");
    let r = FaceTextures {
        top: wool.clone(),
        bottom: String::from_str("oak_planks"),
        south: wool.clone(),
        north: wool.clone(),
        east: wool.clone(),
        west: wool,
    };
    Some(r)
}

/// Resolve the six face textures for a block name (namespace optional).
///
/// A bed takes its colour's wool; a block of the face table takes its
/// row; any other block falls back to a single texture named after itself.
pub fn face_textures(block: &str) -> (r: FaceTextures)
    ensures
        r@ == faces_for(spec_strip_namespace(block@)),
{
    let short = strip_namespace(block);
    if let Some(ft) = bed_face_textures(short) {
        return ft;
    }
    if let Some(ft) = static_face_textures(short) {
        return ft;
    }
    FaceTextures::uniform(short)
}

} // verus!
