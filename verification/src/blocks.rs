//! Block presentation knowledge shared by the renderer and the exporter:
//! which blocks are air.

use vstd::prelude::*;
use crate::chunk::{strip_namespace, spec_strip_namespace};
use crate::text::str_eq;

verus! {

/// The short names of the blocks that occupy no geometry at all.
pub open spec fn is_air_short(s: Seq<char>) -> bool {
    s == "air"@ || s == "cave_air"@ || s == "void_air"@
}

/// True for blocks that occupy no geometry at all.
pub fn is_air(name: &str) -> (r: bool)
    ensures
        r == is_air_short(spec_strip_namespace(name@)),
{
    let short = strip_namespace(name);
    str_eq(short, "air") || str_eq(short, "cave_air") || str_eq(short, "void_air")
}

} // verus!
