use bedrock::blocks::is_air;
use bedrock::chunk::{is_opaque_cube, strip_namespace, unpack_indices, BlockState, Chunk, SectionData};

fn pack(indices: &[u16], bits: usize) -> Vec<i64> {
    let per_long = 64 / bits;
    let mut out = vec![0i64; indices.len().div_ceil(per_long)];
    for (i, &index) in indices.iter().enumerate() {
        let slot = i / per_long;
        let shift = (i % per_long) * bits;
        out[slot] |= (index as i64) << shift;
    }
    out
}

#[test]
fn air_detection() {
    assert!(is_air("minecraft:air"));
    assert!(is_air("minecraft:cave_air"));
    assert!(!is_air("minecraft:stone"));
}

#[test]
fn unpacks_without_crossing_longs() {
    // 17-entry palette → 5 bits → 12 indices per long, 4 bits unused.
    let indices: Vec<u16> = (0..24).map(|i| (i % 17) as u16).collect();
    let packed = pack(&indices, 5);
    let unpacked = unpack_indices(&packed, 17, false);
    assert_eq!(&unpacked[..24], &indices[..]);
}

#[test]
fn opacity_classification() {
    assert!(!is_opaque_cube("minecraft:air"));
    assert!(!is_opaque_cube("minecraft:water"));
    assert!(!is_opaque_cube("minecraft:oak_leaves"));
    assert!(is_opaque_cube("minecraft:stone"));
    assert!(is_opaque_cube("minecraft:pluto_rock"), "unknown = opaque");
}

#[test]
fn namespace_is_everything_before_the_last_colon() {
    assert_eq!(strip_namespace("minecraft:stone"), "stone");
    assert_eq!(strip_namespace("stone"), "stone");
    assert_eq!(strip_namespace("a:b:c"), "c");
    assert_eq!(strip_namespace("trailing:"), "");
}

#[test]
fn block_state_properties_and_defaults() {
    let mut state = BlockState::new("minecraft:oak_stairs".to_owned());
    assert_eq!(state.short_name(), "oak_stairs");
    assert_eq!(state.facing(), "south");
    state.set_property("facing", "east");
    state.set_property("color", "red");
    assert_eq!(state.facing(), "east");
    assert_eq!(state.property("color"), Some("red"));
    assert_eq!(state.texture_key(), "minecraft:oak_stairs|red");
}

#[test]
fn heights_outside_the_world_hold_nothing() {
    let mut v = vec![0u16; 4096];
    v[(2 << 8) | (3 << 4) | 1] = 1;
    let c = Chunk::from_sections(
        4,
        -2,
        vec![SectionData {
            y: 0,
            palette: vec![BlockState::new("minecraft:air".to_string()), BlockState::new("minecraft:stone".to_string())],
            indices: v,
        }],
    );
    assert_eq!((c.x, c.z), (4, -2));
    assert_eq!(c.block_at(1, 2, 3), Some("minecraft:stone"));
    assert_eq!(c.block_at(3, 2, 1), Some("minecraft:air"));
    assert_eq!(c.block_at(0, 16, 0), None);
    // Section 256 is past what an i8 section coordinate names.
    assert_eq!(c.block_at(1, 4098, 3), None);
    assert_eq!(c.block_at(1, -4094, 3), None);
}

#[test]
fn setting_a_property_twice_keeps_one_pair() {
    let mut s = BlockState::new("minecraft:oak_stairs".to_string());
    s.set_property("facing", "east");
    s.set_property("half", "top");
    s.set_property("facing", "west");
    assert_eq!(s.properties.len(), 2);
    assert_eq!(s.property("facing"), Some("west"));
    assert_eq!(s.property("half"), Some("top"));
}
