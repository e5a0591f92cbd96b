use bedrock::chunk::Chunk;
use bedrock::java_simple::ExteriorWorld;
use bedrock::nbt_le::{NbtCompound, NbtValue};
use std::collections::HashMap;

#[test]
fn later_groups_win_and_names_keep_their_order() {
    let world = ExteriorWorld::from_groups(vec![
        ("minecraft:stone".to_string(), vec![(0, 0, 0), (1, -2, 3)]),
        ("minecraft:dirt".to_string(), vec![(1, -2, 3), (i32::MIN, i32::MAX, -1)]),
    ]);
    assert_eq!(world.block_at(0, 0, 0), Some("minecraft:stone"));
    assert_eq!(world.block_at(1, -2, 3), Some("minecraft:dirt"));
    assert_eq!(world.block_at(i32::MIN, i32::MAX, -1), Some("minecraft:dirt"));
    assert_eq!(world.block_at(0, 0, 1), None);
    assert_eq!(world.len(), 3);
    assert!(!world.is_empty());
    assert_eq!(world.names, vec!["minecraft:stone".to_string(), "minecraft:dirt".to_string()]);
    assert!(ExteriorWorld::from_groups(Vec::new()).is_empty());
}

fn compound(entries: Vec<(&str, NbtValue)>) -> NbtValue {
    NbtValue::Compound(NbtCompound {
        entries: entries.into_iter().map(|(k, v)| (k.to_string(), v)).collect(),
    })
}

/// Pack indices with the same 1.16+ scheme the game uses.
fn pack(indices: &[u16], bits: usize) -> Vec<i64> {
    let per_long = 64 / bits;
    let mut out = vec![0i64; indices.len().div_ceil(per_long)];
    for (i, &index) in indices.iter().enumerate() {
        let slot = i / per_long;
        let shift = (i % per_long) * bits;
        out[slot] |= (index as i64) << shift;
    }
    out
}

fn at(x: usize, y: usize, z: usize) -> usize {
    (y << 8) | (z << 4) | x
}

#[test]
fn decodes_a_modern_chunk_tree() {
    let mut indices = vec![0u16; 4096];
    indices[at(3, 0, 5)] = 1;
    indices[at(0, 1, 0)] = 2;
    let palette = ["minecraft:air", "minecraft:stone", "minecraft:dirt"]
        .iter()
        .map(|n| compound(vec![("Name", NbtValue::String(n.to_string()))]))
        .collect();
    let section = compound(vec![
        ("Y", NbtValue::Byte(0)),
        (
            "block_states",
            compound(vec![
                ("palette", NbtValue::List(palette)),
                ("data", NbtValue::LongArray(pack(&indices, 4))),
            ]),
        ),
    ]);
    let root = compound(vec![
        ("sections", NbtValue::List(vec![section])),
        ("xPos", NbtValue::Int(4)),
        ("zPos", NbtValue::Int(-2)),
    ]);
    let chunk = Chunk::from_nbt_value(&root).unwrap();
    assert_eq!((chunk.x, chunk.z), (4, -2));
    assert_eq!(chunk.block_at(3, 0, 5), Some("minecraft:stone"));
    assert_eq!(chunk.block_at(0, 1, 0), Some("minecraft:dirt"));
    assert_eq!(chunk.block_at(1, 1, 1), Some("minecraft:air"));
    assert_eq!(chunk.block_at(0, 16, 0), None, "outside decoded sections");
}

#[test]
fn chunks_without_coordinates_are_refused() {
    let root = compound(vec![("sections", NbtValue::List(Vec::new()))]);
    assert!(Chunk::from_nbt_value(&root).is_err());
}

fn test_chunk_bytes() -> Vec<u8> {
    let mut indices = vec![0u16; 4096];
    indices[at(3, 0, 5)] = 1; // stone at (3, 0, 5)
    indices[at(0, 1, 0)] = 2; // dirt at (0, 1, 0)
    let entry = |n: &str| {
        let mut m = HashMap::new();
        m.insert("Name".to_string(), fastnbt::Value::String(n.to_string()));
        fastnbt::Value::Compound(m)
    };
    let mut states = HashMap::new();
    states.insert(
        "palette".to_string(),
        fastnbt::Value::List(vec![entry("minecraft:air"), entry("minecraft:stone"), entry("minecraft:dirt")]),
    );
    states.insert("data".to_string(), fastnbt::Value::LongArray(fastnbt::LongArray::new(pack(&indices, 4))));
    let mut section = HashMap::new();
    section.insert("Y".to_string(), fastnbt::Value::Byte(0));
    section.insert("block_states".to_string(), fastnbt::Value::Compound(states));
    let mut root = HashMap::new();
    root.insert("sections".to_string(), fastnbt::Value::List(vec![fastnbt::Value::Compound(section)]));
    root.insert("xPos".to_string(), fastnbt::Value::Int(4));
    root.insert("zPos".to_string(), fastnbt::Value::Int(-2));
    fastnbt::to_bytes(&fastnbt::Value::Compound(root)).unwrap()
}

#[test]
fn decodes_modern_chunk_layout() {
    let chunk = Chunk::from_nbt(&test_chunk_bytes()).unwrap();
    assert_eq!((chunk.x, chunk.z), (4, -2));
    assert_eq!(chunk.block_at(3, 0, 5), Some("minecraft:stone"));
    assert_eq!(chunk.block_at(0, 1, 0), Some("minecraft:dirt"));
    assert_eq!(chunk.block_at(1, 1, 1), Some("minecraft:air"));
    assert_eq!(chunk.block_at(0, 16, 0), None, "outside decoded sections");
}

#[test]
fn bytes_that_are_not_nbt_are_refused() {
    assert!(matches!(Chunk::from_nbt(b"\x7f"), Err(bedrock::chunk_nbt::ChunkError::Nbt(_))));
}
