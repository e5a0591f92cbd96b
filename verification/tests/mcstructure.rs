use bedrock::mcstructure::McStructure;

#[test]
fn to_chunks_maps_blocks_correctly() {
    // 4×4×4 structure, all stone except corner (0,0,0).
    let mut indices = vec![1i32; 4 * 4 * 4];
    // flat(0,0,0) = 0*4*4 + 0*4 + 0 = 0
    indices[0] = 0; // air at (0,0,0)

    let mc = McStructure {
        size_x: 4,
        size_y: 4,
        size_z: 4,
        palette: vec!["minecraft:air".to_owned(), "minecraft:stone".to_owned()],
        indices,
    };

    let chunks = mc.to_chunks();
    assert!(!chunks.is_empty(), "should have at least one chunk");

    let chunk = &chunks[0];
    // (0,0,0) should be air (palette index 0).
    let block_000 = chunk.block_at(0, 0, 0).unwrap_or("minecraft:air");
    assert!(
        block_000.contains("air"),
        "corner (0,0,0) should be air, got: {block_000}"
    );
    // (1,0,0) should be stone.
    let block_100 = chunk.block_at(1, 0, 0).unwrap_or("");
    assert!(
        block_100.contains("stone"),
        "block (1,0,0) should be stone, got: {block_100}"
    );
}

#[test]
fn empty_palette_gives_no_chunks() {
    let mc = McStructure {
        size_x: 4,
        size_y: 4,
        size_z: 4,
        palette: vec!["minecraft:air".to_owned()],
        indices: vec![0i32; 4 * 4 * 4], // all air
    };
    let chunks = mc.to_chunks();
    // All air → no sections → no chunks.
    assert!(
        chunks.is_empty(),
        "all-air structure should produce no chunks"
    );
}

#[test]
fn structures_wider_than_a_chunk_split_into_columns() {
    let mc = McStructure {
        size_x: 20,
        size_y: 1,
        size_z: 1,
        palette: vec!["minecraft:stone".to_owned()],
        indices: vec![0i32; 20],
    };
    let chunks = mc.to_chunks();
    assert_eq!(chunks.len(), 2);
    assert_eq!((chunks[0].x, chunks[0].z), (0, 0));
    assert_eq!((chunks[1].x, chunks[1].z), (1, 0));
    assert_eq!(chunks[1].block_at(3, 0, 0), Some("minecraft:stone"));
    assert_eq!(chunks[1].block_at(4, 0, 0), Some("minecraft:air"));
}

#[test]
fn negative_indices_are_empty_cells() {
    let mc = McStructure {
        size_x: 2,
        size_y: 1,
        size_z: 1,
        palette: vec!["minecraft:stone".to_owned()],
        indices: vec![-1, 0],
    };
    let chunks = mc.to_chunks();
    assert_eq!(chunks.len(), 1);
    assert_eq!(chunks[0].block_at(0, 0, 0), Some("minecraft:air"));
    assert_eq!(chunks[0].block_at(1, 0, 0), Some("minecraft:stone"));
}

#[test]
fn garbage_is_not_a_structure() {
    assert!(McStructure::from_bytes(&[]).is_err());
    assert!(McStructure::from_bytes(&[0, 0, 0]).is_err());
}

#[test]
fn indices_run_x_then_y_then_z() {
    // 2 wide, 3 tall, 2 deep: flat index = z*3*2 + y*2 + x.
    let mut indices = vec![-1i32; 2 * 3 * 2];
    indices[1 * 3 * 2 + 0 * 2 + 1] = 0; // (x 1, y 0, z 1)
    indices[0 * 3 * 2 + 1 * 2 + 0] = 1; // (x 0, y 1, z 0)
    let mc = McStructure {
        size_x: 2,
        size_y: 3,
        size_z: 2,
        palette: vec!["minecraft:stone".to_owned(), "minecraft:dirt".to_owned()],
        indices,
    };
    let chunks = mc.to_chunks();
    assert_eq!(chunks.len(), 1);
    assert_eq!(chunks[0].block_at(1, 0, 1), Some("minecraft:stone"));
    assert_eq!(chunks[0].block_at(0, 1, 0), Some("minecraft:dirt"));
    // Read Y-major, the same indices would name (1, 1, 1) and (0, 0, 1).
    assert_eq!(chunks[0].block_at(1, 1, 1), Some("minecraft:air"));
    assert_eq!(chunks[0].block_at(0, 0, 1), Some("minecraft:air"));
}

fn le_structure_with_size(size: [i32; 3]) -> Vec<u8> {
    let mut b = vec![10u8, 0, 0]; // root compound, empty name
    b.push(9); // TAG_List "size"
    b.extend_from_slice(&4u16.to_le_bytes());
    b.extend_from_slice(b"size");
    b.push(3); // of TAG_Int
    b.extend_from_slice(&3i32.to_le_bytes());
    for v in size {
        b.extend_from_slice(&v.to_le_bytes());
    }
    b.push(0); // end of root
    b
}

#[test]
fn sizes_whose_block_count_overflows_are_refused() {
    let r = McStructure::from_bytes(&le_structure_with_size([70_000, 70_000, 1]));
    assert!(matches!(r, Err(bedrock::mcstructure::McStructureError::Unsupported(ref m)) if m == "size out of range"));
    let r = McStructure::from_bytes(&le_structure_with_size([4, 4, 4]));
    assert!(matches!(r, Err(bedrock::mcstructure::McStructureError::Missing(_))));
}
