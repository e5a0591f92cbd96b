use bedrock::bedrock::{decode_block_storage, decode_subchunk, BedrockError, StateNames};
use bedrock::bedrock_world::chunks_from_records;

/// Build a v8 subchunk payload with a 2-entry palette (air, stone),
/// 4 bits per block, stone at file index 306 (= x=1, y=2, z=3 in the
/// file's XZY order: `1*256 + 3*16 + 2`).
fn sample_subchunk() -> Vec<u8> {
    let mut payload = vec![8, 1]; // version, layers
    payload.push(4 << 1); // 4 bits per block, paletted
    // 4096 indices at 4 bits = 512 u32 words, 8 indices per word;
    // file index 306 lives in word 38, slot 2.
    for w in 0..512u32 {
        let word = if w == 38 { 1u32 << (2 * 4) } else { 0 };
        payload.extend_from_slice(&word.to_le_bytes());
    }
    payload.extend_from_slice(&2u32.to_le_bytes()); // palette count
    for name in ["minecraft:air", "minecraft:stone"] {
        payload.push(10); // TAG_Compound, empty name
        payload.extend_from_slice(&0u16.to_le_bytes());
        payload.push(8); // TAG_String "name"
        payload.extend_from_slice(&4u16.to_le_bytes());
        payload.extend_from_slice(b"name");
        payload.extend_from_slice(&(name.len() as u16).to_le_bytes());
        payload.extend_from_slice(name.as_bytes());
        payload.push(0); // TAG_End
    }
    payload
}

#[test]
fn decodes_a_v8_subchunk() {
    let section = decode_subchunk(&sample_subchunk(), -4, &StateNames::empty()).unwrap();
    assert_eq!(section.y, -4);
    assert_eq!(section.palette.len(), 2);
    assert_eq!(section.palette[0].name, "minecraft:air");
    assert_eq!(section.palette[1].name, "minecraft:stone");
    assert_eq!(section.indices.len(), 4096);
    // XZY file order is permuted into the canonical y<<8|z<<4|x layout.
    assert_eq!(section.indices[(2 << 8) | (3 << 4) | 1], 1);
    assert_eq!(section.indices[306], 0);
}

#[test]
fn rejects_unknown_storage_version() {
    assert!(matches!(
        decode_subchunk(&[7, 1, 0], 0, &StateNames::empty()),
        Err(BedrockError::Unsupported(_))
    ));
}

/// A uniform storage (no index bits) with one palette entry carrying
/// states, so that its name is translated.
fn uniform_storage() -> Vec<u8> {
    let mut s = vec![0u8]; // 0 bits, paletted
    s.extend_from_slice(&1u32.to_le_bytes());
    s.push(10);
    s.extend_from_slice(&0u16.to_le_bytes());
    s.push(8);
    s.extend_from_slice(&4u16.to_le_bytes());
    s.extend_from_slice(b"name");
    s.extend_from_slice(&(b"minecraft:log".len() as u16).to_le_bytes());
    s.extend_from_slice(b"minecraft:log");
    s.push(10); // TAG_Compound "states"
    s.extend_from_slice(&6u16.to_le_bytes());
    s.extend_from_slice(b"states");
    s.push(8); // "wood" = "oak"
    s.extend_from_slice(&4u16.to_le_bytes());
    s.extend_from_slice(b"wood");
    s.extend_from_slice(&3u16.to_le_bytes());
    s.extend_from_slice(b"oak");
    s.push(1); // "axis" = 1 (byte)
    s.extend_from_slice(&4u16.to_le_bytes());
    s.extend_from_slice(b"axis");
    s.push(1);
    s.push(0); // end of states
    s.push(0); // end of entry
    s
}

#[test]
fn palette_states_are_sorted_and_translated() {
    let plain = decode_block_storage(&uniform_storage(), &StateNames::empty()).unwrap();
    assert_eq!(plain.0[0].name, "minecraft:log");
    assert_eq!(plain.0[0].properties, vec![
        ("axis".to_owned(), "1".to_owned()),
        ("wood".to_owned(), "oak".to_owned()),
    ]);
    assert!(plain.1.is_empty());
    assert_eq!(plain.2, uniform_storage().len());

    let names = StateNames::new(vec![(
        "minecraft:log[axis=1,wood=oak]".to_owned(),
        "minecraft:oak_log[axis=x]".to_owned(),
    )])
    .unwrap();
    let translated = decode_block_storage(&uniform_storage(), &names).unwrap();
    assert_eq!(translated.0[0].name, "minecraft:oak_log");
    assert_eq!(translated.0[0].properties, vec![("axis".to_owned(), "x".to_owned())]);
}

#[test]
fn storage_errors_name_their_cause() {
    let msg = |r: Result<(Vec<bedrock::chunk::BlockState>, Vec<u16>, usize), BedrockError>| match r {
        Err(BedrockError::Malformed(m)) => format!("malformed: {m}"),
        Err(BedrockError::Unsupported(m)) => format!("unsupported: {m}"),
        Ok(_) => "ok".to_owned(),
    };
    let names = StateNames::empty();
    assert_eq!(msg(decode_block_storage(&[], &names)), "malformed: empty block storage");
    assert_eq!(
        msg(decode_block_storage(&[1], &names)),
        "unsupported: runtime-id palettes (need the game's runtime table)"
    );
    assert_eq!(msg(decode_block_storage(&[40], &names)), "unsupported: 20 bits per block");
    assert_eq!(msg(decode_block_storage(&[2, 0, 0], &names)), "malformed: truncated block indices");
    assert_eq!(msg(decode_block_storage(&[0, 1, 0], &names)), "malformed: truncated palette");
    assert_eq!(
        msg(decode_block_storage(&[0, 1, 0, 0, 0, 3, 0, 0, 0, 0, 0, 0], &names)),
        "malformed: palette entry not compound"
    );
    assert!(matches!(decode_subchunk(&[8, 0], 0, &names), Err(BedrockError::Malformed(m)) if m == "subchunk has no layers"));
    assert!(StateNames::new(vec![("a".to_owned(), "b[".to_owned())]).is_none());
}

#[test]
fn near_records_become_chunks_sorted_by_position_and_height() {
    let good = sample_subchunk();
    let records = vec![
        (5, 5, 2, good.clone()),
        (5, 5, -1, good.clone()),
        (5, 5, 0, vec![7, 1, 0]), // undecodable: skipped
        (4, 9, 0, good.clone()),
        (100, 5, 0, good.clone()), // too far
        (6, 6, 0, vec![7, 1, 0]),  // nothing decodes: no chunk
    ];
    let chunks = chunks_from_records(&records, 5, 6, 3, &StateNames::empty());
    assert_eq!(chunks.len(), 2);
    assert_eq!((chunks[0].x, chunks[0].z), (4, 9));
    assert_eq!((chunks[1].x, chunks[1].z), (5, 5));
    let ys: Vec<i8> = chunks[1].sections.iter().map(|s| s.y).collect();
    assert_eq!(ys, vec![-1, 2]);
}
