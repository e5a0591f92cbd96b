use bedrock::nbt_le::{NbtCursor, NbtLeError, NbtValue};

fn sample_compound() -> Vec<u8> {
    let mut bytes = vec![10, 0, 0]; // TAG_Compound, empty root name
    bytes.push(8); // TAG_String "name"
    bytes.extend_from_slice(&4u16.to_le_bytes());
    bytes.extend_from_slice(b"name");
    bytes.extend_from_slice(&15u16.to_le_bytes());
    bytes.extend_from_slice(b"minecraft:stone");
    bytes.push(3); // TAG_Int "version"
    bytes.extend_from_slice(&7u16.to_le_bytes());
    bytes.extend_from_slice(b"version");
    bytes.extend_from_slice(&4i32.to_le_bytes());
    bytes.push(0); // TAG_End
    bytes
}

#[test]
fn reads_a_compound() {
    let bytes = sample_compound();
    let mut cursor = NbtCursor::new(&bytes);
    let value = cursor.read_root().unwrap();
    let map = value.as_compound().unwrap();
    assert_eq!(map.get("name").unwrap().as_str(), Some("minecraft:stone"));
    assert!(matches!(map.get("version"), Some(NbtValue::Int(4))));
    assert!(cursor.is_empty());
}

#[test]
fn reads_consecutive_roots() {
    let mut bytes = sample_compound();
    bytes.extend_from_slice(&sample_compound());
    let mut cursor = NbtCursor::new(&bytes);
    assert!(cursor.read_root().is_ok());
    assert!(cursor.read_root().is_ok());
    assert!(cursor.is_empty());
}

#[test]
fn truncated_payload_is_an_error() {
    let mut cursor = NbtCursor::new(&[10, 0, 0, 8, 5, 0, b'n']);
    assert!(cursor.read_root().is_err());
}

#[test]
fn end_tag_at_the_root_is_rejected() {
    let mut cursor = NbtCursor::new(&[0]);
    assert_eq!(cursor.read_root().err(), Some(NbtLeError::EndAtRoot));
    assert_eq!(cursor.position(), 1);
}

#[test]
fn unknown_tags_and_negative_lengths_are_rejected() {
    let mut cursor = NbtCursor::new(&[42, 0, 0]);
    assert_eq!(cursor.read_root().err(), Some(NbtLeError::UnknownTag(42)));
    // A list of ints with length -1.
    let mut cursor = NbtCursor::new(&[9, 0, 0, 3, 0xff, 0xff, 0xff, 0xff]);
    assert_eq!(cursor.read_root().err(), Some(NbtLeError::NegativeListLength));
}

#[test]
fn an_empty_cursor_reports_truncation() {
    let mut cursor = NbtCursor::new(&[]);
    assert!(cursor.is_empty());
    assert_eq!(cursor.read_root().err(), Some(NbtLeError::Truncated));
}
