use bedrock::region::{RegionError, RegionFile};
use std::io::Write;

const SECTOR_BYTES: usize = 4096;

/// Build a minimal region file holding `chunks` as zlib NBT payloads.
fn build_region(chunks: &[(u8, u8, Vec<u8>)]) -> Vec<u8> {
    let mut file = vec![0u8; 2 * SECTOR_BYTES];
    let mut next_sector = 2;
    for (x, z, nbt) in chunks {
        let mut encoder =
            flate2::write::ZlibEncoder::new(Vec::new(), flate2::Compression::fast());
        encoder.write_all(nbt).unwrap();
        let payload = encoder.finish().unwrap();
        let length = (payload.len() + 1) as u32;
        let sectors = (4 + length as usize).div_ceil(SECTOR_BYTES);

        let index = 4 * (*x as usize + *z as usize * 32);
        file[index] = ((next_sector >> 16) & 0xFF) as u8;
        file[index + 1] = ((next_sector >> 8) & 0xFF) as u8;
        file[index + 2] = (next_sector & 0xFF) as u8;
        file[index + 3] = sectors as u8;

        let start = next_sector * SECTOR_BYTES;
        file.resize(start + sectors * SECTOR_BYTES, 0);
        file[start..start + 4].copy_from_slice(&length.to_be_bytes());
        file[start + 4] = 2; // zlib
        file[start + 5..start + 5 + payload.len()].copy_from_slice(&payload);
        next_sector += sectors;
    }
    file
}

#[test]
fn reads_back_a_zlib_chunk() {
    let nbt = b"fake-nbt-payload".to_vec();
    let bytes = build_region(&[(3, 7, nbt.clone())]);
    let mut region = RegionFile::from_bytes(bytes).unwrap();

    assert_eq!(region.present_chunks(), vec![(3, 7)]);
    assert_eq!(region.chunk_nbt(3, 7).unwrap().unwrap(), nbt);
    assert!(region.chunk_nbt(0, 0).is_none());
}

#[test]
fn rejects_truncated_header() {
    assert!(matches!(
        RegionFile::from_bytes(vec![0u8; 100]),
        Err(RegionError::HeaderTooShort)
    ));
}

#[test]
fn rejects_unknown_compression() {
    let mut bytes = build_region(&[(1, 1, b"data".to_vec())]);
    // Corrupt the compression byte (first chunk is at sector 2).
    bytes[2 * SECTOR_BYTES + 4] = 99;
    let mut region = RegionFile::from_bytes(bytes).unwrap();
    assert!(matches!(
        region.chunk_nbt(1, 1),
        Some(Err(RegionError::UnsupportedCompression(99)))
    ));
}

#[test]
fn uncompressed_chunks_come_back_verbatim() {
    let mut file = vec![0u8; 3 * SECTOR_BYTES];
    file[3] = 1; // chunk (0, 0): sector 2, one sector... offset bytes 0..3
    file[2] = 2;
    let start = 2 * SECTOR_BYTES;
    file[start..start + 4].copy_from_slice(&4u32.to_be_bytes());
    file[start + 4] = 3; // uncompressed
    file[start + 5..start + 8].copy_from_slice(b"abc");
    let mut region = RegionFile::from_bytes(file).unwrap();
    assert_eq!(region.present_chunks(), vec![(0, 0)]);
    assert_eq!(region.chunk_nbt(0, 0).unwrap().unwrap(), b"abc".to_vec());
}

#[test]
fn chunks_pointing_past_the_file_fail_to_read() {
    let mut file = vec![0u8; 2 * SECTOR_BYTES];
    file[2] = 9; // sector 9, far past the end
    file[3] = 1;
    let mut region = RegionFile::from_bytes(file).unwrap();
    assert!(matches!(region.chunk_nbt(0, 0), Some(Err(RegionError::ChunkOutOfBounds))));
}

#[test]
fn chunks_longer_than_the_file_are_truncated() {
    let mut file = vec![0u8; 3 * SECTOR_BYTES];
    file[2] = 2; // sector 2, inside the file
    file[3] = 1;
    let start = 2 * SECTOR_BYTES;
    file[start..start + 4].copy_from_slice(&(SECTOR_BYTES as u32 * 2).to_be_bytes());
    file[start + 4] = 3;
    let mut region = RegionFile::from_bytes(file).unwrap();
    assert!(matches!(region.chunk_nbt(0, 0), Some(Err(RegionError::TruncatedChunk))));
}

#[test]
fn level_dat_is_gunzipped() {
    let mut enc = flate2::write::GzEncoder::new(Vec::new(), flate2::Compression::default());
    enc.write_all(&[10, 0, 0, 0]).unwrap();
    let gz = enc.finish().unwrap();
    assert_eq!(bedrock::region::level_dat_nbt(&gz).unwrap(), vec![10, 0, 0, 0]);
    assert!(bedrock::region::level_dat_nbt(b"plain bytes").is_err());
}
