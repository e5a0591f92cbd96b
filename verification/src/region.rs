//! Anvil region files: a 4 KiB table of chunk locations, then chunk
//! payloads in 4 KiB sectors, each a 4-byte big-endian length, one
//! compression byte and the compressed NBT.

use vstd::prelude::*;
use std::io::Read;

verus! {

/// Size of one sector in a region file.
pub const SECTOR_BYTES: usize = 4096;

/// Chunks per region edge (regions are 32×32 chunks).
pub const REGION_CHUNKS: u8 = 32;

#[verifier::external_type_specification]
#[verifier::external_body]
pub struct ExIoError(std::io::Error);

/// What `flate2::read::GzDecoder` yields when read to the end over `bytes`:
/// the decompressed bytes, or `None` when decoding fails.
pub uninterp spec fn gunzip(bytes: Seq<u8>) -> Option<Seq<u8>>;

/// What `flate2::read::ZlibDecoder` yields when read to the end over
/// `bytes`: the decompressed bytes, or `None` when decoding fails.
pub uninterp spec fn inflate_zlib(bytes: Seq<u8>) -> Option<Seq<u8>>;

/// Decompresses a gzip stream (`flate2::read::GzDecoder`, read to the end).
/// The output is named by [`gunzip`]; on failure the decoder's I/O error is
/// returned and nothing is said of it.
#[verifier::external_body]
fn gzip_decode(payload: &[u8]) -> (r: Result<Vec<u8>, std::io::Error>)
    ensures
        match r {
            Ok(v) => gunzip(payload@) == Some(v@),
            Err(_) => gunzip(payload@) is None,
        },
{
    let mut out = Vec::new();
    flate2::read::GzDecoder::new(payload).read_to_end(&mut out)?;
    Ok(out)
}

/// The NBT bytes of a gzip-compressed Java `level.dat`: the file's bytes
/// decompressed; the decoder's error when they are not a gzip stream.
pub fn level_dat_nbt(compressed: &[u8]) -> (r: Result<Vec<u8>, std::io::Error>)
    ensures
        match r {
            Ok(v) => gunzip(compressed@) == Some(v@),
            Err(_) => gunzip(compressed@) is None,
        },
{
    gzip_decode(compressed)
}

/// Decompresses a zlib stream (`flate2::read::ZlibDecoder`, read to the
/// end). The output is named by [`inflate_zlib`]; on failure the decoder's
/// I/O error is returned and nothing is said of it.
#[verifier::external_body]
fn zlib_decode(payload: &[u8]) -> (r: Result<Vec<u8>, std::io::Error>)
    ensures
        match r {
            Ok(v) => inflate_zlib(payload@) == Some(v@),
            Err(_) => inflate_zlib(payload@) is None,
        },
{
    let mut out = Vec::new();
    flate2::read::ZlibDecoder::new(payload).read_to_end(&mut out)?;
    Ok(out)
}

/// Compression scheme byte preceding chunk NBT data.
#[derive(Debug, Clone, Copy, PartialEq, Eq, Structural)]
enum Compression {
    Gzip,
    Zlib,
    Uncompressed,
}

/// Why reading a region file or one of its chunks failed.
#[derive(Debug)]
pub enum RegionError {
    /// The data could not be read (a decompressor failed).
    Io(std::io::Error),
    /// The file is smaller than the mandatory 8 KiB header.
    HeaderTooShort,
    /// A chunk location points outside the file.
    ChunkOutOfBounds,
    /// Unsupported compression byte (LZ4 and external chunks are not yet
    /// supported).
    UnsupportedCompression(u8),
    /// Chunk data ends before the declared length.
    TruncatedChunk,
}

/// Big-endian 32-bit value at `p`.
pub open spec fn be32(d: Seq<u8>, p: int) -> int {
    d[p] * 0x100_0000 + d[p + 1] * 0x1_0000 + d[p + 2] * 0x100 + d[p + 3]
}

/// The location table at the start of a region file.
pub open spec fn location_table(d: Seq<u8>) -> Seq<u32> {
    Seq::new(1024, |i: int| be32(d, 4 * i) as u32)
}

/// `(sector offset, sector count)` of chunk `(x, z)`, or `None` when the
/// chunk was never generated.
pub open spec fn spec_location(locs: Seq<u32>, x: int, z: int) -> Option<(int, int)> {
    let entry = locs[x + z * 32] as int;
    let offset = entry / 256;
    let sectors = entry % 256;
    if offset > 0 && sectors > 0 {
        Some((offset, sectors))
    } else {
        None
    }
}

/// A chunk is found through its 4-byte location entry (entry `x + 32 z` of
/// the table at the start of the file): the first three bytes, big-endian,
/// are its sector offset and the fourth its sector count, for every offset
/// up to 2^24 - 1; a zero offset or count means the chunk is absent. So
/// `chunk_nbt(x, z)` reads the chunk's header at byte `offset * 4096`.
pub proof fn law_chunk_location_is_read_from_its_table_entry(data: Seq<u8>, x: int, z: int)
    requires
        data.len() >= 8192,
        0 <= x < 32,
        0 <= z < 32,
    ensures
        ({
            let p = 4 * (x + 32 * z);
            let offset = data[p] as int * 0x1_0000 + data[p + 1] as int * 0x100 + data[p + 2] as int;
            let count = data[p + 3] as int;
            spec_location(location_table(data), x, z) == if offset > 0 && count > 0 {
                Some((offset, count))
            } else {
                None
            }
        }),
{
    let i = x + 32 * z;
    let p = 4 * i;
    let offset = data[p] as int * 0x1_0000 + data[p + 1] as int * 0x100 + data[p + 2] as int;
    let count = data[p + 3] as int;
    let e = be32(data, p);
    assert(e == offset * 256 + count);
    assert(0 <= e < 0x1_0000_0000);
    assert(location_table(data)[i] as int == e);
    assert(i == x + z * 32);
    assert(e / 256 == offset && e % 256 == count) by (nonlinear_arith)
        requires
            e == offset * 256 + count,
            0 <= count < 256,
            0 <= offset,
    ;
}

/// What reading a chunk whose payload starts at byte `start` yields.
pub ghost enum ChunkRead {
    /// The chunk's header does not lie inside the file.
    OutOfBounds,
    /// The declared length is zero, or the data ends before it.
    Truncated,
    /// The compression byte is not 1, 2 or 3.
    Unsupported(u8),
    /// The compressed payload and its compression byte.
    Payload(u8, Seq<u8>),
}

/// Reads the chunk header at `start` and cuts out its payload.
pub open spec fn spec_chunk_read(d: Seq<u8>, start: int) -> ChunkRead {
    if start + 5 > d.len() {
        ChunkRead::OutOfBounds
    } else {
        let length = be32(d, start);
        let kind = d[start + 4];
        if length == 0 {
            ChunkRead::Truncated
        } else if kind != 1 && kind != 2 && kind != 3 {
            ChunkRead::Unsupported(kind)
        } else if start + 5 + (length - 1) > d.len() {
            ChunkRead::Truncated
        } else {
            ChunkRead::Payload(kind, d.subrange(start + 5, start + 5 + length - 1))
        }
    }
}

/// What decompressing a payload of the given compression byte yields.
pub open spec fn spec_decompress(kind: u8, payload: Seq<u8>) -> Option<Seq<u8>> {
    if kind == 1 {
        gunzip(payload)
    } else if kind == 2 {
        inflate_zlib(payload)
    } else {
        Some(payload)
    }
}

/// A parsed region file held in memory; chunks are located and decoded on
/// demand.
pub struct RegionFile {
    data: Vec<u8>,
    locations: Vec<u32>,
}

/// Decompress one chunk payload.
fn decompress(compression: Compression, payload: &[u8]) -> (r: Result<Vec<u8>, RegionError>)
    ensures
        match spec_decompress(
            match compression {
                Compression::Gzip => 1u8,
                Compression::Zlib => 2u8,
                Compression::Uncompressed => 3u8,
            },
            payload@,
        ) {
            Some(v) => r matches Ok(out) && out@ == v,
            None => r matches Err(RegionError::Io(_)),
        },
{
    match compression {
        Compression::Gzip => match gzip_decode(payload) {
            Ok(v) => Ok(v),
            Err(e) => Err(RegionError::Io(e)),
        },
        Compression::Zlib => match zlib_decode(payload) {
            Ok(v) => Ok(v),
            Err(e) => Err(RegionError::Io(e)),
        },
        Compression::Uncompressed => {
            let mut out: Vec<u8> = Vec::new();
            let mut i: usize = 0;
            while i < payload.len()
                invariant
                    i <= payload@.len(),
                    out@ == payload@.take(i as int),
                decreases payload@.len() - i,
            {
                out.push(payload[i]);
                assert(payload@.take(i + 1) =~= payload@.take(i as int).push(payload@[i as int]));
                i += 1;
            }
            assert(payload@.take(i as int) =~= payload@);
            Ok(out)
        },
    }
}

fn be32_at(d: &Vec<u8>, p: usize) -> (v: u32)
    requires
        p + 4 <= d@.len(),
    ensures
        v == be32(d@, p as int),
{
    let n = d.len();
    let a = d[p] as u32;
    let b = d[p + 1] as u32;
    let c = d[p + 2] as u32;
    let e = d[p + 3] as u32;
    assert(a <= 255 && b <= 255 && c <= 255 && e <= 255);
    a * 0x100_0000 + b * 0x1_0000 + c * 0x100 + e
}

impl RegionFile {
    #[verifier::type_invariant]
    spec fn inv(&self) -> bool {
        &&& self.data@.len() >= 2 * 4096
        &&& self.locations@ == location_table(self.data@)
    }

    /// The whole file.
    pub closed spec fn bytes(&self) -> Seq<u8> {
        self.data@
    }

    /// The location table.
    pub closed spec fn locations(&self) -> Seq<u32> {
        self.locations@
    }

    /// Parse a region file from its bytes.
    pub fn from_bytes(bytes: Vec<u8>) -> (r: Result<Self, RegionError>)
        ensures
            bytes@.len() < 2 * 4096 ==> (r matches Err(RegionError::HeaderTooShort)),
            bytes@.len() >= 2 * 4096 ==> (r matches Ok(f) && f.bytes() == bytes@ && f.locations() == location_table(
                bytes@,
            )),
    {
        if bytes.len() < 2 * SECTOR_BYTES {
            return Err(RegionError::HeaderTooShort);
        }
        let mut locations: Vec<u32> = Vec::new();
        let mut i: usize = 0;
        while i < 1024
            invariant
                i <= 1024,
                bytes@.len() >= 2 * 4096,
                locations@ == location_table(bytes@).take(i as int),
            decreases 1024 - i,
        {
            let v = be32_at(&bytes, i * 4);
            assert(location_table(bytes@).take(i + 1) =~= location_table(bytes@).take(i as int).push(v));
            locations.push(v);
            i += 1;
        }
        assert(location_table(bytes@).take(1024) =~= location_table(bytes@));
        Ok(Self { data: bytes, locations })
    }

    /// The (sector offset, sector count) location of chunk `(x, z)` —
    /// local coordinates 0..32 — or `None` if the chunk was never generated.
    fn location(&self, x: u8, z: u8) -> (r: Option<(usize, usize)>)
        requires
            x < 32,
            z < 32,
        ensures
            match spec_location(self.locations(), x as int, z as int) {
                Some((o, s)) => r == Some((o as usize, s as usize)),
                None => r is None,
            },
    {
        proof {
            use_type_invariant(self);
        }
        let index = x as usize + z as usize * 32;
        let entry = self.locations[index];
        let offset = (entry / 256) as usize;
        let sectors = (entry % 256) as usize;
        if offset > 0 && sectors > 0 {
            Some((offset, sectors))
        } else {
            None
        }
    }

    /// Coordinates of every chunk present in this region (local 0..32), in
    /// row order (`z` outer, `x` inner).
    pub fn present_chunks(&self) -> (r: Vec<(u8, u8)>)
        ensures
            r@ == present_list(self.locations(), 1024),
    {
        let mut chunks: Vec<(u8, u8)> = Vec::new();
        let mut z: u8 = 0;
        while z < REGION_CHUNKS
            invariant
                z <= 32,
                chunks@ == present_list(self.locations(), z as int * 32),
            decreases 32 - z,
        {
            let mut x: u8 = 0;
            while x < REGION_CHUNKS
                invariant
                    z < 32,
                    x <= 32,
                    chunks@ == present_list(self.locations(), z as int * 32 + x as int),
                decreases 32 - x,
            {
                let here = self.location(x, z);
                if here.is_some() {
                    chunks.push((x, z));
                }
                assert((z * 32 + x) / 32 == z && (z * 32 + x) % 32 == x);
                x += 1;
            }
            z += 1;
        }
        chunks
    }

    /// Decompressed NBT bytes of chunk `(x, z)`, or `None` if absent.
    pub fn chunk_nbt(&mut self, x: u8, z: u8) -> (r: Option<Result<Vec<u8>, RegionError>>)
        requires
            x < 32,
            z < 32,
        ensures
            final(self).bytes() == old(self).bytes(),
            final(self).locations() == old(self).locations(),
            match spec_location(old(self).locations(), x as int, z as int) {
                None => r is None,
                Some((offset, _s)) => match spec_chunk_read(old(self).bytes(), offset * 4096) {
                    ChunkRead::OutOfBounds => r matches Some(Err(RegionError::ChunkOutOfBounds)),
                    ChunkRead::Truncated => r matches Some(Err(RegionError::TruncatedChunk)),
                    ChunkRead::Unsupported(k) => r matches Some(Err(RegionError::UnsupportedCompression(k2))) && k2 == k,
                    ChunkRead::Payload(kind, payload) => match spec_decompress(kind, payload) {
                        Some(v) => r matches Some(Ok(out)) && out@ == v,
                        None => r matches Some(Err(RegionError::Io(_))),
                    },
                },
            },
    {
        proof {
            use_type_invariant(&*self);
        }
        let (offset, _sectors) = match self.location(x, z) {
            Some(l) => l,
            None => return None,
        };
        let len = self.data.len();
        if offset > (len - 5) / SECTOR_BYTES || offset * SECTOR_BYTES > len - 5 {
            return Some(Err(RegionError::ChunkOutOfBounds));
        }
        let start = offset * SECTOR_BYTES;
        let length = be32_at(&self.data, start) as usize;
        if length == 0 {
            return Some(Err(RegionError::TruncatedChunk));
        }
        let compression = match self.data[start + 4] {
            1 => Compression::Gzip,
            2 => Compression::Zlib,
            3 => Compression::Uncompressed,
            other => return Some(Err(RegionError::UnsupportedCompression(other))),
        };
        let payload_len = length - 1;
        if payload_len > len - (start + 5) {
            return Some(Err(RegionError::TruncatedChunk));
        }
        let payload = &self.data.as_slice()[start + 5..start + 5 + payload_len];
        Some(decompress(compression, payload))
    }
}

/// The present chunks among the first `n` table slots, in slot order
/// (slot `i` is chunk `(i % 32, i / 32)`).
pub open spec fn present_list(locs: Seq<u32>, n: int) -> Seq<(u8, u8)>
    decreases n,
{
    if n <= 0 {
        Seq::empty()
    } else {
        let prev = present_list(locs, n - 1);
        let i = n - 1;
        if spec_location(locs, i % 32, i / 32) is Some {
            prev.push(((i % 32) as u8, (i / 32) as u8))
        } else {
            prev
        }
    }
}

} // verus!
