//! Little-endian NBT reader for Bedrock Edition data (`level.dat`, subchunk
//! palettes, structure files, player records).
//!
//! Bedrock stores the NBT tag format with little-endian numbers and may
//! concatenate several root tags in one payload, so the reader is a cursor
//! that can be asked for one root after another.
//!
//! The meaning of a payload is given by [`spec_value`]: for every tag id it
//! says which value the bytes at hand denote and how many bytes that value
//! occupies, or which error stops the read and how far the cursor got.
//! Floating-point payloads are kept as their raw IEEE-754 bit patterns.

use vstd::prelude::*;
use crate::text::utf8_lossy;
use crate::text::decode_lossy;

verus! {

/// The meaning of a parsed NBT value.
pub ghost enum Tag {
    Byte(i8),
    Short(i16),
    Int(i32),
    Long(i64),
    Float(u32),
    Double(u64),
    ByteArray(Seq<i8>),
    Str(Seq<char>),
    List(Seq<Tag>),
    Compound(Seq<(Seq<char>, Tag)>),
    IntArray(Seq<i32>),
    LongArray(Seq<i64>),
}

/// A parsed NBT value (little-endian variant).
pub enum NbtValue {
    /// `TAG_Byte`.
    Byte(i8),
    /// `TAG_Short`.
    Short(i16),
    /// `TAG_Int`.
    Int(i32),
    /// `TAG_Long`.
    Long(i64),
    /// `TAG_Float`, as its IEEE-754 bit pattern.
    Float(u32),
    /// `TAG_Double`, as its IEEE-754 bit pattern.
    Double(u64),
    /// `TAG_Byte_Array`.
    ByteArray(Vec<i8>),
    /// `TAG_String`.
    String(String),
    /// `TAG_List`.
    List(Vec<NbtValue>),
    /// `TAG_Compound`: named entries, each name at most once.
    Compound(NbtCompound),
    /// `TAG_Int_Array`.
    IntArray(Vec<i32>),
    /// `TAG_Long_Array`.
    LongArray(Vec<i64>),
}

/// The entries of a `TAG_Compound`, in the order their names first appeared.
/// A name that occurs twice in a payload keeps the later value.
pub struct NbtCompound {
    pub entries: Vec<(String, NbtValue)>,
}

/// Why an LE NBT payload could not be parsed.
#[derive(Debug, PartialEq, Eq, Structural)]
pub enum NbtLeError {
    /// The root tag id was `TAG_End`.
    EndAtRoot,
    /// The payload ended before a value it announced.
    Truncated,
    /// A list announced a negative length.
    NegativeListLength,
    /// A tag id outside `1..=12` where a value was expected.
    UnknownTag(u8),
}

impl NbtValue {
    /// What this value denotes.
    pub open spec fn model(&self) -> Tag
        decreases self,
    {
        match self {
            NbtValue::Byte(v) => Tag::Byte(*v),
            NbtValue::Short(v) => Tag::Short(*v),
            NbtValue::Int(v) => Tag::Int(*v),
            NbtValue::Long(v) => Tag::Long(*v),
            NbtValue::Float(v) => Tag::Float(*v),
            NbtValue::Double(v) => Tag::Double(*v),
            NbtValue::ByteArray(v) => Tag::ByteArray(v@),
            NbtValue::String(s) => Tag::Str(s@),
            NbtValue::List(items) => Tag::List(list_model(items@)),
            NbtValue::Compound(c) => Tag::Compound(entries_model(c.entries@)),
            NbtValue::IntArray(v) => Tag::IntArray(v@),
            NbtValue::LongArray(v) => Tag::LongArray(v@),
        }
    }

    /// The compound, when this value is a compound.
    pub fn as_compound(&self) -> (r: Option<&NbtCompound>)
        ensures
            r matches Some(c) ==> self matches NbtValue::Compound(d) && c == d,
            r is None <==> !(self is Compound),
    {
        match self {
            NbtValue::Compound(map) => Some(map),
            _ => None,
        }
    }

    /// The string, when this value is a string.
    pub fn as_str(&self) -> (r: Option<&str>)
        ensures
            r matches Some(s) ==> self matches NbtValue::String(t) && s@ == t@,
            r is None <==> !(self is String),
    {
        match self {
            NbtValue::String(s) => Some(s.as_str()),
            _ => None,
        }
    }
}

/// The meanings of a list's items.
pub open spec fn list_model(items: Seq<NbtValue>) -> Seq<Tag>
    decreases items,
{
    Seq::new(
        items.len(),
        |i: int|
            if 0 <= i < items.len() {
                items[i].model()
            } else {
                Tag::Byte(0)
            },
    )
}

/// The entries of a compound as name/meaning pairs.
pub open spec fn entries_model(es: Seq<(String, NbtValue)>) -> Seq<(Seq<char>, Tag)>
    decreases es,
{
    Seq::new(
        es.len(),
        |i: int|
            if 0 <= i < es.len() {
                (es[i].0@, es[i].1.model())
            } else {
                (Seq::empty(), Tag::Byte(0))
            },
    )
}

/// Index of the entry named `k`, or -1.
pub open spec fn key_index(m: Seq<(Seq<char>, Tag)>, k: Seq<char>) -> int
    decreases m.len(),
{
    if m.len() == 0 {
        -1
    } else if m[0].0 == k {
        0
    } else {
        let j = key_index(m.drop_first(), k);
        if j < 0 {
            -1
        } else {
            j + 1
        }
    }
}

/// A map-style insert on an association list: replace the value of an
/// existing name, or append a new entry.
pub open spec fn assoc_put(m: Seq<(Seq<char>, Tag)>, k: Seq<char>, v: Tag) -> Seq<(Seq<char>, Tag)> {
    let j = key_index(m, k);
    if j >= 0 {
        m.update(j, (k, v))
    } else {
        m.push((k, v))
    }
}

/// The compound a sequence of named entries builds, later names winning.
pub open spec fn build_compound(raw: Seq<(Seq<char>, Tag)>) -> Seq<(Seq<char>, Tag)>
    decreases raw.len(),
{
    if raw.len() == 0 {
        Seq::empty()
    } else {
        assoc_put(build_compound(raw.drop_last()), raw.last().0, raw.last().1)
    }
}

/// Little-endian 16-bit unsigned value at `p`.
pub open spec fn le16(r: Seq<u8>, p: int) -> int {
    r[p] + 256 * r[p + 1]
}

/// Little-endian 32-bit unsigned value at `p`.
pub open spec fn le32(r: Seq<u8>, p: int) -> int {
    le16(r, p) + 65536 * le16(r, p + 2)
}

/// Little-endian 64-bit unsigned value at `p`.
pub open spec fn le64(r: Seq<u8>, p: int) -> int {
    le32(r, p) + 4294967296 * le32(r, p + 4)
}

/// Two's-complement reading of an unsigned value `v` of the given width
/// (`modulus` = 2^bits).
pub open spec fn signed(v: int, modulus: int) -> int {
    if v < modulus / 2 {
        v
    } else {
        v - modulus
    }
}

/// The signed byte a raw byte denotes.
pub open spec fn byte_i8(b: u8) -> i8 {
    signed(b as int, 256) as i8
}

/// Outcome of reading a value from the front of a byte sequence: the value
/// and the bytes it occupies, or the error and how many bytes were consumed
/// before it.
pub type Parsed<T> = Result<(T, int), (NbtLeError, int)>;

/// Reads `n` fixed-width little-endian numbers following a 4-byte length.
/// `width` is 4 or 8.
pub open spec fn spec_number_array(r: Seq<u8>, n: int, width: int) -> Result<int, (NbtLeError, int)> {
    if n < 0 || 4 + width * n > r.len() {
        Err((NbtLeError::Truncated, 4 + width * ((r.len() - 4) / width)))
    } else {
        Ok(4 + width * n)
    }
}

/// The payload of a value of kind `tag` at the front of `r`.
pub open spec fn spec_value(r: Seq<u8>, tag: u8) -> Parsed<Tag>
    decreases r.len(), 1int, 0int,
{
    if tag == 1 {
        if r.len() < 1 {
            Err((NbtLeError::Truncated, 0))
        } else {
            Ok((Tag::Byte(byte_i8(r[0])), 1))
        }
    } else if tag == 2 {
        if r.len() < 2 {
            Err((NbtLeError::Truncated, 0))
        } else {
            Ok((Tag::Short(signed(le16(r, 0), 65536) as i16), 2))
        }
    } else if tag == 3 || tag == 5 {
        if r.len() < 4 {
            Err((NbtLeError::Truncated, 0))
        } else if tag == 3 {
            Ok((Tag::Int(signed(le32(r, 0), 0x1_0000_0000) as i32), 4))
        } else {
            Ok((Tag::Float(le32(r, 0) as u32), 4))
        }
    } else if tag == 4 || tag == 6 {
        if r.len() < 8 {
            Err((NbtLeError::Truncated, 0))
        } else if tag == 4 {
            Ok((Tag::Long(signed(le64(r, 0), 0x1_0000_0000_0000_0000) as i64), 8))
        } else {
            Ok((Tag::Double(le64(r, 0) as u64), 8))
        }
    } else if tag == 7 {
        if r.len() < 4 {
            Err((NbtLeError::Truncated, 0))
        } else {
            let n = signed(le32(r, 0), 0x1_0000_0000);
            if n < 0 || 4 + n > r.len() {
                Err((NbtLeError::Truncated, 4))
            } else {
                Ok((Tag::ByteArray(r.subrange(4, 4 + n).map_values(|b: u8| byte_i8(b))), 4 + n))
            }
        }
    } else if tag == 8 {
        if r.len() < 2 {
            Err((NbtLeError::Truncated, 0))
        } else {
            let n = le16(r, 0);
            if 2 + n > r.len() {
                Err((NbtLeError::Truncated, 2))
            } else {
                Ok((Tag::Str(utf8_lossy(r.subrange(2, 2 + n))), 2 + n))
            }
        }
    } else if tag == 9 {
        if r.len() < 1 {
            Err((NbtLeError::Truncated, 0))
        } else if r.len() < 5 {
            Err((NbtLeError::Truncated, 1))
        } else {
            let n = signed(le32(r, 1), 0x1_0000_0000);
            if n < 0 {
                Err((NbtLeError::NegativeListLength, 5))
            } else {
                match spec_items(r.skip(5), r[0], n) {
                    Ok((vs, c)) => Ok((Tag::List(vs), 5 + c)),
                    Err((e, k)) => Err((e, 5 + k)),
                }
            }
        }
    } else if tag == 10 {
        match spec_entries(r) {
            Ok((raw, c)) => Ok((Tag::Compound(build_compound(raw)), c)),
            Err(e) => Err(e),
        }
    } else if tag == 11 {
        if r.len() < 4 {
            Err((NbtLeError::Truncated, 0))
        } else {
            let n = signed(le32(r, 0), 0x1_0000_0000);
            match spec_number_array(r, n, 4) {
                Ok(c) => Ok((
                    Tag::IntArray(Seq::new(n as nat, |i: int| signed(le32(r, 4 + 4 * i), 0x1_0000_0000) as i32)),
                    c,
                )),
                Err(e) => Err(e),
            }
        }
    } else if tag == 12 {
        if r.len() < 4 {
            Err((NbtLeError::Truncated, 0))
        } else {
            let n = signed(le32(r, 0), 0x1_0000_0000);
            match spec_number_array(r, n, 8) {
                Ok(c) => Ok((
                    Tag::LongArray(
                        Seq::new(n as nat, |i: int| signed(le64(r, 4 + 8 * i), 0x1_0000_0000_0000_0000) as i64),
                    ),
                    c,
                )),
                Err(e) => Err(e),
            }
        }
    } else {
        Err((NbtLeError::UnknownTag(tag), 0))
    }
}

/// `n` consecutive payloads of kind `tag` (the body of a `TAG_List`).
pub open spec fn spec_items(r: Seq<u8>, tag: u8, n: int) -> Parsed<Seq<Tag>>
    decreases r.len(), 2int, n,
{
    if n <= 0 {
        Ok((Seq::empty(), 0))
    } else {
        match spec_value(r, tag) {
            Err(e) => Err(e),
            Ok((v, c)) => if 0 < c <= r.len() {
                match spec_items(r.skip(c), tag, n - 1) {
                    Ok((vs, c2)) => Ok((seq![v] + vs, c + c2)),
                    Err((e, k)) => Err((e, c + k)),
                }
            } else {
                Err((NbtLeError::Truncated, 0))
            },
        }
    }
}

/// The named entries of a `TAG_Compound` up to and including its `TAG_End`.
pub open spec fn spec_entries(r: Seq<u8>) -> Parsed<Seq<(Seq<char>, Tag)>>
    decreases r.len(), 0int, 0int,
{
    if r.len() < 1 {
        Err((NbtLeError::Truncated, 0))
    } else if r[0] == 0 {
        Ok((Seq::empty(), 1))
    } else if r.len() < 3 {
        Err((NbtLeError::Truncated, 1))
    } else {
        let h = 3 + le16(r, 1);
        if h > r.len() {
            Err((NbtLeError::Truncated, 3))
        } else {
            let name = utf8_lossy(r.subrange(3, h));
            match spec_value(r.skip(h), r[0]) {
                Err((e, k)) => Err((e, h + k)),
                Ok((v, c)) => if 0 < c <= r.len() - h {
                    match spec_entries(r.skip(h + c)) {
                        Ok((es, c2)) => Ok((seq![(name, v)] + es, h + c + c2)),
                        Err((e, k)) => Err((e, h + c + k)),
                    }
                } else {
                    Err((NbtLeError::Truncated, 0))
                },
            }
        }
    }
}

/// One step of a compound body: the closing `TAG_End` (`None`) or one named
/// entry, with the bytes it occupies.
pub open spec fn spec_entry(r: Seq<u8>) -> Parsed<Option<(Seq<char>, Tag)>> {
    if r.len() < 1 {
        Err((NbtLeError::Truncated, 0))
    } else if r[0] == 0 {
        Ok((None, 1))
    } else if r.len() < 3 {
        Err((NbtLeError::Truncated, 1))
    } else {
        let h = 3 + le16(r, 1);
        if h > r.len() {
            Err((NbtLeError::Truncated, 3))
        } else {
            match spec_value(r.skip(h), r[0]) {
                Err((e, k)) => Err((e, h + k)),
                Ok((v, c)) => Ok((Some((utf8_lossy(r.subrange(3, h)), v)), h + c)),
            }
        }
    }
}

/// A root tag: id, length-prefixed name, payload.
pub open spec fn spec_root(r: Seq<u8>) -> Parsed<Tag> {
    if r.len() < 1 {
        Err((NbtLeError::Truncated, 0))
    } else if r[0] == 0 {
        Err((NbtLeError::EndAtRoot, 1))
    } else if r.len() < 3 {
        Err((NbtLeError::Truncated, 1))
    } else {
        let h = 3 + le16(r, 1);
        if h > r.len() {
            Err((NbtLeError::Truncated, 3))
        } else {
            match spec_value(r.skip(h), r[0]) {
                Ok((v, c)) => Ok((v, h + c)),
                Err((e, k)) => Err((e, h + k)),
            }
        }
    }
}

} // verus!

verus! {

/// Bounds on what a read consumes: a value always occupies at least one
/// byte and never more than there are; an error never lies past the end.
pub proof fn lemma_value_bounds(r: Seq<u8>, tag: u8)
    ensures
        match spec_value(r, tag) {
            Ok((_v, c)) => 0 < c <= r.len(),
            Err((_e, k)) => 0 <= k <= r.len(),
        },
    decreases r.len(), 1int, 0int,
{
    if tag == 9 && r.len() >= 5 {
        let n = signed(le32(r, 1), 0x1_0000_0000);
        if n >= 0 {
            lemma_items_bounds(r.skip(5), r[0], n);
        }
    } else if tag == 10 {
        lemma_entries_bounds(r);
    } else if tag == 11 || tag == 12 {
        if r.len() >= 4 {
            let w: int = if tag == 11 { 4 } else { 8 };
            let n = signed(le32(r, 0), 0x1_0000_0000);
            assert(4 + w * ((r.len() - 4) / w) <= r.len()) by (nonlinear_arith)
                requires w == 4 || w == 8, r.len() >= 4;
            assert(n >= 0 ==> 4 + w * n >= 4) by (nonlinear_arith)
                requires w == 4 || w == 8;
        }
    }
}

/// Bounds on a list body read.
pub proof fn lemma_items_bounds(r: Seq<u8>, tag: u8, n: int)
    ensures
        match spec_items(r, tag, n) {
            Ok((vs, c)) => 0 <= c <= r.len() && vs.len() == if n < 0 { 0 } else { n },
            Err((_e, k)) => 0 <= k <= r.len(),
        },
    decreases r.len(), 2int, n,
{
    if n > 0 {
        lemma_value_bounds(r, tag);
        if let Ok((v, c)) = spec_value(r, tag) {
            lemma_items_bounds(r.skip(c), tag, n - 1);
        }
    }
}

/// Bounds on a compound body read.
pub proof fn lemma_entries_bounds(r: Seq<u8>)
    ensures
        match spec_entries(r) {
            Ok((_es, c)) => 0 < c <= r.len(),
            Err((_e, k)) => 0 <= k <= r.len(),
        },
    decreases r.len(), 0int, 0int,
{
    if r.len() >= 3 && r[0] != 0 {
        let h = 3 + le16(r, 1);
        if h <= r.len() {
            lemma_value_bounds(r.skip(h), r[0]);
            if let Ok((v, c)) = spec_value(r.skip(h), r[0]) {
                lemma_entries_bounds(r.skip(h + c));
            }
        }
    }
}

} // verus!

verus! {

/// A compound body is its first step followed by the rest of the body.
pub proof fn lemma_entries_step(r: Seq<u8>)
    ensures
        spec_entries(r) == match spec_entry(r) {
            Err(e) => Err(e),
            Ok((None, c)) => Ok((Seq::empty(), c)),
            Ok((Some(e), c)) => match spec_entries(r.skip(c)) {
                Ok((es, c2)) => Ok((seq![e] + es, c + c2)),
                Err((e2, k)) => Err((e2, c + k)),
            },
        },
        match spec_entry(r) {
            Ok((_x, c)) => 0 < c <= r.len(),
            Err((_e, k)) => 0 <= k <= r.len(),
        },
{
    if r.len() >= 3 && r[0] != 0 {
        let h = 3 + le16(r, 1);
        if h <= r.len() {
            lemma_value_bounds(r.skip(h), r[0]);
            if let Ok((v, c)) = spec_value(r.skip(h), r[0]) {
                assert(r.skip(h).skip(c) =~= r.skip(h + c));
            }
        }
    }
}

/// Index of the entry named `k`, as the first match.
pub proof fn lemma_key_index(m: Seq<(Seq<char>, Tag)>, k: Seq<char>)
    ensures
        -1 <= key_index(m, k) < m.len(),
        key_index(m, k) >= 0 ==> m[key_index(m, k)].0 == k,
        forall|j: int| 0 <= j < m.len() && (key_index(m, k) < 0 || j < key_index(m, k)) ==> m[j].0 != k,
    decreases m.len(),
{
    if m.len() > 0 && m[0].0 != k {
        lemma_key_index(m.drop_first(), k);
        assert forall|j: int| 0 <= j < m.len() && (key_index(m, k) < 0 || j < key_index(m, k)) implies m[j].0 != k by {
            if j > 0 {
                assert(m[j] == m.drop_first()[j - 1]);
            }
        }
    }
}

impl NbtCompound {
    /// The entries as name/meaning pairs.
    pub open spec fn model(&self) -> Seq<(Seq<char>, Tag)> {
        entries_model(self.entries@)
    }

    /// The value stored under `key`.
    pub fn get(&self, key: &str) -> (r: Option<&NbtValue>)
        ensures
            key_index(self.model(), key@) < 0 ==> r is None,
            key_index(self.model(), key@) >= 0 ==> r == Some(&self.entries@[key_index(self.model(), key@)].1),
    {
        proof {
            lemma_key_index(self.model(), key@);
        }
        let mut i: usize = 0;
        while i < self.entries.len()
            invariant
                i <= self.entries@.len(),
                -1 <= key_index(self.model(), key@) < self.entries@.len(),
                key_index(self.model(), key@) >= 0 ==> i <= key_index(self.model(), key@),
                key_index(self.model(), key@) >= 0 ==> self.model()[key_index(self.model(), key@)].0 == key@,
                forall|j: int|
                    0 <= j < self.entries@.len() && (key_index(self.model(), key@) < 0 || j < key_index(
                        self.model(),
                        key@,
                    )) ==> self.model()[j].0 != key@,
            decreases self.entries@.len() - i,
        {
            if crate::text::str_eq(self.entries[i].0.as_str(), key) {
                assert(self.model()[i as int].0 == key@);
                return Some(&self.entries[i].1);
            }
            i += 1;
        }
        None
    }

    /// Number of entries.
    pub fn len(&self) -> (n: usize)
        ensures
            n == self.model().len(),
    {
        self.entries.len()
    }
}

/// Inserts `name -> value`, replacing the value of an existing entry of
/// that name.
fn compound_insert(entries: &mut Vec<(String, NbtValue)>, name: String, value: NbtValue)
    ensures
        entries_model(final(entries)@) == assoc_put(entries_model(old(entries)@), name@, value.model()),
{
    let ghost m = entries_model(entries@);
    proof {
        lemma_key_index(m, name@);
    }
    let mut i: usize = 0;
    let mut found = false;
    while i < entries.len()
        invariant
            i <= entries@.len(),
            m == entries_model(entries@),
            -1 <= key_index(m, name@) < entries@.len(),
            key_index(m, name@) >= 0 ==> m[key_index(m, name@)].0 == name@,
            forall|j: int| 0 <= j < entries@.len() && (key_index(m, name@) < 0 || j < key_index(m, name@)) ==> m[j].0 != name@,
            !found ==> (key_index(m, name@) < 0 || i <= key_index(m, name@)),
            found ==> i == key_index(m, name@),
        ensures
            !found ==> i == entries@.len(),
            found ==> i == key_index(m, name@),
        decreases entries@.len() - i,
    {
        if entries[i].0 == name {
            assert(m[i as int].0 == name@);
            found = true;
            break;
        }
        i += 1;
    }
    if found {
        let ghost nm = name@;
        let ghost vm = value.model();
        entries.set(i, (name, value));
        assert(entries_model(entries@) =~= m.update(i as int, (nm, vm)));
    } else {
        let ghost nm = name@;
        let ghost vm = value.model();
        entries.push((name, value));
        assert(entries_model(entries@) =~= m.push((nm, vm)));
    }
}

/// A byte cursor over an LE NBT payload. Create one per payload and call
/// [`NbtCursor::read_root`] once per root tag.
pub struct NbtCursor<'a> {
    bytes: &'a [u8],
    pos: usize,
}

impl<'a> NbtCursor<'a> {
    #[verifier::type_invariant]
    spec fn inv(&self) -> bool {
        self.pos <= self.bytes@.len()
    }

    /// The whole payload.
    pub closed spec fn data(&self) -> Seq<u8> {
        self.bytes@
    }

    /// Bytes consumed so far.
    pub closed spec fn offset(&self) -> int {
        self.pos as int
    }

    /// The bytes not yet consumed.
    pub open spec fn rest(&self) -> Seq<u8> {
        self.data().skip(self.offset())
    }

    /// Start reading at the beginning of `bytes`.
    pub fn new(bytes: &'a [u8]) -> (c: Self)
        ensures
            c.data() == bytes@,
            c.offset() == 0,
    {
        Self { bytes, pos: 0 }
    }

    /// Bytes consumed so far.
    pub fn position(&self) -> (p: usize)
        ensures
            p == self.offset(),
    {
        self.pos
    }

    /// True when no bytes remain.
    pub fn is_empty(&self) -> (b: bool)
        ensures
            b == (self.offset() >= self.data().len()),
    {
        self.pos >= self.bytes.len()
    }

    /// The next `len` bytes; a truncation error (consuming nothing) when
    /// fewer remain.
    fn take(&mut self, len: usize) -> (r: Result<&'a [u8], NbtLeError>)
        ensures
            final(self).data() == old(self).data(),
            0 <= old(self).offset() <= old(self).data().len(),
            0 <= final(self).offset() <= final(self).data().len(),
            match r {
                Ok(s) => len <= old(self).rest().len() && s@ == old(self).rest().take(len as int)
                    && final(self).offset() == old(self).offset() + len,
                Err(e) => len > old(self).rest().len() && e == NbtLeError::Truncated
                    && final(self).offset() == old(self).offset(),
            },
    {
        proof {
            use_type_invariant(&*self);
        }
        if len > self.bytes.len() - self.pos {
            return Err(NbtLeError::Truncated);
        }
        let end = self.pos + len;
        let slice = &self.bytes[self.pos..end];
        assert(slice@ =~= self.rest().take(len as int));
        self.pos = end;
        Ok(slice)
    }

    fn u8(&mut self) -> (r: Result<u8, NbtLeError>)
        ensures
            final(self).data() == old(self).data(),
            0 <= final(self).offset() <= final(self).data().len(),
            old(self).rest().len() >= 1 ==> r == Ok::<u8, NbtLeError>(old(self).rest()[0])
                && final(self).offset() == old(self).offset() + 1,
            old(self).rest().len() < 1 ==> r == Err::<u8, NbtLeError>(NbtLeError::Truncated)
                && final(self).offset() == old(self).offset(),
    {
        let s = self.take(1)?;
        Ok(s[0])
    }

    fn u16(&mut self) -> (r: Result<u16, NbtLeError>)
        ensures
            final(self).data() == old(self).data(),
            0 <= final(self).offset() <= final(self).data().len(),
            old(self).rest().len() >= 2 ==> r == Ok::<u16, NbtLeError>(le16(old(self).rest(), 0) as u16)
                && final(self).offset() == old(self).offset() + 2,
            old(self).rest().len() < 2 ==> r == Err::<u16, NbtLeError>(NbtLeError::Truncated)
                && final(self).offset() == old(self).offset(),
    {
        let s = self.take(2)?;
        Ok(s[0] as u16 + (s[1] as u16) * 256)
    }

    fn i16(&mut self) -> (r: Result<i16, NbtLeError>)
        ensures
            final(self).data() == old(self).data(),
            0 <= final(self).offset() <= final(self).data().len(),
            old(self).rest().len() >= 2 ==> r == Ok::<i16, NbtLeError>(signed(le16(old(self).rest(), 0), 65536) as i16)
                && final(self).offset() == old(self).offset() + 2,
            old(self).rest().len() < 2 ==> r == Err::<i16, NbtLeError>(NbtLeError::Truncated)
                && final(self).offset() == old(self).offset(),
    {
        let v = self.u16()?;
        if v < 32768 {
            Ok(v as i16)
        } else {
            Ok((v as i32 - 65536) as i16)
        }
    }

    fn u32(&mut self) -> (r: Result<u32, NbtLeError>)
        ensures
            final(self).data() == old(self).data(),
            0 <= final(self).offset() <= final(self).data().len(),
            old(self).rest().len() >= 4 ==> r == Ok::<u32, NbtLeError>(le32(old(self).rest(), 0) as u32)
                && final(self).offset() == old(self).offset() + 4,
            old(self).rest().len() < 4 ==> r == Err::<u32, NbtLeError>(NbtLeError::Truncated)
                && final(self).offset() == old(self).offset(),
    {
        let s = self.take(4)?;
        Ok(s[0] as u32 + (s[1] as u32) * 256 + (s[2] as u32) * 65536 + (s[3] as u32) * 16777216)
    }

    fn i32(&mut self) -> (r: Result<i32, NbtLeError>)
        ensures
            final(self).data() == old(self).data(),
            0 <= final(self).offset() <= final(self).data().len(),
            old(self).rest().len() >= 4 ==> r == Ok::<i32, NbtLeError>(signed(le32(old(self).rest(), 0), 0x1_0000_0000) as i32)
                && final(self).offset() == old(self).offset() + 4,
            old(self).rest().len() < 4 ==> r == Err::<i32, NbtLeError>(NbtLeError::Truncated)
                && final(self).offset() == old(self).offset(),
    {
        let v = self.u32()?;
        if v < 0x8000_0000 {
            Ok(v as i32)
        } else {
            Ok((v as i64 - 0x1_0000_0000) as i32)
        }
    }

    fn u64(&mut self) -> (r: Result<u64, NbtLeError>)
        ensures
            final(self).data() == old(self).data(),
            0 <= final(self).offset() <= final(self).data().len(),
            old(self).rest().len() >= 8 ==> r == Ok::<u64, NbtLeError>(le64(old(self).rest(), 0) as u64)
                && final(self).offset() == old(self).offset() + 8,
            old(self).rest().len() < 8 ==> r == Err::<u64, NbtLeError>(NbtLeError::Truncated)
                && final(self).offset() == old(self).offset(),
    {
        let s = self.take(8)?;
        let lo = s[0] as u64 + (s[1] as u64) * 256 + (s[2] as u64) * 65536 + (s[3] as u64) * 16777216;
        let hi = s[4] as u64 + (s[5] as u64) * 256 + (s[6] as u64) * 65536 + (s[7] as u64) * 16777216;
        Ok(lo + hi * 4294967296)
    }

    fn i64(&mut self) -> (r: Result<i64, NbtLeError>)
        ensures
            final(self).data() == old(self).data(),
            0 <= final(self).offset() <= final(self).data().len(),
            old(self).rest().len() >= 8 ==> r == Ok::<i64, NbtLeError>(signed(le64(old(self).rest(), 0), 0x1_0000_0000_0000_0000) as i64)
                && final(self).offset() == old(self).offset() + 8,
            old(self).rest().len() < 8 ==> r == Err::<i64, NbtLeError>(NbtLeError::Truncated)
                && final(self).offset() == old(self).offset(),
    {
        let v = self.u64()?;
        if v < 0x8000_0000_0000_0000 {
            Ok(v as i64)
        } else {
            Ok(((v - 0x8000_0000_0000_0000) as i64) - 0x7fff_ffff_ffff_ffff - 1)
        }
    }

    /// A `TAG_Float` payload, as its bit pattern.
    fn f32_bits(&mut self) -> (r: Result<u32, NbtLeError>)
        ensures
            final(self).data() == old(self).data(),
            0 <= final(self).offset() <= final(self).data().len(),
            old(self).rest().len() >= 4 ==> r == Ok::<u32, NbtLeError>(le32(old(self).rest(), 0) as u32)
                && final(self).offset() == old(self).offset() + 4,
            old(self).rest().len() < 4 ==> r == Err::<u32, NbtLeError>(NbtLeError::Truncated)
                && final(self).offset() == old(self).offset(),
    {
        self.u32()
    }

    /// A `TAG_Double` payload, as its bit pattern.
    fn f64_bits(&mut self) -> (r: Result<u64, NbtLeError>)
        ensures
            final(self).data() == old(self).data(),
            0 <= final(self).offset() <= final(self).data().len(),
            old(self).rest().len() >= 8 ==> r == Ok::<u64, NbtLeError>(le64(old(self).rest(), 0) as u64)
                && final(self).offset() == old(self).offset() + 8,
            old(self).rest().len() < 8 ==> r == Err::<u64, NbtLeError>(NbtLeError::Truncated)
                && final(self).offset() == old(self).offset(),
    {
        self.u64()
    }
}

} // verus!

verus! {

/// The signed byte a raw byte denotes.
fn to_i8(b: u8) -> (v: i8)
    ensures
        v == byte_i8(b),
{
    if b < 128 {
        b as i8
    } else {
        (b as i16 - 256) as i8
    }
}

/// The outcome a payload read must have, given the cursor before and after.
pub open spec fn read_matches(
    before: Seq<u8>,
    before_offset: int,
    after_offset: int,
    outcome: Parsed<Tag>,
    r: Result<NbtValue, NbtLeError>,
) -> bool {
    match outcome {
        Ok((v, c)) => r matches Ok(x) && x.model() == v && after_offset == before_offset + c,
        Err((e, k)) => r == Err::<NbtValue, NbtLeError>(e) && after_offset == before_offset + k,
    }
}

impl<'a> NbtCursor<'a> {
    /// Read one root tag (`type`, `name`, payload) and return its value.
    pub fn read_root(&mut self) -> (r: Result<NbtValue, NbtLeError>)
        ensures
            final(self).data() == old(self).data(),
            0 <= final(self).offset() <= final(self).data().len(),
            read_matches(old(self).rest(), old(self).offset(), final(self).offset(), spec_root(old(self).rest()), r),
    {
        let ghost r0 = self.rest();
        let tag = self.u8()?;
        if tag == 0 {
            return Err(NbtLeError::EndAtRoot);
        }
        let name_len = self.u16()?;
        let _name = self.take(name_len as usize)?;
        proof {
            assert(self.rest() =~= r0.skip(3 + le16(r0, 1)));
        }
        self.payload(tag)
    }

    /// The payload of a value of kind `tag`.
    fn payload(&mut self, tag: u8) -> (r: Result<NbtValue, NbtLeError>)
        ensures
            final(self).data() == old(self).data(),
            0 <= final(self).offset() <= final(self).data().len(),
            read_matches(old(self).rest(), old(self).offset(), final(self).offset(), spec_value(old(self).rest(), tag), r),
        decreases old(self).data().len() - old(self).offset(), 2int,
    {
        proof {
            use_type_invariant(&*self);
        }
        let ghost r0 = self.rest();
        if tag == 1 {
            let b = self.u8()?;
            Ok(NbtValue::Byte(to_i8(b)))
        } else if tag == 2 {
            let v = self.i16()?;
            Ok(NbtValue::Short(v))
        } else if tag == 3 {
            let v = self.i32()?;
            Ok(NbtValue::Int(v))
        } else if tag == 4 {
            let v = self.i64()?;
            Ok(NbtValue::Long(v))
        } else if tag == 5 {
            let v = self.f32_bits()?;
            Ok(NbtValue::Float(v))
        } else if tag == 6 {
            let v = self.f64_bits()?;
            Ok(NbtValue::Double(v))
        } else if tag == 7 {
            let n = self.i32()?;
            if n < 0 {
                return Err(NbtLeError::Truncated);
            }
            let raw = self.take(n as usize)?;
            let mut out: Vec<i8> = Vec::new();
            let mut i: usize = 0;
            while i < raw.len()
                invariant
                    i <= raw@.len(),
                    out@ == raw@.take(i as int).map_values(|b: u8| byte_i8(b)),
                decreases raw@.len() - i,
            {
                out.push(to_i8(raw[i]));
                assert(raw@.take(i + 1).map_values(|b: u8| byte_i8(b)) =~= raw@.take(i as int).map_values(
                    |b: u8| byte_i8(b),
                ).push(byte_i8(raw@[i as int])));
                i += 1;
            }
            proof {
                assert(raw@.take(raw@.len() as int) =~= raw@);
                assert(raw@ =~= r0.subrange(4, 4 + n));
            }
            Ok(NbtValue::ByteArray(out))
        } else if tag == 8 {
            let n = self.u16()?;
            let raw = self.take(n as usize)?;
            proof {
                assert(raw@ =~= r0.subrange(2, 2 + n));
            }
            Ok(NbtValue::String(crate::text::decode_lossy(raw)))
        } else if tag == 9 {
            self.read_list()
        } else if tag == 10 {
            self.read_compound()
        } else if tag == 11 {
            self.read_int_array()
        } else if tag == 12 {
            self.read_long_array()
        } else {
            Err(NbtLeError::UnknownTag(tag))
        }
    }

    /// The body of a `TAG_List`.
    fn read_list(&mut self) -> (r: Result<NbtValue, NbtLeError>)
        ensures
            final(self).data() == old(self).data(),
            0 <= final(self).offset() <= final(self).data().len(),
            read_matches(old(self).rest(), old(self).offset(), final(self).offset(), spec_value(old(self).rest(), 9), r),
        decreases old(self).data().len() - old(self).offset(), 1int,
    {
        proof {
            use_type_invariant(&*self);
        }
        let ghost r_all = self.rest();
        let ghost o_all = self.offset();
        let item_tag = self.u8()?;
        let len = self.i32()?;
        if len < 0 {
            return Err(NbtLeError::NegativeListLength);
        }
        let ghost r0 = self.rest();
        let ghost start = self.offset();
        proof {
            assert(r0 =~= r_all.skip(5));
        }
        let mut items: Vec<NbtValue> = Vec::new();
        let mut i: i32 = 0;
        let ghost mut done: Seq<Tag> = Seq::empty();
        while i < len
            invariant
                0 <= i <= len,
                self.data() == old(self).data(),
                o_all == old(self).offset(),
                r_all == old(self).rest(),
                item_tag == r_all[0],
                len == signed(le32(r_all, 1), 0x1_0000_0000),
                r_all.len() >= 5,
                start == o_all + 5,
                r0 == r_all.skip(5),
                start <= self.offset() <= self.data().len(),
                self.rest() =~= r0.skip(self.offset() - start),
                items@.len() == i,
                done.len() == i,
                forall|j: int| 0 <= j < i ==> items@[j].model() == done[j],
                spec_items(r0, item_tag, len as int) == match spec_items(self.rest(), item_tag, len - i) {
                    Ok((vs, c)) => Ok((done + vs, self.offset() - start + c)),
                    Err((e, k)) => Err((e, self.offset() - start + k)),
                },
            decreases len - i,
        {
            let ghost cur = self.rest();
            let ghost o = self.offset();
            proof {
                lemma_value_bounds(cur, item_tag);
            }
            let v = self.payload(item_tag)?;
            proof {
                let c = self.offset() - o;
                assert(self.rest() =~= cur.skip(c));
                assert(self.rest() =~= r0.skip(self.offset() - start));
                let vm = v.model();
                assert forall|vs: Seq<Tag>| done + (seq![vm] + vs) =~= done.push(vm) + vs by {}
                done = done.push(vm);
            }
            items.push(v);
            i += 1;
        }
        proof {
            assert(spec_items(self.rest(), item_tag, 0) == Ok::<(Seq<Tag>, int), (NbtLeError, int)>((Seq::<Tag>::empty(), 0int)));
            assert(done + Seq::<Tag>::empty() =~= done);
            assert(list_model(items@) =~= done);
        }
        Ok(NbtValue::List(items))
    }

    /// One compound entry: `Ok(None)` at the closing `TAG_End`.
    fn read_entry(&mut self) -> (r: Result<Option<(String, NbtValue)>, NbtLeError>)
        ensures
            final(self).data() == old(self).data(),
            old(self).offset() <= final(self).offset() <= final(self).data().len(),
            match spec_entry(old(self).rest()) {
                Ok((None, c)) => r matches Ok(None) && final(self).offset() == old(self).offset() + c,
                Ok((Some(e), c)) => r matches Ok(Some(p)) && p.0@ == e.0 && p.1.model() == e.1
                    && final(self).offset() == old(self).offset() + c,
                Err((e, k)) => r == Err::<Option<(String, NbtValue)>, NbtLeError>(e)
                    && final(self).offset() == old(self).offset() + k,
            },
        decreases old(self).data().len() - old(self).offset(), 0int,
    {
        proof {
            use_type_invariant(&*self);
        }
        let ghost cur = self.rest();
        let item_tag = self.u8()?;
        if item_tag == 0 {
            return Ok(None);
        }
        let name_len = self.u16()?;
        let raw_name = self.take(name_len as usize)?;
        let name = crate::text::decode_lossy(raw_name);
        let ghost h = 3 + le16(cur, 1);
        proof {
            assert(raw_name@ =~= cur.subrange(3, h));
            assert(self.rest() =~= cur.skip(h));
            lemma_value_bounds(self.rest(), item_tag);
        }
        let value = self.payload(item_tag)?;
        Ok(Some((name, value)))
    }

    /// The body of a `TAG_Compound`, up to and including its `TAG_End`.
    fn read_compound(&mut self) -> (r: Result<NbtValue, NbtLeError>)
        ensures
            final(self).data() == old(self).data(),
            0 <= final(self).offset() <= final(self).data().len(),
            read_matches(old(self).rest(), old(self).offset(), final(self).offset(), spec_value(old(self).rest(), 10), r),
        decreases old(self).data().len() - old(self).offset(), 1int,
    {
        proof {
            use_type_invariant(&*self);
        }
        let ghost r0 = self.rest();
        let ghost start = self.offset();
        let mut entries: Vec<(String, NbtValue)> = Vec::new();
        let ghost mut raw: Seq<(Seq<char>, Tag)> = Seq::empty();
        loop
            invariant
                self.data() == old(self).data(),
                r0 == old(self).rest(),
                start == old(self).offset(),
                start <= self.offset() <= self.data().len(),
                self.rest() =~= r0.skip(self.offset() - start),
                entries_model(entries@) == build_compound(raw),
                spec_entries(r0) == match spec_entries(self.rest()) {
                    Ok((es, c)) => Ok((raw + es, self.offset() - start + c)),
                    Err((e, k)) => Err((e, self.offset() - start + k)),
                },
            decreases self.data().len() - self.offset(),
        {
            let ghost cur = self.rest();
            let ghost o = self.offset();
            proof {
                lemma_entries_step(cur);
            }
            let entry = self.read_entry()?;
            match entry {
                None => {
                    proof {
                        assert(raw + Seq::<(Seq<char>, Tag)>::empty() =~= raw);
                    }
                    return Ok(NbtValue::Compound(NbtCompound { entries }));
                },
                Some((name, value)) => {
                    proof {
                        let c = self.offset() - o;
                        assert(self.rest() =~= cur.skip(c));
                        assert(self.rest() =~= r0.skip(self.offset() - start));
                        let e = (name@, value.model());
                        assert(raw.push(e).drop_last() =~= raw);
                        assert forall|es: Seq<(Seq<char>, Tag)>| raw + (seq![e] + es) =~= raw.push(e) + es by {}
                        raw = raw.push(e);
                    }
                    compound_insert(&mut entries, name, value);
                },
            }
        }
    }

    /// The body of a `TAG_Int_Array`.
    fn read_int_array(&mut self) -> (r: Result<NbtValue, NbtLeError>)
        ensures
            final(self).data() == old(self).data(),
            0 <= final(self).offset() <= final(self).data().len(),
            read_matches(old(self).rest(), old(self).offset(), final(self).offset(), spec_value(old(self).rest(), 11), r),
    {
        proof {
            use_type_invariant(&*self);
        }
        let ghost r0 = self.rest();
        let n = self.i32()?;
        let avail = (self.bytes.len() - self.pos) / 4;
        if n < 0 || n as usize > avail {
            self.pos = self.pos + avail * 4;
            return Err(NbtLeError::Truncated);
        }
        let mut items: Vec<i32> = Vec::new();
        let mut i: i32 = 0;
        while i < n
            invariant
                0 <= i <= n,
                n == signed(le32(r0, 0), 0x1_0000_0000),
                4 + 4 * n <= r0.len(),
                self.data() == old(self).data(),
                r0 == old(self).rest(),
                self.offset() == old(self).offset() + 4 + 4 * i,
                self.offset() <= self.data().len(),
                items@.len() == i,
                forall|j: int| 0 <= j < i ==> items@[j] == signed(le32(r0, 4 + 4 * j), 0x1_0000_0000) as i32,
            decreases n - i,
        {
            let ghost cur = self.rest();
            proof {
                assert(cur =~= r0.skip(4 + 4 * i));
            }
            let v = self.i32()?;
            items.push(v);
            i += 1;
        }
        proof {
            assert(items@ =~= Seq::new(n as nat, |j: int| signed(le32(r0, 4 + 4 * j), 0x1_0000_0000) as i32));
        }
        Ok(NbtValue::IntArray(items))
    }

    /// The body of a `TAG_Long_Array`.
    fn read_long_array(&mut self) -> (r: Result<NbtValue, NbtLeError>)
        ensures
            final(self).data() == old(self).data(),
            0 <= final(self).offset() <= final(self).data().len(),
            read_matches(old(self).rest(), old(self).offset(), final(self).offset(), spec_value(old(self).rest(), 12), r),
    {
        proof {
            use_type_invariant(&*self);
        }
        let ghost r0 = self.rest();
        let n = self.i32()?;
        let avail = (self.bytes.len() - self.pos) / 8;
        if n < 0 || n as usize > avail {
            self.pos = self.pos + avail * 8;
            return Err(NbtLeError::Truncated);
        }
        let mut items: Vec<i64> = Vec::new();
        let mut i: i32 = 0;
        while i < n
            invariant
                0 <= i <= n,
                n == signed(le32(r0, 0), 0x1_0000_0000),
                4 + 8 * n <= r0.len(),
                self.data() == old(self).data(),
                r0 == old(self).rest(),
                self.offset() == old(self).offset() + 4 + 8 * i,
                self.offset() <= self.data().len(),
                items@.len() == i,
                forall|j: int|
                    0 <= j < i ==> items@[j] == signed(le64(r0, 4 + 8 * j), 0x1_0000_0000_0000_0000) as i64,
            decreases n - i,
        {
            let ghost cur = self.rest();
            proof {
                assert(cur =~= r0.skip(4 + 8 * i));
            }
            let v = self.i64()?;
            items.push(v);
            i += 1;
        }
        proof {
            assert(items@ =~= Seq::new(
                n as nat,
                |j: int| signed(le64(r0, 4 + 8 * j), 0x1_0000_0000_0000_0000) as i64,
            ));
        }
        Ok(NbtValue::LongArray(items))
    }
}

} // verus!

verus! {

/// `s` holds the same first `c` bytes as `r`.
pub open spec fn agrees(r: Seq<u8>, s: Seq<u8>, c: int) -> bool {
    &&& 0 <= c <= r.len()
    &&& c <= s.len()
    &&& forall|i: int| 0 <= i < c ==> r[i] == s[i]
}

proof fn lemma_agrees_skip(r: Seq<u8>, s: Seq<u8>, c: int, d: int)
    requires
        agrees(r, s, c),
        0 <= d <= c,
    ensures
        agrees(r.skip(d), s.skip(d), c - d),
        r.subrange(0, d) == s.subrange(0, d),
{
    assert forall|i: int| 0 <= i < c - d implies r.skip(d)[i] == s.skip(d)[i] by {
        assert(r.skip(d)[i] == r[d + i]);
        assert(s.skip(d)[i] == s[d + i]);
    }
    assert(r.subrange(0, d) =~= s.subrange(0, d));
}

/// A value read depends only on the bytes it occupies.
proof fn lemma_value_agrees(r: Seq<u8>, s: Seq<u8>, tag: u8)
    requires
        spec_value(r, tag) is Ok,
        agrees(r, s, spec_value(r, tag)->Ok_0.1),
    ensures
        spec_value(s, tag) == spec_value(r, tag),
    decreases r.len(), 1int, 0int,
{
    lemma_value_bounds(r, tag);
    let c = spec_value(r, tag)->Ok_0.1;
    if tag == 7 {
        let n = signed(le32(r, 0), 0x1_0000_0000);
        assert(r.subrange(4, 4 + n) =~= s.subrange(4, 4 + n));
    } else if tag == 8 {
        let n = le16(r, 0);
        assert(r.subrange(2, 2 + n) =~= s.subrange(2, 2 + n));
    } else if tag == 9 {
        let n = signed(le32(r, 1), 0x1_0000_0000);
        lemma_items_bounds(r.skip(5), r[0], n);
        lemma_agrees_skip(r, s, c, 5);
        lemma_items_agrees(r.skip(5), s.skip(5), r[0], n);
    } else if tag == 10 {
        lemma_entries_agrees(r, s);
    } else if tag == 11 {
        let n = signed(le32(r, 0), 0x1_0000_0000);
        assert(Seq::new(n as nat, |i: int| signed(le32(r, 4 + 4 * i), 0x1_0000_0000) as i32) =~= Seq::new(
            n as nat,
            |i: int| signed(le32(s, 4 + 4 * i), 0x1_0000_0000) as i32,
        )) by {
            assert forall|i: int| 0 <= i < n implies #[trigger] le32(r, 4 + 4 * i) == le32(s, 4 + 4 * i) by {
                assert(4 + 4 * i + 3 < 4 + 4 * n) by (nonlinear_arith)
                    requires 0 <= i < n;
            }
        }
    } else if tag == 12 {
        let n = signed(le32(r, 0), 0x1_0000_0000);
        assert(Seq::new(n as nat, |i: int| signed(le64(r, 4 + 8 * i), 0x1_0000_0000_0000_0000) as i64) =~= Seq::new(
            n as nat,
            |i: int| signed(le64(s, 4 + 8 * i), 0x1_0000_0000_0000_0000) as i64,
        )) by {
            assert forall|i: int| 0 <= i < n implies #[trigger] le64(r, 4 + 8 * i) == le64(s, 4 + 8 * i) by {
                assert(4 + 8 * i + 7 < 4 + 8 * n) by (nonlinear_arith)
                    requires 0 <= i < n;
            }
        }
    }
}

proof fn lemma_items_agrees(r: Seq<u8>, s: Seq<u8>, tag: u8, n: int)
    requires
        spec_items(r, tag, n) is Ok,
        agrees(r, s, spec_items(r, tag, n)->Ok_0.1),
    ensures
        spec_items(s, tag, n) == spec_items(r, tag, n),
    decreases r.len(), 2int, n,
{
    if n > 0 {
        lemma_value_bounds(r, tag);
        let c = spec_value(r, tag)->Ok_0.1;
        let total = spec_items(r, tag, n)->Ok_0.1;
        lemma_items_bounds(r.skip(c), tag, n - 1);
        assert(agrees(r, s, c));
        lemma_value_agrees(r, s, tag);
        lemma_agrees_skip(r, s, total, c);
        lemma_items_agrees(r.skip(c), s.skip(c), tag, n - 1);
    }
}

proof fn lemma_entries_agrees(r: Seq<u8>, s: Seq<u8>)
    requires
        spec_entries(r) is Ok,
        agrees(r, s, spec_entries(r)->Ok_0.1),
    ensures
        spec_entries(s) == spec_entries(r),
    decreases r.len(), 0int, 0int,
{
    let total = spec_entries(r)->Ok_0.1;
    if r[0] != 0 {
        let h = 3 + le16(r, 1);
        lemma_value_bounds(r.skip(h), r[0]);
        let c = spec_value(r.skip(h), r[0])->Ok_0.1;
        lemma_entries_bounds(r.skip(h + c));
        lemma_agrees_skip(r, s, total, h);
        assert(r.subrange(3, h) =~= s.subrange(3, h));
        lemma_value_agrees(r.skip(h), s.skip(h), r[0]);
        lemma_agrees_skip(r, s, total, h + c);
        lemma_entries_agrees(r.skip(h + c), s.skip(h + c));
    }
}

/// A value cut short reads as a truncation error.
proof fn lemma_value_cut(r: Seq<u8>, s: Seq<u8>, tag: u8)
    requires
        spec_value(r, tag) is Ok,
        s.len() < spec_value(r, tag)->Ok_0.1,
        agrees(r, s, s.len() as int),
    ensures
        spec_value(s, tag) matches Err((e, _k)) && e == NbtLeError::Truncated,
    decreases r.len(), 1int, 0int,
{
    lemma_value_bounds(r, tag);
    let c = spec_value(r, tag)->Ok_0.1;
    if tag == 9 && s.len() >= 5 {
        let n = signed(le32(r, 1), 0x1_0000_0000);
        lemma_agrees_skip(r, s, s.len() as int, 5);
        lemma_items_cut(r.skip(5), s.skip(5), r[0], n);
    } else if tag == 10 {
        lemma_entries_cut(r, s);
    }
}

proof fn lemma_items_cut(r: Seq<u8>, s: Seq<u8>, tag: u8, n: int)
    requires
        spec_items(r, tag, n) is Ok,
        s.len() < spec_items(r, tag, n)->Ok_0.1,
        agrees(r, s, s.len() as int),
    ensures
        spec_items(s, tag, n) matches Err((e, _k)) && e == NbtLeError::Truncated,
    decreases r.len(), 2int, n,
{
    lemma_items_bounds(r, tag, n);
    lemma_value_bounds(r, tag);
    let c = spec_value(r, tag)->Ok_0.1;
    if s.len() < c {
        lemma_value_cut(r, s, tag);
    } else {
        assert(agrees(r, s, c));
        lemma_value_agrees(r, s, tag);
        lemma_agrees_skip(r, s, s.len() as int, c);
        lemma_items_cut(r.skip(c), s.skip(c), tag, n - 1);
    }
}

proof fn lemma_entries_cut(r: Seq<u8>, s: Seq<u8>)
    requires
        spec_entries(r) is Ok,
        s.len() < spec_entries(r)->Ok_0.1,
        agrees(r, s, s.len() as int),
    ensures
        spec_entries(s) matches Err((e, _k)) && e == NbtLeError::Truncated,
    decreases r.len(), 0int, 0int,
{
    lemma_entries_bounds(r);
    if s.len() >= 3 && r[0] != 0 {
        let h = 3 + le16(r, 1);
        if h <= s.len() {
            lemma_value_bounds(r.skip(h), r[0]);
            let c = spec_value(r.skip(h), r[0])->Ok_0.1;
            lemma_agrees_skip(r, s, s.len() as int, h);
            if s.len() < h + c {
                lemma_value_cut(r.skip(h), s.skip(h), r[0]);
            } else {
                assert(agrees(r.skip(h), s.skip(h), c));
                lemma_value_agrees(r.skip(h), s.skip(h), r[0]);
                assert(r.subrange(3, h) =~= s.subrange(3, h));
                lemma_agrees_skip(r, s, s.len() as int, h + c);
                lemma_entries_cut(r.skip(h + c), s.skip(h + c));
            }
        }
    }
}

/// Several root tags may follow one another in one payload: a root that
/// reads successfully reads the same, with the same length, whatever bytes
/// follow it.
pub proof fn law_root_ignores_what_follows(r: Seq<u8>, more: Seq<u8>)
    requires
        spec_root(r) is Ok,
    ensures
        spec_root(r + more) == spec_root(r),
{
    let s = r + more;
    let h = 3 + le16(r, 1);
    assert(s[0] == r[0] && s[1] == r[1] && s[2] == r[2]);
    lemma_value_bounds(r.skip(h), r[0]);
    let c = spec_value(r.skip(h), r[0])->Ok_0.1;
    assert(agrees(r, s, h + c));
    lemma_agrees_skip(r, s, h + c, h);
    lemma_value_agrees(r.skip(h), s.skip(h), r[0]);
}

/// A root tag cut short anywhere before its end reads as a truncation
/// error.
pub proof fn law_cut_root_is_truncated(r: Seq<u8>, k: int)
    requires
        spec_root(r) is Ok,
        0 <= k < spec_root(r)->Ok_0.1,
    ensures
        spec_root(r.take(k)) matches Err((e, _j)) && e == NbtLeError::Truncated,
{
    let s = r.take(k);
    let h = 3 + le16(r, 1);
    lemma_value_bounds(r.skip(h), r[0]);
    if k >= h {
        assert(agrees(r, s, k));
        lemma_agrees_skip(r, s, k, h);
        lemma_value_cut(r.skip(h), s.skip(h), r[0]);
    }
}

} // verus!

verus! {

/// The value stored under `key` in a compound meaning.
pub open spec fn tag_get(t: Tag, key: Seq<char>) -> Option<Tag> {
    match t {
        Tag::Compound(es) => {
            let j = key_index(es, key);
            if j < 0 {
                None
            } else {
                Some(es[j].1)
            }
        },
        _ => None,
    }
}

impl NbtCompound {
    /// The value stored under `key`, described by its meaning.
    pub fn lookup(&self, key: &str) -> (r: Option<&NbtValue>)
        ensures
            match tag_get(Tag::Compound(self.model()), key@) {
                Some(t) => r matches Some(v) && v.model() == t,
                None => r is None,
            },
    {
        proof {
            lemma_key_index(self.model(), key@);
        }
        self.get(key)
    }
}

impl NbtLeError {
    /// The human-readable description of this error.
    pub fn message(&self) -> (s: String)
        ensures
            s@ == nbt_error_text(*self),
    {
        let mut s = String::from_str("invalid little-endian NBT: ");
        match self {
            NbtLeError::EndAtRoot => s.append("unexpected TAG_End at root"),
            NbtLeError::Truncated => s.append("payload truncated"),
            NbtLeError::NegativeListLength => s.append("negative list length"),
            NbtLeError::UnknownTag(t) => {
                s.append("unknown tag id ");
                let d = crate::text::decimal_string(*t as i64);
                s.append(d.as_str());
            },
        }
        s
    }
}

/// The description of an NBT error.
pub open spec fn nbt_error_text(e: NbtLeError) -> Seq<char> {
    "invalid little-endian NBT: "@ + match e {
        NbtLeError::EndAtRoot => "unexpected TAG_End at root"@,
        NbtLeError::Truncated => "payload truncated"@,
        NbtLeError::NegativeListLength => "negative list length"@,
        NbtLeError::UnknownTag(t) => "unknown tag id "@ + crate::text::decimal(t as int),
    }
}

} // verus!
