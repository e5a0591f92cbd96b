//! The client JAR as a ZIP archive, read through the `zip` crate: the
//! library asks for the entries it needs, by position.

use vstd::prelude::*;
use std::io::Read;

verus! {

#[verifier::external_type_specification]
#[verifier::external_body]
#[verifier::reject_recursive_types(T)]
pub struct ExCursor<T>(std::io::Cursor<T>);

#[verifier::external_type_specification]
#[verifier::external_body]
#[verifier::reject_recursive_types(R)]
pub struct ExZipArchive<R>(zip::ZipArchive<R>);

/// How many entries `zip::ZipArchive::new` finds in archive bytes; `None`
/// when they are not a ZIP archive. It depends on the bytes alone.
pub uninterp spec fn zip_count(bytes: Seq<u8>) -> Option<nat>;

/// The name of entry `i` of an archive (`by_index`, then `name`); `None`
/// when the entry cannot be opened. It depends on its arguments alone.
pub uninterp spec fn zip_entry_name(bytes: Seq<u8>, i: nat) -> Option<Seq<char>>;

/// The contents of entry `i` of an archive (`by_index`, then
/// `read_to_end`); `None` when it cannot be opened or read.
pub uninterp spec fn zip_entry_bytes(bytes: Seq<u8>, i: nat) -> Option<Seq<u8>>;

/// The contents of entry `i` of an archive as UTF-8 text (`by_index`, then
/// `read_to_string`); `None` when it cannot be opened or read, or is not
/// UTF-8.
pub uninterp spec fn zip_entry_text(bytes: Seq<u8>, i: nat) -> Option<Seq<char>>;

/// The bytes an open archive was read from.
pub uninterp spec fn archive_source(a: zip::ZipArchive<std::io::Cursor<Vec<u8>>>) -> Seq<u8>;

/// Open archive bytes (`zip::ZipArchive::new` over a copy of them).
#[verifier::external_body]
pub(crate) fn open_archive(bytes: &[u8]) -> (r: Option<zip::ZipArchive<std::io::Cursor<Vec<u8>>>>)
    ensures
        match r {
            Some(a) => archive_source(a) == bytes@ && zip_count(bytes@) is Some,
            None => zip_count(bytes@) is None,
        },
{
    zip::ZipArchive::new(std::io::Cursor::new(bytes.to_vec())).ok()
}

/// The number of entries of an open archive (`ZipArchive::len`).
#[verifier::external_body]
pub(crate) fn archive_len(a: &zip::ZipArchive<std::io::Cursor<Vec<u8>>>) -> (r: usize)
    ensures
        zip_count(archive_source(*a)) == Some(r as nat),
{
    a.len()
}

/// The name of entry `i` (`by_index`, then `name`).
#[verifier::external_body]
pub(crate) fn entry_name(a: &mut zip::ZipArchive<std::io::Cursor<Vec<u8>>>, i: usize) -> (r: Option<String>)
    ensures
        archive_source(*final(a)) == archive_source(*old(a)),
        match r {
            Some(n) => zip_entry_name(archive_source(*old(a)), i as nat) == Some(n@),
            None => zip_entry_name(archive_source(*old(a)), i as nat) is None,
        },
{
    match a.by_index(i) {
        Ok(e) => Some(e.name().to_owned()),
        Err(_) => None,
    }
}

/// The contents of entry `i` (`by_index`, then `read_to_end`).
#[verifier::external_body]
pub(crate) fn entry_bytes(a: &mut zip::ZipArchive<std::io::Cursor<Vec<u8>>>, i: usize) -> (r: Option<Vec<u8>>)
    ensures
        archive_source(*final(a)) == archive_source(*old(a)),
        match r {
            Some(v) => zip_entry_bytes(archive_source(*old(a)), i as nat) == Some(v@),
            None => zip_entry_bytes(archive_source(*old(a)), i as nat) is None,
        },
{
    let mut e = match a.by_index(i) {
        Ok(e) => e,
        Err(_) => return None,
    };
    let mut v = Vec::new();
    match e.read_to_end(&mut v) {
        Ok(_) => Some(v),
        Err(_) => None,
    }
}

/// The contents of entry `i` as text (`by_index`, then `read_to_string`).
#[verifier::external_body]
pub(crate) fn entry_text(a: &mut zip::ZipArchive<std::io::Cursor<Vec<u8>>>, i: usize) -> (r: Option<String>)
    ensures
        archive_source(*final(a)) == archive_source(*old(a)),
        match r {
            Some(t) => zip_entry_text(archive_source(*old(a)), i as nat) == Some(t@),
            None => zip_entry_text(archive_source(*old(a)), i as nat) is None,
        },
{
    let mut e = match a.by_index(i) {
        Ok(e) => e,
        Err(_) => return None,
    };
    let mut t = String::new();
    match e.read_to_string(&mut t) {
        Ok(_) => Some(t),
        Err(_) => None,
    }
}

} // verus!
