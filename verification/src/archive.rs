//! Reading members of the archive that holds a publication.
//!
//! The archive is a ZIP container held in memory. The library never looks
//! inside it: what a member holds is whatever the archive reader says it
//! holds, and the contracts of the crate speak of that by name.

use std::io::Read;
use vstd::prelude::*;
use vstd::utf8::decode_utf8;
use vstd::utf8::valid_utf8;

verus! {

/// The bytes of the member called `name` of the ZIP archive `archive`, as
/// the archive reader hands them out after decompression; `None` where
/// `archive` cannot be opened as an archive, holds no member of that name,
/// or the member cannot be read to its end.
pub uninterp spec fn archive_bytes(archive: Seq<u8>, name: Seq<char>) -> Option<Seq<u8>>;

/// The member called `name` as text: its bytes decoded as UTF-8; `None`
/// where there is no such member or its bytes are not UTF-8.
pub open spec fn archive_text(archive: Seq<u8>, name: Seq<char>) -> Option<Seq<char>> {
    match archive_bytes(archive, name) {
        Some(bytes) => if valid_utf8(bytes) {
            Some(decode_utf8(bytes))
        } else {
            None
        },
        None => None,
    }
}

/// The bytes of an optional buffer.
pub open spec fn opt_bytes(o: Option<Vec<u8>>) -> Option<Seq<u8>> {
    match o {
        Some(v) => Some(v@),
        None => None,
    }
}

/// Opens `archive` with `zip::ZipArchive::new`, looks the member up with
/// `ZipArchive::by_name` and reads it to its end.
///
/// Trusted: the result is what the archive reader returns for these bytes
/// and this name, which `archive_bytes` names. The reader works on the
/// bytes alone, so the same archive and name give the same result. Any
/// failure of the reader becomes `None`.
#[verifier::external_body]
pub(crate) fn read_member(archive: &Vec<u8>, name: &str) -> (r: Option<Vec<u8>>)
    ensures
        opt_bytes(r) == archive_bytes(archive@, name@),
{
    let mut zip = zip::ZipArchive::new(std::io::Cursor::new(archive.as_slice())).ok()?;
    let mut member = zip.by_name(name).ok()?;
    let mut data: Vec<u8> = Vec::new();
    member.read_to_end(&mut data).ok()?;
    Some(data)
}

/// Decodes UTF-8 with `String::from_utf8`.
///
/// Trusted: the conversion succeeds exactly on valid UTF-8, and the string
/// then holds the characters that the bytes encode.
#[verifier::external_body]
pub(crate) fn decode_text(bytes: Vec<u8>) -> (r: Option<String>)
    ensures
        match r {
            Some(s) => valid_utf8(bytes@) && s@ == decode_utf8(bytes@),
            None => !valid_utf8(bytes@),
        },
{
    String::from_utf8(bytes).ok()
}

/// Reads the member called `name` as text.
pub fn read_text(archive: &Vec<u8>, name: &str) -> (r: Option<String>)
    ensures
        crate::model::opt_text(r) == archive_text(archive@, name@),
{
    match read_member(archive, name) {
        Some(bytes) => decode_text(bytes),
        None => None,
    }
}

/// Reads the bytes of the member called `name`.
pub fn read_bytes(archive: &Vec<u8>, name: &str) -> (r: Option<Vec<u8>>)
    ensures
        opt_bytes(r) == archive_bytes(archive@, name@),
{
    read_member(archive, name)
}

} // verus!
