//! Fields of a 512-byte tar header, read by the `tar` crate.

use vstd::prelude::*;
use crate::error::ZtocError;

verus! {

/// Size of a tar header block.
pub const HEADER_SIZE: usize = 512;

/// Offset of the type flag within a tar header.
pub const TYPE_FLAG_OFFSET: usize = 156;

/// The entry types that a table of contents records.
#[derive(Debug, Clone, Copy, PartialEq, Eq)]
pub enum EntryKind {
    Regular,
    Link,
    Symlink,
    Char,
    Block,
    Directory,
    Fifo,
}

/// The kind that a type flag names, as `tar::EntryType::new` reads it; the
/// remaining tar types have none.
pub open spec fn kind_of_flag(flag: u8) -> Option<EntryKind> {
    if flag == 0 || flag == 48 {
        Some(EntryKind::Regular)
    } else if flag == 49 {
        Some(EntryKind::Link)
    } else if flag == 50 {
        Some(EntryKind::Symlink)
    } else if flag == 51 {
        Some(EntryKind::Char)
    } else if flag == 52 {
        Some(EntryKind::Block)
    } else if flag == 53 {
        Some(EntryKind::Directory)
    } else if flag == 54 {
        Some(EntryKind::Fifo)
    } else {
        None
    }
}

/// The view of an optional string.
pub open spec fn opt_view(o: Option<String>) -> Option<Seq<char>> {
    match o {
        Some(s) => Some(s@),
        None => None,
    }
}

/// `std::str::Utf8Error`, carried opaquely.
#[verifier::external_type_specification]
#[verifier::external_body]
pub struct ExUtf8Error(core::str::Utf8Error);

/// Relies on `std::str::from_utf8`: it succeeds exactly on valid UTF-8 and
/// then borrows the same bytes as a string.
pub assume_specification[ core::str::from_utf8 ](v: &[u8]) -> (r: Result<&str, core::str::Utf8Error>)
    ensures
        r is Ok <==> vstd::utf8::valid_utf8(v@),
        r is Ok ==> r->Ok_0@ == vstd::utf8::decode_utf8(v@),
;

/// The error of text that is not UTF-8.
pub fn map_utf8_error(_e: core::str::Utf8Error) -> (r: ZtocError)
    ensures
        r matches ZtocError::InvalidData(m) && m@ == "invalid UTF-8"@,
{
    ZtocError::InvalidData(String::from_str("invalid UTF-8"))
}

/// Decodes UTF-8 bytes into an owned string.
pub fn utf8_string(bytes: &[u8]) -> (r: Result<String, ZtocError>)
    ensures
        r is Ok <==> vstd::utf8::valid_utf8(bytes@),
        r is Ok ==> r->Ok_0@ == vstd::utf8::decode_utf8(bytes@),
        r is Err ==> (r matches Err(ZtocError::InvalidData(m)) && m@ == "invalid UTF-8"@),
{
    match core::str::from_utf8(bytes) {
        Ok(s) => Ok(s.to_owned()),
        Err(e) => Err(map_utf8_error(e)),
    }
}

/// The mode field of a header, `None` where it does not parse.
pub uninterp spec fn tar_mode(h: Seq<u8>) -> Option<u32>;

/// The owner's numeric id.
pub uninterp spec fn tar_uid(h: Seq<u8>) -> Option<u64>;

/// The group's numeric id.
pub uninterp spec fn tar_gid(h: Seq<u8>) -> Option<u64>;

/// The modification time, in seconds since the epoch.
pub uninterp spec fn tar_mtime(h: Seq<u8>) -> Option<u64>;

/// The owner's name: `None` where it is not UTF-8, `Some(None)` where the
/// header format has no such field.
pub uninterp spec fn tar_username(h: Seq<u8>) -> Option<Option<Seq<char>>>;

/// The group's name, as `tar_username`.
pub uninterp spec fn tar_groupname(h: Seq<u8>) -> Option<Option<Seq<char>>>;

/// The major device number: `None` where it does not parse, `Some(None)`
/// where the header format has no such field.
pub uninterp spec fn tar_device_major(h: Seq<u8>) -> Option<Option<u32>>;

/// The minor device number, as `tar_device_major`.
pub uninterp spec fn tar_device_minor(h: Seq<u8>) -> Option<Option<u32>>;

/// Relies on `tar::Header::entry_type`, which reads the type flag byte with
/// `tar::EntryType::new`.
#[verifier::external_body]
pub(crate) fn header_entry_kind(h: &[u8]) -> (r: Option<EntryKind>)
    requires
        h@.len() == HEADER_SIZE,
    ensures
        r == kind_of_flag(h@[TYPE_FLAG_OFFSET as int]),
{
    match tar::Header::from_byte_slice(h).entry_type() {
        tar::EntryType::Regular => Some(EntryKind::Regular),
        tar::EntryType::Link => Some(EntryKind::Link),
        tar::EntryType::Symlink => Some(EntryKind::Symlink),
        tar::EntryType::Char => Some(EntryKind::Char),
        tar::EntryType::Block => Some(EntryKind::Block),
        tar::EntryType::Directory => Some(EntryKind::Directory),
        tar::EntryType::Fifo => Some(EntryKind::Fifo),
        _ => None,
    }
}

/// Relies on `tar::Header::mode`.
#[verifier::external_body]
pub(crate) fn header_mode(h: &[u8]) -> (r: Option<u32>)
    requires
        h@.len() == HEADER_SIZE,
    ensures
        r == tar_mode(h@),
{
    tar::Header::from_byte_slice(h).mode().ok()
}

/// Relies on `tar::Header::uid`.
#[verifier::external_body]
pub(crate) fn header_uid(h: &[u8]) -> (r: Option<u64>)
    requires
        h@.len() == HEADER_SIZE,
    ensures
        r == tar_uid(h@),
{
    tar::Header::from_byte_slice(h).uid().ok()
}

/// Relies on `tar::Header::gid`.
#[verifier::external_body]
pub(crate) fn header_gid(h: &[u8]) -> (r: Option<u64>)
    requires
        h@.len() == HEADER_SIZE,
    ensures
        r == tar_gid(h@),
{
    tar::Header::from_byte_slice(h).gid().ok()
}

/// Relies on `tar::Header::mtime`.
#[verifier::external_body]
pub(crate) fn header_mtime(h: &[u8]) -> (r: Option<u64>)
    requires
        h@.len() == HEADER_SIZE,
    ensures
        r == tar_mtime(h@),
{
    tar::Header::from_byte_slice(h).mtime().ok()
}

/// Relies on `tar::Header::username`, which fails only on a name that is
/// not UTF-8.
#[verifier::external_body]
pub(crate) fn header_username(h: &[u8]) -> (r: Result<Option<String>, core::str::Utf8Error>)
    requires
        h@.len() == HEADER_SIZE,
    ensures
        r is Ok <==> tar_username(h@) is Some,
        r is Ok ==> opt_view(r->Ok_0) == tar_username(h@)->Some_0,
{
    tar::Header::from_byte_slice(h).username().map(|o| o.map(|s| s.to_string()))
}

/// Relies on `tar::Header::groupname`, which fails only on a name that is
/// not UTF-8.
#[verifier::external_body]
pub(crate) fn header_groupname(h: &[u8]) -> (r: Result<Option<String>, core::str::Utf8Error>)
    requires
        h@.len() == HEADER_SIZE,
    ensures
        r is Ok <==> tar_groupname(h@) is Some,
        r is Ok ==> opt_view(r->Ok_0) == tar_groupname(h@)->Some_0,
{
    tar::Header::from_byte_slice(h).groupname().map(|o| o.map(|s| s.to_string()))
}

/// Relies on `tar::Header::device_major`.
#[verifier::external_body]
pub(crate) fn header_device_major(h: &[u8]) -> (r: Option<Option<u32>>)
    requires
        h@.len() == HEADER_SIZE,
    ensures
        r == tar_device_major(h@),
{
    tar::Header::from_byte_slice(h).device_major().ok()
}

/// Relies on `tar::Header::device_minor`.
#[verifier::external_body]
pub(crate) fn header_device_minor(h: &[u8]) -> (r: Option<Option<u32>>)
    requires
        h@.len() == HEADER_SIZE,
    ensures
        r == tar_device_minor(h@),
{
    tar::Header::from_byte_slice(h).device_minor().ok()
}

} // verus!
