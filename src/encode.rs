//! The wire record of a table of contents: every value that the flatbuffer
//! schema `Ztoc` receives, field by field.

use vstd::prelude::*;
use crate::header::{opt_view, EntryKind};
use crate::error::ZtocError;
use crate::time::{format_rfc3339, rfc3339_utc, utc_timestamp_ok};
use crate::ztoc::{push_all, FileMetadata, ZToc};

verus! {

/// The `CompressionAlgorithm` value of gzip.
pub const GZIP_ALGORITHM: i8 = 0;

/// The token that the schema's `type` field holds for each entry kind.
pub open spec fn kind_token(k: EntryKind) -> Seq<char> {
    match k {
        EntryKind::Regular => "reg"@,
        EntryKind::Link => "hardlink"@,
        EntryKind::Symlink => "symlink"@,
        EntryKind::Char => "char"@,
        EntryKind::Block => "block"@,
        EntryKind::Directory => "dir"@,
        EntryKind::Fifo => "fifo"@,
    }
}

/// The schema's token for an entry kind.
pub fn entry_to_string(entry: &EntryKind) -> (r: &'static str)
    ensures
        r@ == kind_token(*entry),
{
    match entry {
        EntryKind::Regular => "reg",
        EntryKind::Link => "hardlink",
        EntryKind::Symlink => "symlink",
        EntryKind::Char => "char",
        EntryKind::Block => "block",
        EntryKind::Directory => "dir",
        EntryKind::Fifo => "fifo",
    }
}

/// The schema's `Xattr` table.
#[derive(Debug, PartialEq, Eq)]
pub struct XattrRecord {
    pub key: String,
    pub value: String,
}

/// The schema's `FileMetadata` table.
#[derive(Debug, PartialEq, Eq)]
pub struct FileMetadataRecord {
    pub name: String,
    pub type_: String,
    pub uncompressed_offset: i64,
    pub uncompressed_size: i64,
    pub linkname: String,
    pub mode: i64,
    pub uid: u32,
    pub gid: u32,
    pub uname: Option<String>,
    pub gname: Option<String>,
    pub mod_time: String,
    pub devmajor: i64,
    pub devminor: i64,
    pub xattrs: Vec<XattrRecord>,
}

/// The schema's `CompressionInfo` table.
#[derive(Debug, PartialEq, Eq)]
pub struct CompressionInfoRecord {
    pub compression_algorithm: i8,
    pub max_span_id: i32,
    pub span_digests: Vec<String>,
    pub checkpoints: Vec<u8>,
}

/// The schema's root `Ztoc` table, with its `TOC` table's entries inline.
#[derive(Debug, PartialEq, Eq)]
pub struct ZtocRecord {
    pub version: String,
    pub build_tool_identifier: String,
    pub compressed_archive_size: i64,
    pub uncompressed_archive_size: i64,
    pub metadata: Vec<FileMetadataRecord>,
    pub compression_info: CompressionInfoRecord,
}

/// A device number, zero where absent.
pub open spec fn dev_or_zero(d: Option<u32>) -> i64 {
    match d {
        Some(v) => v as i64,
        None => 0,
    }
}

/// How one entry's metadata is written: a missing link name is written
/// empty, the time as RFC 3339 text in UTC, sizes and ids with the schema's
/// widths, and the minor device number in `devmajor` and the major one in
/// `devminor`, as the consumers of the format read them.
pub open spec fn file_record_of(rec: FileMetadataRecord, m: FileMetadata) -> bool {
    &&& rec.name@ == m.name@
    &&& rec.type_@ == kind_token(m.entry_type)
    &&& rec.uncompressed_offset == m.uncompressed_offset.0 as i64
    &&& rec.uncompressed_size == m.uncompressed_size.0 as i64
    &&& rec.linkname@ == match m.link_name {
        Some(l) => l@,
        None => Seq::empty(),
    }
    &&& rec.mode == m.mode as i64
    &&& rec.uid == m.uid as u32
    &&& rec.gid == m.gid as u32
    &&& opt_view(rec.uname) == opt_view(m.uname)
    &&& opt_view(rec.gname) == opt_view(m.gname)
    &&& rec.mod_time@ == rfc3339_utc(m.mod_time)
    &&& rec.devmajor == dev_or_zero(m.dev_minor)
    &&& rec.devminor == dev_or_zero(m.dev_major)
    &&& rec.xattrs@.len() == m.x_attrs@.len()
    &&& forall|i: int|
        0 <= i < m.x_attrs@.len() ==> (#[trigger] rec.xattrs@[i]).key@ == m.x_attrs@[i].0@
            && rec.xattrs@[i].value@ == m.x_attrs@[i].1@
}

fn copy_opt(s: &Option<String>) -> (r: Option<String>)
    ensures
        opt_view(r) == opt_view(*s),
{
    match s {
        Some(v) => Some(v.clone()),
        None => None,
    }
}

/// The record of one entry's metadata.
pub fn file_record(m: &FileMetadata) -> (r: FileMetadataRecord)
    requires
        m.wf(),
    ensures
        file_record_of(r, *m),
{
    let mut xattrs: Vec<XattrRecord> = Vec::new();
    let mut i: usize = 0;
    while i < m.x_attrs.len()
        invariant
            i <= m.x_attrs@.len(),
            xattrs@.len() == i,
            forall|j: int|
                0 <= j < i ==> (#[trigger] xattrs@[j]).key@ == m.x_attrs@[j].0@ && xattrs@[j].value@
                    == m.x_attrs@[j].1@,
        decreases m.x_attrs@.len() - i,
    {
        let (k, v) = &m.x_attrs[i];
        xattrs.push(XattrRecord { key: k.clone(), value: v.clone() });
        i = i + 1;
    }
    let linkname = match &m.link_name {
        Some(l) => l.clone(),
        None => String::new(),
    };
    let devmajor: i64 = match m.dev_minor {
        Some(d) => d as i64,
        None => 0,
    };
    let devminor: i64 = match m.dev_major {
        Some(d) => d as i64,
        None => 0,
    };
    FileMetadataRecord {
        name: m.name.clone(),
        type_: entry_to_string(&m.entry_type).to_owned(),
        uncompressed_offset: #[verifier::truncate] (m.uncompressed_offset.0 as i64),
        uncompressed_size: #[verifier::truncate] (m.uncompressed_size.0 as i64),
        linkname,
        mode: m.mode as i64,
        uid: #[verifier::truncate] (m.uid as u32),
        gid: #[verifier::truncate] (m.gid as u32),
        uname: copy_opt(&m.uname),
        gname: copy_opt(&m.gname),
        mod_time: format_rfc3339(m.mod_time),
        devmajor,
        devminor,
        xattrs,
    }
}

/// Whether a table of contents can be written: every time is representable
/// and the last checkpoint's index fits the schema's 32-bit field.
pub open spec fn ztoc_writable(z: ZToc) -> bool {
    &&& forall|k: int| 0 <= k < z.toc.metadata@.len() ==> (#[trigger] z.toc.metadata@[k]).wf()
    &&& z.compression_info.max_span_id <= i32::MAX
}

/// `r` is the wire record of `ztoc`: every field carried over with the
/// schema's widths, each entry as `file_record_of` says, gzip as the
/// algorithm.
pub open spec fn is_record_of(r: ZtocRecord, ztoc: ZToc) -> bool {
    &&& r.version@ == ztoc.version@
    &&& r.build_tool_identifier@ == ztoc.build_tool_identifier@
    &&& r.compressed_archive_size == ztoc.compressed_archive_size.0 as i64
    &&& r.uncompressed_archive_size == ztoc.uncompressed_archive_size.0 as i64
    &&& r.metadata@.len() == ztoc.toc.metadata@.len()
    &&& forall|k: int|
        0 <= k < ztoc.toc.metadata@.len() ==> file_record_of(#[trigger] r.metadata@[k], ztoc.toc.metadata@[k])
    &&& r.compression_info.compression_algorithm == GZIP_ALGORITHM
    &&& r.compression_info.max_span_id == ztoc.compression_info.max_span_id as i32
    &&& r.compression_info.span_digests@.len() == ztoc.compression_info.span_digests@.len()
    &&& forall|k: int|
        0 <= k < ztoc.compression_info.span_digests@.len() ==> (#[trigger] r.compression_info.span_digests@[k])@
            == ztoc.compression_info.span_digests@[k]@
    &&& r.compression_info.checkpoints@ == ztoc.compression_info.checkpoints@
}

/// The wire record of a table of contents.
pub fn ztoc_record(ztoc: &ZToc) -> (r: ZtocRecord)
    requires
        ztoc_writable(*ztoc),
    ensures
        is_record_of(r, *ztoc),
{
    let mut metadata: Vec<FileMetadataRecord> = Vec::new();
    let mut k: usize = 0;
    while k < ztoc.toc.metadata.len()
        invariant
            ztoc_writable(*ztoc),
            k <= ztoc.toc.metadata@.len(),
            metadata@.len() == k,
            forall|j: int| 0 <= j < k ==> file_record_of(#[trigger] metadata@[j], ztoc.toc.metadata@[j]),
        decreases ztoc.toc.metadata@.len() - k,
    {
        metadata.push(file_record(&ztoc.toc.metadata[k]));
        k = k + 1;
    }
    let ci = &ztoc.compression_info;
    let mut span_digests: Vec<String> = Vec::new();
    let mut d: usize = 0;
    while d < ci.span_digests.len()
        invariant
            d <= ci.span_digests@.len(),
            span_digests@.len() == d,
            forall|j: int| 0 <= j < d ==> (#[trigger] span_digests@[j])@ == ci.span_digests@[j]@,
        decreases ci.span_digests@.len() - d,
    {
        span_digests.push(ci.span_digests[d].clone());
        d = d + 1;
    }
    let mut checkpoints: Vec<u8> = Vec::new();
    push_all(&mut checkpoints, ci.checkpoints.as_slice());
    ZtocRecord {
        version: ztoc.version.clone(),
        build_tool_identifier: ztoc.build_tool_identifier.clone(),
        compressed_archive_size: #[verifier::truncate] (ztoc.compressed_archive_size.0 as i64),
        uncompressed_archive_size: #[verifier::truncate] (ztoc.uncompressed_archive_size.0 as i64),
        metadata,
        compression_info: CompressionInfoRecord {
            compression_algorithm: GZIP_ALGORITHM,
            max_span_id: ci.max_span_id as i32,
            span_digests,
            checkpoints,
        },
    }
}

/// The wire record of a table of contents, or `InvalidData` where it cannot
/// be written: a time outside what `chrono` represents, or more checkpoints
/// than the schema's 32-bit index counts.
pub fn checked_ztoc_record(ztoc: &ZToc) -> (r: Result<ZtocRecord, ZtocError>)
    ensures
        r is Ok <==> ztoc_writable(*ztoc),
        r is Ok ==> is_record_of(r->Ok_0, *ztoc),
        r is Err ==> r->Err_0 is InvalidData,
{
    if ztoc.compression_info.max_span_id > i32::MAX as usize {
        return Err(ZtocError::InvalidData(String::from_str("too many checkpoints")));
    }
    let mut k: usize = 0;
    while k < ztoc.toc.metadata.len()
        invariant
            k <= ztoc.toc.metadata@.len(),
            forall|j: int| 0 <= j < k ==> (#[trigger] ztoc.toc.metadata@[j]).wf(),
        decreases ztoc.toc.metadata@.len() - k,
    {
        if !utc_timestamp_ok(ztoc.toc.metadata[k].mod_time) {
            return Err(ZtocError::InvalidData(String::from_str("invalid mtime")));
        }
        k = k + 1;
    }
    Ok(ztoc_record(ztoc))
}

} // verus!
