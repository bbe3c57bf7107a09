//! The table of contents: the compression half built from an index, the
//! per-entry tar metadata, and the root record that joins them.

use vstd::prelude::*;
use vstd::bytes::{spec_u32_to_le_bytes, spec_u64_to_le_bytes, u32_to_le_bytes, u64_to_le_bytes};
use crate::digest::{digest_window, span_digest};
use crate::error::ZtocError;
use crate::header::{
    header_device_major, header_device_minor, header_entry_kind, header_gid, header_groupname,
    header_mode, header_mtime, header_uid, header_username, kind_of_flag, map_utf8_error, opt_view,
    tar_device_major, tar_device_minor, tar_gid, tar_groupname, tar_mode, tar_mtime, tar_uid,
    tar_username, utf8_string, EntryKind, HEADER_SIZE, TYPE_FLAG_OFFSET,
};
use crate::time::{utc_representable, utc_timestamp_ok};
use crate::zinfo::{GZipCheckpoint, ZInfo, WINSIZE};
use vstd::utf8::{decode_utf8, valid_utf8};

verus! {

/// An offset or a size in bytes within the compressed or uncompressed archive.
#[derive(Debug, Clone, Copy, PartialEq, Eq)]
pub struct CompressionOffset(pub u64);

/// Size of one checkpoint in the packed blob: two offsets, the bit residue
/// and the window.
pub const CHECKPOINT_RECORD_SIZE: usize = 32785;

/// Size of the blob's header: the checkpoint count and the span size.
pub const BLOB_HEADER_SIZE: usize = 12;

/// The packed form of one checkpoint: compressed offset and uncompressed
/// offset as little-endian 64-bit integers, the bit residue, the window.
pub open spec fn checkpoint_record(c: GZipCheckpoint) -> Seq<u8> {
    spec_u64_to_le_bytes(c.in_offset) + spec_u64_to_le_bytes(c.out_offset) + seq![c.bits] + c.window@
}

/// The packed records of `cps`, in order.
pub open spec fn checkpoint_records(cps: Seq<GZipCheckpoint>) -> Seq<u8>
    decreases cps.len(),
{
    if cps.len() == 0 {
        Seq::empty()
    } else {
        checkpoint_records(cps.drop_last()) + checkpoint_record(cps.last())
    }
}

/// The checkpoints blob of an index: the count as a little-endian 32-bit
/// integer, the span size as a little-endian 64-bit integer, then each
/// checkpoint's record.
pub open spec fn checkpoints_blob(z: ZInfo) -> Seq<u8> {
    spec_u32_to_le_bytes(z.checkpoints@.len() as u32) + spec_u64_to_le_bytes(z.span_size)
        + checkpoint_records(z.checkpoints@)
}

/// The compression half of a table of contents.
#[derive(Debug)]
pub struct CompressionInfo {
    /// Index of the last checkpoint.
    pub max_span_id: usize,
    /// One digest per checkpoint window, in checkpoint order.
    pub span_digests: Vec<String>,
    /// The packed checkpoints blob.
    pub checkpoints: Vec<u8>,
}

/// Every record of a well-formed index has the same size.
pub proof fn lemma_records_len(cps: Seq<GZipCheckpoint>)
    requires
        forall|k: int| 0 <= k < cps.len() ==> (#[trigger] cps[k]).window@.len() == WINSIZE,
    ensures
        checkpoint_records(cps).len() == cps.len() * CHECKPOINT_RECORD_SIZE,
    decreases cps.len(),
{
    if cps.len() > 0 {
        let init = cps.drop_last();
        assert forall|k: int| 0 <= k < init.len() implies (#[trigger] init[k]).window@.len() == WINSIZE by {
            assert(init[k] == cps[k]);
        }
        lemma_records_len(init);
        vstd::bytes::lemma_auto_spec_u64_to_from_le_bytes();
        assert(cps.last() == cps[cps.len() - 1]);
    }
}

/// The blob of a well-formed index is its header plus one fixed-size record
/// per checkpoint.
pub proof fn lemma_blob_len(z: ZInfo)
    requires
        z.wf(),
    ensures
        checkpoints_blob(z).len() == BLOB_HEADER_SIZE + z.checkpoints@.len() * CHECKPOINT_RECORD_SIZE,
{
    lemma_records_len(z.checkpoints@);
    vstd::bytes::lemma_auto_spec_u32_to_from_le_bytes();
    vstd::bytes::lemma_auto_spec_u64_to_from_le_bytes();
}

pub(crate) fn push_all(out: &mut Vec<u8>, bytes: &[u8])
    ensures
        final(out)@ == old(out)@ + bytes@,
{
    let mut i: usize = 0;
    while i < bytes.len()
        invariant
            i <= bytes@.len(),
            out@ == old(out)@ + bytes@.subrange(0, i as int),
        decreases bytes@.len() - i,
    {
        out.push(bytes[i]);
        i = i + 1;
        proof {
            assert(out@ =~= old(out)@ + bytes@.subrange(0, i as int));
        }
    }
    proof {
        assert(bytes@.subrange(0, bytes@.len() as int) =~= bytes@);
    }
}

impl CompressionInfo {
    /// Builds the compression half of a table of contents from a finished
    /// index: the last checkpoint's index, a digest per window and the packed
    /// blob. An index without checkpoints has no last one and is refused.
    pub fn from_zinfo(zinfo: &ZInfo) -> (r: Result<CompressionInfo, ZtocError>)
        requires
            zinfo.wf(),
            zinfo.checkpoints@.len() <= i32::MAX + 1,
        ensures
            zinfo.checkpoints@.len() == 0 <==> r == Err::<CompressionInfo, ZtocError>(ZtocError::EmptyIndex),
            zinfo.checkpoints@.len() > 0 <==> r is Ok,
            r is Ok ==> {
                let ci = r->Ok_0;
                &&& ci.max_span_id == zinfo.checkpoints@.len() - 1
                &&& ci.span_digests@.len() == zinfo.checkpoints@.len()
                &&& forall|k: int|
                    0 <= k < zinfo.checkpoints@.len() ==> (#[trigger] ci.span_digests@[k])@ == span_digest(
                        zinfo.checkpoints@[k].window@,
                    )
                &&& ci.checkpoints@ == checkpoints_blob(*zinfo)
            },
    {
        let n = zinfo.checkpoints.len();
        if n == 0 {
            return Err(ZtocError::EmptyIndex);
        }
        let mut blob: Vec<u8> = Vec::new();
        let count = u32_to_le_bytes(n as u32);
        push_all(&mut blob, count.as_slice());
        let span = u64_to_le_bytes(zinfo.span_size);
        push_all(&mut blob, span.as_slice());
        let mut digests: Vec<String> = Vec::new();
        let mut k: usize = 0;
        while k < n
            invariant
                n == zinfo.checkpoints@.len(),
                k <= n,
                blob@ == spec_u32_to_le_bytes(n as u32) + spec_u64_to_le_bytes(zinfo.span_size)
                    + checkpoint_records(zinfo.checkpoints@.subrange(0, k as int)),
                digests@.len() == k,
                forall|j: int|
                    0 <= j < k ==> (#[trigger] digests@[j])@ == span_digest(zinfo.checkpoints@[j].window@),
            decreases n - k,
        {
            let c = &zinfo.checkpoints[k];
            let ghost before = blob@;
            let a = u64_to_le_bytes(c.in_offset);
            push_all(&mut blob, a.as_slice());
            let b = u64_to_le_bytes(c.out_offset);
            push_all(&mut blob, b.as_slice());
            blob.push(c.bits);
            push_all(&mut blob, c.window.as_slice());
            digests.push(digest_window(c.window.as_slice()));
            proof {
                let prefix = zinfo.checkpoints@.subrange(0, k + 1);
                assert(prefix.drop_last() =~= zinfo.checkpoints@.subrange(0, k as int));
                assert(prefix.last() == *c);
                assert(blob@ =~= before + checkpoint_record(*c));
            }
            k = k + 1;
        }
        proof {
            assert(zinfo.checkpoints@.subrange(0, n as int) =~= zinfo.checkpoints@);
        }
        Ok(CompressionInfo { max_span_id: n - 1, span_digests: digests, checkpoints: blob })
    }
}

/// What is read of one tar entry: its path and link name as stored (after
/// extended-header overrides), its raw header block, where its payload starts
/// in the uncompressed stream and how long it is, and its extended-header
/// records in order.
#[derive(Debug)]
pub struct TarEntryFields {
    pub path: Vec<u8>,
    pub header: Vec<u8>,
    pub raw_file_position: u64,
    pub size: u64,
    pub link_name: Option<Vec<u8>>,
    pub pax: Vec<(Vec<u8>, Vec<u8>)>,
}

/// The metadata of one tar entry.
#[derive(Debug)]
pub struct FileMetadata {
    pub name: String,
    pub entry_type: EntryKind,
    /// Offset of the first payload byte in the uncompressed stream.
    pub uncompressed_offset: CompressionOffset,
    /// Payload length.
    pub uncompressed_size: CompressionOffset,
    pub link_name: Option<String>,
    pub mode: u32,
    pub uid: u64,
    pub gid: u64,
    pub uname: Option<String>,
    pub gname: Option<String>,
    /// Modification time, in seconds since the epoch (UTC).
    pub mod_time: i64,
    /// Device numbers, present only for character and block devices.
    pub dev_major: Option<u32>,
    pub dev_minor: Option<u32>,
    /// Extended attributes, one entry per key. A list of pairs rather than a
    /// hash map keyed by `String`, so that its contents can be stated: its
    /// map is `attrs_map`.
    pub x_attrs: Vec<(String, String)>,
}

/// Whether an entry of this kind carries device numbers.
pub open spec fn is_device(k: EntryKind) -> bool {
    k == EntryKind::Char || k == EntryKind::Block
}

/// The map that extended-header records give, a later record overriding an
/// earlier one with the same key.
pub open spec fn pax_map(pax: Seq<(Vec<u8>, Vec<u8>)>) -> Map<Seq<char>, Seq<char>>
    decreases pax.len(),
{
    if pax.len() == 0 {
        Map::empty()
    } else {
        pax_map(pax.drop_last()).insert(decode_utf8(pax.last().0@), decode_utf8(pax.last().1@))
    }
}

/// The map that a list of attribute pairs holds.
pub open spec fn attrs_map(v: Seq<(String, String)>) -> Map<Seq<char>, Seq<char>>
    decreases v.len(),
{
    if v.len() == 0 {
        Map::empty()
    } else {
        attrs_map(v.drop_last()).insert(v.last().0@, v.last().1@)
    }
}

/// No key occurs twice in a list of attribute pairs.
pub open spec fn keys_unique(v: Seq<(String, String)>) -> bool {
    forall|i: int, j: int| 0 <= i < j < v.len() ==> (#[trigger] v[i].0@) != (#[trigger] v[j].0@)
}

/// Every key and value of the records is UTF-8.
pub open spec fn pax_valid(pax: Seq<(Vec<u8>, Vec<u8>)>) -> bool {
    forall|i: int| 0 <= i < pax.len() ==> valid_utf8((#[trigger] pax[i]).0@) && valid_utf8(pax[i].1@)
}

/// Whether an entry can be recorded: its text is UTF-8, its type is one the
/// table records, its numeric fields parse, its time is representable.
pub open spec fn entry_fields_valid(raw: TarEntryFields) -> bool {
    let h = raw.header@;
    &&& valid_utf8(raw.path@)
    &&& kind_of_flag(h[TYPE_FLAG_OFFSET as int]) is Some
    &&& (raw.link_name matches Some(l) ==> valid_utf8(l@))
    &&& tar_mode(h) is Some
    &&& tar_uid(h) is Some
    &&& tar_gid(h) is Some
    &&& tar_username(h) is Some
    &&& tar_groupname(h) is Some
    &&& tar_mtime(h) is Some
    &&& utc_representable(tar_mtime(h)->Some_0 as i64)
    &&& pax_valid(raw.pax@)
    &&& (is_device(kind_of_flag(h[TYPE_FLAG_OFFSET as int])->Some_0) ==> tar_device_major(h) is Some
        && tar_device_minor(h) is Some)
}

/// Replacing the value of a key that occurs once updates the map.
proof fn lemma_attrs_update(v: Seq<(String, String)>, j: int, p: (String, String))
    requires
        keys_unique(v),
        0 <= j < v.len(),
        v[j].0@ == p.0@,
    ensures
        attrs_map(v.update(j, p)) == attrs_map(v).insert(p.0@, p.1@),
        keys_unique(v.update(j, p)),
    decreases v.len(),
{
    let w = v.update(j, p);
    assert(keys_unique(w)) by {
        assert forall|a: int, b: int| 0 <= a < b < w.len() implies (#[trigger] w[a].0@) != (#[trigger] w[b].0@) by {
            assert(v[a].0@ != v[b].0@);
        }
    }
    if j == v.len() - 1 {
        assert(w.drop_last() =~= v.drop_last());
        assert(attrs_map(w) =~= attrs_map(v).insert(p.0@, p.1@));
    } else {
        let init = v.drop_last();
        assert(keys_unique(init)) by {
            assert forall|a: int, b: int| 0 <= a < b < init.len() implies (#[trigger] init[a].0@) != (#[trigger] init[b].0@) by {
                assert(v[a].0@ != v[b].0@);
            }
        }
        lemma_attrs_update(init, j, p);
        assert(w.drop_last() =~= init.update(j, p));
        assert(v.last().0@ != p.0@) by {
            assert(v[j].0@ != v[v.len() - 1].0@);
        }
        assert(attrs_map(w) =~= attrs_map(v).insert(p.0@, p.1@));
    }
}

/// Decodes extended-header records into attribute pairs with unique keys.
fn decode_pax(pax: &Vec<(Vec<u8>, Vec<u8>)>) -> (r: Result<Vec<(String, String)>, ZtocError>)
    ensures
        r is Ok <==> pax_valid(pax@),
        r is Err ==> r->Err_0 is InvalidData,
        r is Ok ==> keys_unique(r->Ok_0@) && attrs_map(r->Ok_0@) == pax_map(pax@),
{
    let mut out: Vec<(String, String)> = Vec::new();
    let mut i: usize = 0;
    while i < pax.len()
        invariant
            i <= pax@.len(),
            pax_valid(pax@.subrange(0, i as int)),
            keys_unique(out@),
            attrs_map(out@) == pax_map(pax@.subrange(0, i as int)),
        decreases pax@.len() - i,
    {
        let key = match utf8_string(pax[i].0.as_slice()) {
            Ok(k) => k,
            Err(e) => {
                proof {
                    assert(!valid_utf8(pax@[i as int].0@));
                }
                return Err(e);
            },
        };
        let value = match utf8_string(pax[i].1.as_slice()) {
            Ok(v) => v,
            Err(e) => {
                return Err(e);
            },
        };
        let ghost before = out@;
        let mut j: usize = 0;
        while j < out.len()
            invariant
                j <= out@.len(),
                out@ == before,
                forall|a: int| 0 <= a < j ==> (#[trigger] out@[a]).0@ != key@,
            ensures
                j <= out@.len(),
                out@ == before,
                forall|a: int| 0 <= a < j ==> (#[trigger] out@[a]).0@ != key@,
                j < out@.len() ==> out@[j as int].0@ == key@,
            decreases out@.len() - j,
        {
            if out[j].0 == key {
                break;
            }
            j = j + 1;
        }
        let found = j < out.len();
        let ghost pk = key@;
        let ghost pv = value@;
        if found {
            let pair = (key, value);
            proof {
                lemma_attrs_update(out@, j as int, pair);
            }
            out.set(j, pair);
        } else {
            proof {
                assert forall|a: int, b: int| 0 <= a < b < out@.len() + 1 implies (#[trigger] out@.push((key, value))[a].0@)
                    != (#[trigger] out@.push((key, value))[b].0@) by {
                    if b == out@.len() {
                        assert(out@[a].0@ != key@);
                    } else {
                        assert(out@[a].0@ != out@[b].0@);
                    }
                }
            }
            out.push((key, value));
            proof {
                assert(out@.drop_last() =~= before);
            }
        }
        proof {
            let next = pax@.subrange(0, i + 1);
            assert(next.drop_last() =~= pax@.subrange(0, i as int));
            assert(next.last() == pax@[i as int]);
            assert(attrs_map(out@) =~= attrs_map(before).insert(pk, pv));
            assert(pax_valid(next)) by {
                assert forall|a: int| 0 <= a < next.len() implies valid_utf8((#[trigger] next[a]).0@) && valid_utf8(next[a].1@) by {
                    if a < i {
                        assert(next[a] == pax@.subrange(0, i as int)[a]);
                    }
                }
            }
        }
        i = i + 1;
    }
    proof {
        assert(pax@.subrange(0, pax@.len() as int) =~= pax@);
    }
    Ok(out)
}

fn invalid(msg: &str) -> (r: ZtocError)
    ensures
        r matches ZtocError::InvalidData(m) && m@ == msg@,
{
    ZtocError::InvalidData(msg.to_owned())
}

impl FileMetadata {
    /// The metadata of one tar entry. Fails with `InvalidData` where the
    /// entry cannot be recorded (see `entry_fields_valid`).
    pub fn from_entry_fields(raw: &TarEntryFields) -> (r: Result<FileMetadata, ZtocError>)
        requires
            raw.header@.len() == HEADER_SIZE,
        ensures
            r is Ok <==> entry_fields_valid(*raw),
            r is Err ==> r->Err_0 is InvalidData,
            r is Ok ==> r->Ok_0.wf(),
            r is Ok ==> {
                let m = r->Ok_0;
                let h = raw.header@;
                let kind = kind_of_flag(h[TYPE_FLAG_OFFSET as int])->Some_0;
                &&& m.name@ == decode_utf8(raw.path@)
                &&& m.entry_type == kind
                &&& m.uncompressed_offset == CompressionOffset(raw.raw_file_position)
                &&& m.uncompressed_size == CompressionOffset(raw.size)
                &&& opt_view(m.link_name) == match raw.link_name {
                    Some(l) => Some(decode_utf8(l@)),
                    None => None,
                }
                &&& m.mode == tar_mode(h)->Some_0
                &&& m.uid == tar_uid(h)->Some_0
                &&& m.gid == tar_gid(h)->Some_0
                &&& opt_view(m.uname) == tar_username(h)->Some_0
                &&& opt_view(m.gname) == tar_groupname(h)->Some_0
                &&& m.mod_time == tar_mtime(h)->Some_0 as i64
                &&& m.dev_major == if is_device(kind) { tar_device_major(h)->Some_0 } else { None }
                &&& m.dev_minor == if is_device(kind) { tar_device_minor(h)->Some_0 } else { None }
                &&& keys_unique(m.x_attrs@)
                &&& attrs_map(m.x_attrs@) == pax_map(raw.pax@)
            },
    {
        let h = raw.header.as_slice();
        let name = utf8_string(raw.path.as_slice())?;
        let entry_type = match header_entry_kind(h) {
            Some(k) => k,
            None => {
                return Err(invalid("unsupported entry type"));
            },
        };
        let link_name = match &raw.link_name {
            Some(l) => Some(utf8_string(l.as_slice())?),
            None => None,
        };
        let mode = match header_mode(h) {
            Some(v) => v,
            None => {
                return Err(invalid("invalid mode"));
            },
        };
        let uid = match header_uid(h) {
            Some(v) => v,
            None => {
                return Err(invalid("invalid uid"));
            },
        };
        let gid = match header_gid(h) {
            Some(v) => v,
            None => {
                return Err(invalid("invalid gid"));
            },
        };
        let uname = match header_username(h) {
            Ok(v) => v,
            Err(e) => {
                return Err(map_utf8_error(e));
            },
        };
        let gname = match header_groupname(h) {
            Ok(v) => v,
            Err(e) => {
                return Err(map_utf8_error(e));
            },
        };
        let mtime = match header_mtime(h) {
            Some(v) => v,
            None => {
                return Err(invalid("invalid mtime"));
            },
        };
        let mod_time = #[verifier::truncate] (mtime as i64);
        if !utc_timestamp_ok(mod_time) {
            return Err(invalid("invalid mtime"));
        }
        let x_attrs = decode_pax(&raw.pax)?;
        let mut dev_major: Option<u32> = None;
        let mut dev_minor: Option<u32> = None;
        if matches!(entry_type, EntryKind::Block | EntryKind::Char) {
            dev_major = match header_device_major(h) {
                Some(v) => v,
                None => {
                    return Err(invalid("invalid device major"));
                },
            };
            dev_minor = match header_device_minor(h) {
                Some(v) => v,
                None => {
                    return Err(invalid("invalid device minor"));
                },
            };
        }
        Ok(FileMetadata {
            name,
            entry_type,
            uncompressed_offset: CompressionOffset(raw.raw_file_position),
            uncompressed_size: CompressionOffset(raw.size),
            link_name,
            mode,
            uid,
            gid,
            uname,
            gname,
            mod_time,
            dev_major,
            dev_minor,
            x_attrs,
        })
    }

    /// Whether the metadata can be written out: its time is representable.
    pub open spec fn wf(&self) -> bool {
        utc_representable(self.mod_time)
    }
}

/// The metadata of a tar archive's entries, in archive order.
#[derive(Debug)]
pub struct Toc {
    pub metadata: Vec<FileMetadata>,
}

/// Version of the table-of-contents format.
pub const ZTOC_VERSION: &'static str = "0.9";

/// The producer recorded in every table of contents.
pub const BUILD_TOOL_IDENTIFIER: &'static str = "Replit SOCI v0.1";

/// A table of contents of a compressed tar archive.
#[derive(Debug)]
pub struct ZToc {
    pub version: String,
    pub build_tool_identifier: String,
    pub compressed_archive_size: CompressionOffset,
    pub uncompressed_archive_size: CompressionOffset,
    pub toc: Toc,
    pub compression_info: CompressionInfo,
}

impl ZToc {
    /// Joins the entries' metadata with the finished index of the stream
    /// they came from. Fails with `EmptyIndex` where the index has no
    /// checkpoint.
    pub fn new(toc: Toc, zinfo: ZInfo) -> (r: Result<ZToc, ZtocError>)
        requires
            zinfo.wf(),
            zinfo.checkpoints@.len() <= i32::MAX + 1,
        ensures
            zinfo.checkpoints@.len() == 0 <==> r == Err::<ZToc, ZtocError>(ZtocError::EmptyIndex),
            zinfo.checkpoints@.len() > 0 <==> r is Ok,
            r is Ok ==> {
                let z = r->Ok_0;
                let ci = z.compression_info;
                &&& z.version@ == ZTOC_VERSION@
                &&& z.build_tool_identifier@ == BUILD_TOOL_IDENTIFIER@
                &&& z.compressed_archive_size == CompressionOffset(zinfo.total_in)
                &&& z.uncompressed_archive_size == CompressionOffset(zinfo.total_out)
                &&& z.toc == toc
                &&& ci.max_span_id == zinfo.checkpoints@.len() - 1
                &&& ci.span_digests@.len() == zinfo.checkpoints@.len()
                &&& forall|k: int|
                    0 <= k < zinfo.checkpoints@.len() ==> (#[trigger] ci.span_digests@[k])@ == span_digest(
                        zinfo.checkpoints@[k].window@,
                    )
                &&& ci.checkpoints@ == checkpoints_blob(zinfo)
            },
    {
        let compression_info = CompressionInfo::from_zinfo(&zinfo)?;
        Ok(ZToc {
            version: ZTOC_VERSION.to_owned(),
            build_tool_identifier: BUILD_TOOL_IDENTIFIER.to_owned(),
            compressed_archive_size: CompressionOffset(zinfo.total_in),
            uncompressed_archive_size: CompressionOffset(zinfo.total_out),
            toc,
            compression_info,
        })
    }
}

} // verus!
