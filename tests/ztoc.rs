use std::io::{Cursor, Read};

use ztoc::digest::digest_window;
use ztoc::encode::checked_ztoc_record;
use ztoc::zinfo::WINSIZE;
use ztoc::{
    ztoc_record, CompressionInfo, CompressionOffset, EntryKind, FileMetadata, GZipCheckpoint,
    TarEntryFields, Toc, ZInfo, ZToc, ZtocError,
};

fn fields_of<R: Read>(e: &mut tar::Entry<R>) -> TarEntryFields {
    let pax = match e.pax_extensions().unwrap() {
        Some(exts) => exts
            .map(|x| {
                let x = x.unwrap();
                (x.key_bytes().to_vec(), x.value_bytes().to_vec())
            })
            .collect(),
        None => Vec::new(),
    };
    TarEntryFields {
        path: e.path_bytes().to_vec(),
        header: e.header().as_bytes().to_vec(),
        raw_file_position: e.raw_file_position(),
        size: e.size(),
        link_name: e.link_name_bytes().map(|l| l.to_vec()),
        pax,
    }
}

fn metadata_of(bytes: &[u8]) -> Result<Vec<FileMetadata>, ZtocError> {
    let mut archive = tar::Archive::new(Cursor::new(bytes));
    let mut out = Vec::new();
    for entry in archive.entries().unwrap() {
        let mut entry = entry.unwrap();
        out.push(FileMetadata::from_entry_fields(&fields_of(&mut entry))?);
    }
    Ok(out)
}

fn header(kind: tar::EntryType, size: u64) -> tar::Header {
    let mut h = tar::Header::new_ustar();
    h.set_entry_type(kind);
    h.set_size(size);
    h.set_mode(0o644);
    h.set_uid(1000);
    h.set_gid(100);
    h.set_mtime(0);
    h.set_username("alice").unwrap();
    h.set_groupname("staff").unwrap();
    h
}

fn sample_tar() -> Vec<u8> {
    let mut b = tar::Builder::new(Vec::new());
    let mut dir = header(tar::EntryType::Directory, 0);
    b.append_data(&mut dir, "src/", &[][..]).unwrap();
    let mut f = header(tar::EntryType::Regular, 5);
    b.append_data(&mut f, "src/zinfo.rs", &b"hello"[..]).unwrap();
    let mut g = header(tar::EntryType::Regular, 700);
    b.append_data(&mut g, "src/main.rs", &[7u8; 700][..]).unwrap();
    let mut t = header(tar::EntryType::Directory, 0);
    b.append_data(&mut t, "src/testdata/", &[][..]).unwrap();
    b.into_inner().unwrap()
}

#[test]
fn tar_names_in_archive_order() {
    let meta = metadata_of(&sample_tar()).expect("failed to generate tar metadata");
    assert_eq!(
        vec!["src/", "src/zinfo.rs", "src/main.rs", "src/testdata/"],
        meta.iter().map(|m| m.name.as_str()).collect::<Vec<&str>>(),
    );
}

#[test]
fn tar_fields_are_read_from_headers() {
    let bytes = sample_tar();
    let meta = metadata_of(&bytes).unwrap();
    assert_eq!(meta[0].entry_type, EntryKind::Directory);
    assert_eq!(meta[1].entry_type, EntryKind::Regular);
    assert_eq!(meta[1].uncompressed_offset, CompressionOffset(1024));
    assert_eq!(meta[1].uncompressed_size, CompressionOffset(5));
    assert_eq!(&bytes[1024..1029], b"hello");
    assert_eq!(meta[1].mode, 0o644);
    assert_eq!((meta[1].uid, meta[1].gid), (1000, 100));
    assert_eq!(meta[1].uname.as_deref(), Some("alice"));
    assert_eq!(meta[1].gname.as_deref(), Some("staff"));
    assert_eq!(meta[1].mod_time, 0);
    assert_eq!((meta[1].dev_major, meta[1].dev_minor), (None, None));
    assert!(meta[1].link_name.is_none());
    assert!(meta[1].x_attrs.is_empty());
}

#[test]
fn payloads_lie_within_stream() {
    let bytes = sample_tar();
    for m in metadata_of(&bytes).unwrap() {
        assert!(m.uncompressed_offset.0 + m.uncompressed_size.0 <= bytes.len() as u64);
    }
}

#[test]
fn device_numbers_only_for_devices() {
    let mut b = tar::Builder::new(Vec::new());
    let mut c = header(tar::EntryType::Char, 0);
    c.set_device_major(4).unwrap();
    c.set_device_minor(64).unwrap();
    b.append_data(&mut c, "dev/tty0", &[][..]).unwrap();
    let mut f = header(tar::EntryType::Fifo, 0);
    f.set_device_major(9).unwrap();
    b.append_data(&mut f, "run/pipe", &[][..]).unwrap();
    let meta = metadata_of(&b.into_inner().unwrap()).unwrap();
    assert_eq!((meta[0].dev_major, meta[0].dev_minor), (Some(4), Some(64)));
    assert_eq!((meta[1].dev_major, meta[1].dev_minor), (None, None));
}

#[test]
fn unsupported_entry_type_is_invalid_data() {
    let mut b = tar::Builder::new(Vec::new());
    let mut h = header(tar::EntryType::Continuous, 0);
    b.append_data(&mut h, "x", &[][..]).unwrap();
    let r = metadata_of(&b.into_inner().unwrap());
    assert!(matches!(r, Err(ZtocError::InvalidData(_))));
}

#[test]
fn non_utf8_path_is_invalid_data() {
    let mut h = header(tar::EntryType::Regular, 0);
    h.set_cksum();
    let raw = TarEntryFields {
        path: vec![0x66, 0xff, 0x6f],
        header: h.as_bytes().to_vec(),
        raw_file_position: 512,
        size: 0,
        link_name: None,
        pax: Vec::new(),
    };
    assert_eq!(
        FileMetadata::from_entry_fields(&raw).unwrap_err(),
        ZtocError::InvalidData("invalid UTF-8".to_string())
    );
}

#[test]
fn non_utf8_xattr_is_invalid_data() {
    let h = header(tar::EntryType::Regular, 0);
    let raw = TarEntryFields {
        path: b"a".to_vec(),
        header: h.as_bytes().to_vec(),
        raw_file_position: 512,
        size: 0,
        link_name: None,
        pax: vec![(b"SCHILY.xattr.user.k".to_vec(), vec![0xc3])],
    };
    assert_eq!(
        FileMetadata::from_entry_fields(&raw).unwrap_err(),
        ZtocError::InvalidData("invalid UTF-8".to_string())
    );
}

#[test]
fn later_xattr_record_overrides_earlier() {
    let h = header(tar::EntryType::Regular, 0);
    let raw = TarEntryFields {
        path: b"a".to_vec(),
        header: h.as_bytes().to_vec(),
        raw_file_position: 512,
        size: 0,
        link_name: Some(b"b".to_vec()),
        pax: vec![
            (b"k1".to_vec(), b"v1".to_vec()),
            (b"k2".to_vec(), b"v2".to_vec()),
            (b"k1".to_vec(), b"v3".to_vec()),
        ],
    };
    let m = FileMetadata::from_entry_fields(&raw).unwrap();
    let mut attrs = m.x_attrs.clone();
    attrs.sort();
    assert_eq!(
        attrs,
        vec![("k1".to_string(), "v3".to_string()), ("k2".to_string(), "v2".to_string())]
    );
    assert_eq!(m.link_name.as_deref(), Some("b"));
}

fn checkpoint(in_offset: u64, out_offset: u64, bits: u8, fill: u8) -> GZipCheckpoint {
    GZipCheckpoint { out_offset, in_offset, bits, window: vec![fill; WINSIZE] }
}

fn zinfo(checkpoints: Vec<GZipCheckpoint>, total_in: u64, total_out: u64) -> ZInfo {
    ZInfo { version: 2, checkpoints, span_size: 4, total_in, total_out }
}

#[test]
fn digest_of_zero_window() {
    assert_eq!(
        digest_window(&[0u8; WINSIZE]),
        "sha256:c35020473aed1b4642cd726cad727b63fff2824ad68cedd7ffb73c7cbd890479"
    );
}

#[test]
fn compression_info_packs_checkpoints() {
    let z = zinfo(vec![checkpoint(10, 0, 3, 0), checkpoint(0x0102, 0x0a0b0c, 7, 7)], 0x0200, 0x0a0b0d);
    let ci = CompressionInfo::from_zinfo(&z).unwrap();
    assert_eq!(ci.max_span_id, 1);
    assert_eq!(ci.checkpoints.len(), 12 + 2 * 32785);
    assert_eq!(&ci.checkpoints[..12], &[2, 0, 0, 0, 4, 0, 0, 0, 0, 0, 0, 0]);
    let second = &ci.checkpoints[12 + 32785..];
    assert_eq!(&second[..17], &[0x02, 0x01, 0, 0, 0, 0, 0, 0, 0x0c, 0x0b, 0x0a, 0, 0, 0, 0, 0, 7]);
    assert!(second[17..].iter().all(|b| *b == 7));
    assert_eq!(
        ci.span_digests,
        vec![
            "sha256:c35020473aed1b4642cd726cad727b63fff2824ad68cedd7ffb73c7cbd890479".to_string(),
            "sha256:40f7dc455a85f953580d6f3c11cf3b90413e53c41a4dd111100ad02ebfa49d33".to_string(),
        ]
    );
}

#[test]
fn empty_index_is_refused() {
    let z = zinfo(Vec::new(), 20, 0);
    assert_eq!(CompressionInfo::from_zinfo(&z).unwrap_err(), ZtocError::EmptyIndex);
    let z = zinfo(Vec::new(), 20, 0);
    assert_eq!(ZToc::new(Toc { metadata: Vec::new() }, z).unwrap_err(), ZtocError::EmptyIndex);
}

#[test]
fn ztoc_joins_metadata_and_index() {
    let meta = metadata_of(&sample_tar()).unwrap();
    let z = zinfo(vec![checkpoint(10, 0, 0, 0)], 1234, 5632);
    let t = ZToc::new(Toc { metadata: meta }, z).unwrap();
    assert_eq!(t.version, "0.9");
    assert_eq!(t.build_tool_identifier, "Replit SOCI v0.1");
    assert_eq!(t.compressed_archive_size, CompressionOffset(1234));
    assert_eq!(t.uncompressed_archive_size, CompressionOffset(5632));
    assert_eq!(t.toc.metadata.len(), 4);
    assert_eq!(t.compression_info.max_span_id, 0);
}

#[test]
fn record_of_ztoc() {
    let mut b = tar::Builder::new(Vec::new());
    let mut c = header(tar::EntryType::Block, 0);
    c.set_device_major(8).unwrap();
    c.set_device_minor(1).unwrap();
    c.set_mtime(1_700_000_000);
    b.append_data(&mut c, "dev/sda1", &[][..]).unwrap();
    let mut l = header(tar::EntryType::Symlink, 0);
    l.set_link_name("target").unwrap();
    b.append_data(&mut l, "link", &[][..]).unwrap();
    let mut f = header(tar::EntryType::Regular, 0);
    b.append_data(&mut f, "file", &[][..]).unwrap();
    let meta = metadata_of(&b.into_inner().unwrap()).unwrap();
    let z = ZInfo {
        version: 2,
        checkpoints: vec![checkpoint(10, 0, 0, 0)],
        span_size: 4,
        total_in: (1u64 << 32) + 7,
        total_out: (1u64 << 33) + 9,
    };
    let t = ZToc::new(Toc { metadata: meta }, z).unwrap();
    let r = ztoc_record(&t);
    assert_eq!(r.version, "0.9");
    assert_eq!(r.compressed_archive_size, (1i64 << 32) + 7);
    assert_eq!(r.uncompressed_archive_size, (1i64 << 33) + 9);
    assert_eq!(r.compression_info.compression_algorithm, 0);
    assert_eq!(r.compression_info.max_span_id, 0);
    assert_eq!(r.compression_info.checkpoints, t.compression_info.checkpoints);
    assert_eq!(r.compression_info.span_digests, t.compression_info.span_digests);
    assert_eq!(r.metadata.len(), 3);
    let dev = &r.metadata[0];
    assert_eq!(dev.type_, "block");
    assert_eq!((dev.devmajor, dev.devminor), (1, 8));
    assert_eq!(dev.mod_time, "2023-11-14T22:13:20+00:00");
    assert_eq!(dev.mode, 0o644);
    assert_eq!(dev.uname.as_deref(), Some("alice"));
    assert_eq!(r.metadata[1].type_, "symlink");
    assert_eq!(r.metadata[1].linkname, "target");
    assert_eq!(r.metadata[2].type_, "reg");
    assert_eq!(r.metadata[2].linkname, "");
    assert_eq!(r.metadata[2].mod_time, "1970-01-01T00:00:00+00:00");
    assert_eq!((r.metadata[2].devmajor, r.metadata[2].devminor), (0, 0));
}

#[test]
fn unrepresentable_time_is_not_written() {
    let meta = FileMetadata {
        name: "a".to_string(),
        entry_type: EntryKind::Regular,
        uncompressed_offset: CompressionOffset(512),
        uncompressed_size: CompressionOffset(0),
        link_name: None,
        mode: 0o644,
        uid: 0,
        gid: 0,
        uname: None,
        gname: None,
        mod_time: i64::MAX,
        dev_major: None,
        dev_minor: None,
        x_attrs: Vec::new(),
    };
    let z = zinfo(vec![checkpoint(10, 0, 0, 0)], 20, 1024);
    let t = ZToc::new(Toc { metadata: vec![meta] }, z).unwrap();
    assert_eq!(
        checked_ztoc_record(&t).unwrap_err(),
        ZtocError::InvalidData("invalid mtime".to_string())
    );
}

#[test]
fn checked_record_matches_record() {
    let meta = metadata_of(&sample_tar()).unwrap();
    let z = zinfo(vec![checkpoint(10, 0, 0, 0)], 20, 5632);
    let t = ZToc::new(Toc { metadata: meta }, z).unwrap();
    let r = checked_ztoc_record(&t).unwrap();
    assert_eq!(r, ztoc_record(&t));
    assert_eq!(r.metadata[0].name, "src/");
    assert_eq!(r.metadata[0].type_, "dir");
    assert_eq!(r.metadata[0].uname, Some("alice".to_string()));
}

fn pax_record(key: &str, value: &str) -> Vec<u8> {
    let body = format!(" {}={}\n", key, value);
    let mut n = body.len() + 1;
    while format!("{}", n).len() + body.len() != n {
        n += 1;
    }
    format!("{}{}", n, body).into_bytes()
}

#[test]
fn pax_records_override_path_and_become_xattrs() {
    let long = format!("dir/{}", "n".repeat(150));
    let mut data = pax_record("path", &long);
    data.extend(pax_record("SCHILY.xattr.user.tag", "blue"));
    let mut b = tar::Builder::new(Vec::new());
    let mut x = header(tar::EntryType::XHeader, data.len() as u64);
    b.append_data(&mut x, "PaxHeaders/short", &data[..]).unwrap();
    let mut f = header(tar::EntryType::Regular, 3);
    b.append_data(&mut f, "short", &b"abc"[..]).unwrap();
    let bytes = b.into_inner().unwrap();
    let meta = metadata_of(&bytes).unwrap();
    assert_eq!(meta.len(), 1);
    assert_eq!(meta[0].name, long);
    assert_eq!(meta[0].uncompressed_size, CompressionOffset(3));
    let offset = meta[0].uncompressed_offset.0 as usize;
    assert_eq!(&bytes[offset..offset + 3], b"abc");
    let mut attrs = meta[0].x_attrs.clone();
    attrs.sort();
    assert_eq!(
        attrs,
        vec![
            ("SCHILY.xattr.user.tag".to_string(), "blue".to_string()),
            ("path".to_string(), long.clone()),
        ]
    );
}
