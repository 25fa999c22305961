use utzip::fix::{fix_normal_select, local_matches_central, scan_local_headers};
use utzip::options::unicode_path_field;
use utzip::pipeline::{checksum, compress_entry};
use utzip::reader::read_archive;
use utzip::writer::ZipWriter;
use utzip::zip::{CentralDirectoryHeader, CompressionMethod};

fn archive() -> Vec<u8> {
    let mut w = ZipWriter::new();
    for (name, data) in [("a", &b"first"[..]), ("b", &b"second entry"[..])] {
        let mut h = CentralDirectoryHeader::new();
        h.filename = name.as_bytes().to_vec();
        let e = compress_entry(data, CompressionMethod::Stored, 0, false, None, &[]).unwrap();
        w.add_entry(h, &e);
    }
    w.finish(b"");
    w.out
}

#[test]
fn normal_fix_keeps_agreeing_entries() {
    let mut a = archive();
    let hs = read_archive(&a).unwrap();
    assert_eq!(fix_normal_select(&a, &hs), vec![0, 1]);
    let off = hs[1].get_local_header_offset() as usize;
    a[off + 14] ^= 0xFF;
    assert!(!local_matches_central(&a, &hs[1]));
    assert_eq!(fix_normal_select(&a, &hs), vec![0]);
}

#[test]
fn full_fix_finds_local_headers() {
    let a = archive();
    let hs = read_archive(&a).unwrap();
    let second = hs[1].get_local_header_offset() as usize;
    assert_eq!(scan_local_headers(&a, &vec![]), vec![0, second]);
    assert_eq!(scan_local_headers(&a, &vec![second as u64]), vec![second]);
    assert!(scan_local_headers(&a[..20], &vec![]).is_empty());
}

#[test]
fn unicode_path_extra_field() {
    let f = unicode_path_field(b"caf\xe9", "café");
    assert_eq!(&f[0..5], &[0x75, 0x70, 10, 0, 1]);
    assert_eq!(&f[5..9], &checksum(b"caf\xe9").to_le_bytes());
    assert_eq!(&f[9..], "café".as_bytes());
}
