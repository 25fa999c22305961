use std::io::Read;
use utzip::pipeline::{checksum, compress_entry};
use utzip::reader::{entry_data, find_end_record, local_record_span, read_archive};
use utzip::split::{split_volumes, Piece};
use utzip::writer::ZipWriter;
use utzip::zip::{CentralDirectoryHeader, CompressionMethod};

fn header_named(name: &str) -> CentralDirectoryHeader {
    let mut h = CentralDirectoryHeader::new();
    h.filename = name.as_bytes().to_vec();
    h.mod_time = 12 << 11;
    h.mod_date = (44 << 9) | (5 << 5) | 1;
    h
}

#[test]
fn writer_output_cuts_into_pieces() {
    let old = build_two_entry_archive();
    let headers = read_archive(&old).unwrap();
    let mut w = ZipWriter::new();
    assert_eq!(w.copy_raw(&old, &headers[1]), Some(()));
    let e = compress_entry(b"third", CompressionMethod::Stored, 0, false, None, &[]).unwrap();
    w.add_entry(header_named("c.txt"), &e);
    w.finish(b"note");
    let (pieces, idx) = utzip::pieces::archive_pieces(&w.out, &w.cd_headers).unwrap();
    assert_eq!(idx.len(), 2);
    let joined: Vec<u8> = pieces.iter().flat_map(|p| p.bytes.clone()).collect();
    assert_eq!(joined, w.out);
    let mut bad = w.cd_headers.clone();
    bad.swap(0, 1);
    assert!(utzip::pieces::archive_pieces(&w.out, &bad).is_none());
}

fn build_two_entry_archive() -> Vec<u8> {
    let mut w = ZipWriter::new();
    let a = compress_entry(b"hello\n", CompressionMethod::Deflated, 6, false, None, &[]).unwrap();
    w.add_entry(header_named("a.txt"), &a);
    let data: Vec<u8> = (0..3000u32).map(|i| (i % 13) as u8).collect();
    let b = compress_entry(&data, CompressionMethod::Deflated, 6, false, None, &[]).unwrap();
    w.add_entry(header_named("dir/b.bin"), &b);
    w.finish(b"");
    w.out
}

#[test]
fn create_and_list() {
    let out = build_two_entry_archive();
    let headers = read_archive(&out).unwrap();
    assert_eq!(headers.len(), 2);
    assert_eq!(headers[0].filename, b"a.txt".to_vec());
    assert_eq!(headers[1].filename, b"dir/b.bin".to_vec());
    assert_eq!(headers[0].crc32, 0x363A3020);
    assert_eq!(headers[0].compression, CompressionMethod::Stored);
    assert_eq!(headers[1].compression, CompressionMethod::Deflated);
    assert_eq!(entry_data(&out, &headers[0]).unwrap(), b"hello\n".to_vec());
    let raw = entry_data(&out, &headers[1]).unwrap();
    let mut back = Vec::new();
    flate2::read::DeflateDecoder::new(&raw[..]).read_to_end(&mut back).unwrap();
    assert_eq!(back.len(), 3000);
    assert_eq!(checksum(&back), headers[1].crc32);
}

#[test]
fn end_record_is_found_behind_comment() {
    let mut w = ZipWriter::new();
    let a = compress_entry(b"x", CompressionMethod::Stored, 0, false, None, &[]).unwrap();
    w.add_entry(header_named("x"), &a);
    w.finish(b"an archive comment");
    let p = find_end_record(&w.out).unwrap();
    assert_eq!(p, w.out.len() - 22 - 18);
    assert_eq!(read_archive(&w.out).unwrap().len(), 1);
}

#[test]
fn garbage_is_not_an_archive() {
    assert!(read_archive(b"definitely not a zip archive").is_err());
    assert!(find_end_record(b"short").is_none());
}

#[test]
fn raw_copy_keeps_entry_bytes() {
    let old = build_two_entry_archive();
    let headers = read_archive(&old).unwrap();
    let mut w = ZipWriter::new();
    assert_eq!(w.copy_raw(&old, &headers[1]), Some(()));
    w.finish(b"");
    let copied = read_archive(&w.out).unwrap();
    assert_eq!(copied.len(), 1);
    assert_eq!(copied[0].filename, b"dir/b.bin".to_vec());
    assert_eq!(copied[0].get_local_header_offset(), 0);
    assert_eq!(copied[0].crc32, headers[1].crc32);
    assert_eq!(entry_data(&w.out, &copied[0]).unwrap(), entry_data(&old, &headers[1]).unwrap());
    let (s, t) = local_record_span(&old, &headers[1]).unwrap();
    assert_eq!(&w.out[..t - s], &old[s..t]);
}

#[test]
fn split_respects_volume_size_and_records() {
    let header = Piece { bytes: vec![1u8; 30], splittable: false };
    let payload = Piece { bytes: vec![2u8; 150], splittable: true };
    let pieces = vec![header.clone(), payload.clone(), header.clone(), payload, header];
    let vols = split_volumes(&pieces, 64).unwrap();
    let all: Vec<u8> = pieces.iter().flat_map(|p| p.bytes.clone()).collect();
    let joined: Vec<u8> = vols.iter().flat_map(|v| v.clone()).collect();
    assert_eq!(joined, all);
    assert!(vols.iter().all(|v| v.len() <= 64));
    assert_eq!(vols[0].len(), 64);
    let mut pos = 0usize;
    let mut starts = Vec::new();
    for v in &vols {
        starts.push(pos);
        pos += v.len();
    }
    let mut at = 0usize;
    for p in &pieces {
        if !p.splittable {
            let v = starts.iter().rposition(|&s| s <= at).unwrap();
            assert!(at + p.bytes.len() <= starts[v] + vols[v].len());
        }
        at += p.bytes.len();
    }
}

#[test]
fn split_refuses_oversized_record() {
    let pieces = vec![Piece { bytes: vec![0u8; 100], splittable: false }];
    assert!(split_volumes(&pieces, 64).is_none());
}

#[test]
fn split_archive_at_64k() {
    let mut pieces = Vec::new();
    for i in 0..10u8 {
        pieces.push(Piece { bytes: vec![i; 40], splittable: false });
        pieces.push(Piece { bytes: vec![i; 20 * 1024], splittable: true });
    }
    let vols = split_volumes(&pieces, 65536).unwrap();
    assert_eq!(vols.len(), 4);
    assert!(vols.iter().all(|v| v.len() <= 65536));
}

#[test]
fn archive_object_lists_files() {
    let out = build_two_entry_archive();
    let z = utzip::reader::ZipArchive::new(out.clone()).unwrap();
    assert_eq!(z.len(), 2);
    assert_eq!(z.archive_info.num_entries, 2);
    assert!(!z.archive_info.is_zip64);
    assert_eq!(z.archive_info.comment, "");
    let f = z.file(0).unwrap();
    assert_eq!(f.name(), "a.txt");
    assert_eq!(&out[f.data_start as usize..f.data_end as usize], b"hello\n");
    assert_eq!(f.origin_size(), 6);
    assert!(utzip::reader::ZipArchive::new(b"PK\x05\x06".to_vec()).is_err());
}

#[test]
fn archive_cut_into_volumes() {
    let mut w = ZipWriter::new();
    for i in 0..10u32 {
        let data: Vec<u8> = (0..20 * 1024u32).map(|k| ((k * 7919 + i * 31) % 251) as u8).collect();
        let e = compress_entry(&data, CompressionMethod::Stored, 0, false, None, &[]).unwrap();
        w.add_entry(header_named(&format!("f{}.bin", i)), &e);
    }
    w.finish(b"");
    let (pieces, idx) = utzip::pieces::archive_pieces(&w.out, &w.cd_headers).unwrap();
    assert_eq!(idx.len(), 10);
    let vols = split_volumes(&pieces, 65536).unwrap();
    assert_eq!(vols.len(), 4);
    assert!(vols.iter().all(|v| v.len() <= 65536));
    let joined: Vec<u8> = vols.iter().flat_map(|v| v.clone()).collect();
    assert_eq!(joined, w.out);
    let mut starts = Vec::new();
    let mut pos = 0usize;
    for v in &vols {
        starts.push(pos);
        pos += v.len();
    }
    for h in &w.cd_headers {
        let off = h.get_local_header_offset() as usize;
        let v = starts.iter().rposition(|&s| s <= off).unwrap();
        assert!(off + 30 + h.filename.len() <= starts[v] + vols[v].len());
    }
}

#[test]
fn many_entries_use_zip64_end_records() {
    let mut w = ZipWriter::new();
    let e = compress_entry(b"", CompressionMethod::Stored, 0, false, None, &[]).unwrap();
    for i in 0..0xFFFFu32 {
        let mut h = CentralDirectoryHeader::new();
        h.filename = vec![b'a' + (i % 26) as u8];
        w.add_entry(h, &e);
    }
    w.finish(b"");
    assert!(utzip::pieces::archive_pieces(&w.out, &w.cd_headers).is_some());
    let n = w.out.len();
    assert_eq!(&w.out[n - 22..n - 18], &[0x50, 0x4B, 0x05, 0x06]);
    assert_eq!(&w.out[n - 22 + 10..n - 22 + 12], &[0xFF, 0xFF]);
    assert_eq!(&w.out[n - 42..n - 38], &[0x50, 0x4B, 0x06, 0x07]);
    let info = utzip::reader::read_end_info(&w.out).unwrap();
    assert!(info.is_zip64);
    assert_eq!(info.zip64_num_entries, Some(0xFFFF));
    let headers = read_archive(&w.out).unwrap();
    assert_eq!(headers.len(), 0xFFFF);
}
