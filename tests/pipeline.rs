use std::io::Read;
use utzip::error::ZipError;
use utzip::options::{FileInfo, FileOptions, LineEndingConversion};
use utzip::pipeline::{checksum, compress_entry, looks_like_text, translate_line_endings};
use utzip::zip::{CompressionMethod, ZIP_CRYPTO_FLAG};
use utzip::zipcrypto::{check_byte, decrypt_entry, encrypt_entry, ZipCryptoKeys};

#[test]
fn crc_of_hello_line() {
    assert_eq!(checksum(b"hello\n"), 0x363A3020);
    assert_eq!(checksum(b""), 0);
}

#[test]
fn small_text_falls_back_to_store() {
    let e = compress_entry(b"hello\n", CompressionMethod::Deflated, 6, false, None, &[]).unwrap();
    assert_eq!(e.method, CompressionMethod::Stored);
    assert_eq!(e.compressed_size, 6);
    assert_eq!(e.uncompressed_size, 6);
    assert_eq!(e.data, b"hello\n".to_vec());
    assert_eq!(e.crc32, 0x363A3020);
    assert_eq!(e.flags, 0);
}

#[test]
fn explicit_level_keeps_deflate() {
    let e = compress_entry(b"hello\n", CompressionMethod::Deflated, 6, true, None, &[]).unwrap();
    assert_eq!(e.method, CompressionMethod::Deflated);
    assert!(e.compressed_size > 6);
}

#[test]
fn repetitive_data_deflates_and_inflates() {
    let data: Vec<u8> = (0..4000u32).map(|i| (i % 7) as u8).collect();
    let e = compress_entry(&data, CompressionMethod::Deflated, 6, false, None, &[]).unwrap();
    assert_eq!(e.method, CompressionMethod::Deflated);
    assert!(e.compressed_size < data.len() as u64);
    let mut out = Vec::new();
    flate2::read::DeflateDecoder::new(&e.data[..]).read_to_end(&mut out).unwrap();
    assert_eq!(out, data);
}

#[test]
fn bzip2_entry_decompresses() {
    let data: Vec<u8> = b"abcabcabcabcabcabcabcabcabc".repeat(20);
    let e = compress_entry(&data, CompressionMethod::Bzip2, 0, false, None, &[]).unwrap();
    assert_eq!(e.method, CompressionMethod::Bzip2);
    let mut out = Vec::new();
    bzip2::read::BzDecoder::new(&e.data[..]).read_to_end(&mut out).unwrap();
    assert_eq!(out, data);
}

#[test]
fn byte_range_entry_sizes() {
    let data: Vec<u8> = (0..=255u8).collect();
    let e = compress_entry(&data, CompressionMethod::Deflated, 6, false, None, &[]).unwrap();
    assert!(e.compressed_size <= 256);
    assert_eq!(e.uncompressed_size, 256);
    assert_eq!(e.crc32, checksum(&data));
}

#[test]
fn zipcrypto_keys_from_password() {
    let k = ZipCryptoKeys::new();
    assert_eq!((k.key0, k.key1, k.key2), (0x12345678, 0x23456789, 0x34567890));
    let mut a = ZipCryptoKeys::from_password(b"secret");
    let mut b = ZipCryptoKeys::from_password(b"secret");
    let c = a.encrypt(b"hi there");
    assert_ne!(c, b"hi there".to_vec());
    assert_eq!(b.decrypt(&c), b"hi there".to_vec());
}

#[test]
fn encrypted_round_trip_and_wrong_password() {
    let crc = checksum(b"hi");
    let check = check_byte(0, crc, 0);
    assert_eq!(check, (crc >> 24) as u8);
    let random = [3u8, 1, 4, 1, 5, 9, 2, 6, 5, 3, 5];
    let enc = encrypt_entry("secret", &random, check, b"hi");
    assert_eq!(enc.len(), 14);
    assert_eq!(decrypt_entry("secret", &enc, check), Ok(b"hi".to_vec()));
    assert_eq!(decrypt_entry("Secret", &enc, check), Err(ZipError::InvalidPassword));
    assert!(matches!(decrypt_entry("secret", &enc[..5], check), Err(ZipError::InvalidArchive(_))));
}

#[test]
fn check_byte_uses_time_with_descriptor() {
    assert_eq!(check_byte(8, 0xAABBCCDD, 0x1234), 0x12);
    assert_eq!(check_byte(0, 0xAABBCCDD, 0x1234), 0xAA);
}

#[test]
fn encrypted_pipeline_entry() {
    let random = [7u8; 11];
    let e = compress_entry(b"hi", CompressionMethod::Stored, 0, false, Some("secret"), &random).unwrap();
    assert_eq!(e.flags, ZIP_CRYPTO_FLAG);
    assert_eq!(e.compressed_size, 2 + 12);
    let check = check_byte(0, e.crc32, 0);
    assert_eq!(decrypt_entry("secret", &e.data, check), Ok(b"hi".to_vec()));
}

#[test]
fn file_options_defaults_and_levels() {
    let mut o = FileOptions::new();
    assert_eq!(o.compression_method, CompressionMethod::Deflated);
    assert_eq!(o.compression_level, 6);
    assert_eq!(o.no_compress_extensions.len(), 5);
    o.optimize_compression_level_for_size(100);
    assert_eq!(o.compression_level, 1);
    o.optimize_compression_level_for_size(5000);
    assert_eq!(o.compression_level, 2);
    o.optimize_compression_level_for_size(50_000);
    assert_eq!(o.compression_level, 3);
    o.optimize_compression_level_for_size(1_000_000);
    assert_eq!(o.compression_level, 6);
    o.with_compression(CompressionMethod::Bzip2);
    assert_eq!(o.compression_level, 9);
    o.with_compression(CompressionMethod::Stored);
    assert_eq!(o.compression_level, 0);
    o.with_compression_level(4);
    o.with_compression(CompressionMethod::Deflated);
    assert_eq!(o.compression_level, 4);
    o.optimize_compression_level_for_size(100);
    assert_eq!(o.compression_level, 4);
    o.with_password("pw");
    assert_eq!(o.password.as_deref(), Some("pw"));
}

#[test]
fn line_ending_choice() {
    let mut o = FileOptions::new();
    assert_eq!(o.get_line_ending_conversion(true), LineEndingConversion::Unchanged);
    o.convert_crlf_to_lf = true;
    assert_eq!(o.get_line_ending_conversion(true), LineEndingConversion::CrlfToLf);
    o.convert_lf_to_crlf = true;
    assert_eq!(o.get_line_ending_conversion(true), LineEndingConversion::LfToCrlf);
    assert_eq!(o.get_line_ending_conversion(false), LineEndingConversion::Unchanged);
}

#[test]
fn file_info_suffix_and_attributes() {
    let mut o = FileOptions::new();
    let info = FileInfo {
        dos_time: 0x6000,
        dos_date: 0x58A1,
        unix_mtime: 0x6632_1234,
        mode: 0o100644,
        is_dir: false,
        is_file: true,
        extension: Some("zip".to_string()),
        size: 5000,
        crc32: 0xDEAD_BEEF,
    };
    o.set_file_info(&info);
    assert_eq!(o.compression_method, CompressionMethod::Stored);
    assert_eq!(o.compression_level, 0);
    assert_eq!(o.external_attr, (0o100644 << 16) | 0x20);
    assert_eq!(o.modification_time, Some((0x6000, 0x58A1)));
    assert_eq!(o.extra_field, vec![0x55, 0x54, 5, 0, 1, 0x34, 0x12, 0x32, 0x66]);
    assert_eq!(o.uncompress_size, 5000);
    assert_eq!(o.crc32, 0xDEAD_BEEF);

    let mut o = FileOptions::new();
    let info = FileInfo { extension: Some("txt".to_string()), ..info };
    o.set_file_info(&info);
    assert_eq!(o.compression_method, CompressionMethod::Deflated);
    assert_eq!(o.compression_level, 2);
}

#[test]
fn line_ending_translation() {
    assert_eq!(translate_line_endings(b"a\nb\n", LineEndingConversion::LfToCrlf), b"a\r\nb\r\n".to_vec());
    assert_eq!(translate_line_endings(b"a\r\nb\rc\r\n", LineEndingConversion::CrlfToLf), b"a\nb\rc\n".to_vec());
    assert_eq!(translate_line_endings(b"a\r\n", LineEndingConversion::Unchanged), b"a\r\n".to_vec());
    assert!(looks_like_text(b"plain text\n"));
    assert!(!looks_like_text(b"bin\0ary"));
}

#[test]
fn extended_timestamp_payloads() {
    let field = utzip::options::ut_extra_field(0x1122_3344);
    assert_eq!(utzip::options::parse_ut_times(&field[4..]), Some((0x1122_3344, None, None)));
    let full = [7u8, 1, 0, 0, 0, 2, 0, 0, 0, 3, 0, 0, 0];
    assert_eq!(utzip::options::parse_ut_times(&full), Some((1, Some(2), Some(3))));
    assert_eq!(utzip::options::parse_ut_times(&[5u8, 1, 0, 0, 0, 3, 0, 0, 0]), Some((1, None, Some(3))));
    assert_eq!(utzip::options::parse_ut_times(&[2u8, 1, 0, 0, 0]), None);
    assert_eq!(utzip::options::parse_ut_times(&[7u8, 1, 0, 0, 0]), None);
}
