use utzip::datetime::{from_dos_time_date, parse_date, to_dos_time_date, CalendarDate};
use utzip::le::{push_u16, push_u32, push_u64, read_u16, read_u32, read_u64};
use utzip::zip::{
    entry_count_slot, CentralDirectoryHeader, CompressionMethod, Zip64ExtendedInfo,
    VERSION_MADE, VERSION_NEEDED, VERSION_NEEDED_ZIP64,
};

#[test]
fn little_endian_round_trip() {
    let mut v = Vec::new();
    push_u16(&mut v, 0xBEEF);
    push_u32(&mut v, 0x04034b50);
    push_u64(&mut v, 0x0102_0304_0506_0708);
    assert_eq!(&v[0..6], &[0xEF, 0xBE, 0x50, 0x4B, 0x03, 0x04]);
    assert_eq!(read_u16(&v, 0), 0xBEEF);
    assert_eq!(read_u32(&v, 2), 0x04034b50);
    assert_eq!(read_u64(&v, 6), 0x0102_0304_0506_0708);
}

#[test]
fn compression_method_codes() {
    assert_eq!(CompressionMethod::Deflated.to_le_bytes(), [8, 0]);
    assert_eq!(CompressionMethod::Bzip2.to_le_bytes(), [12, 0]);
    assert_eq!(CompressionMethod::from(0), CompressionMethod::Stored);
    assert_eq!(CompressionMethod::from(8), CompressionMethod::Deflated);
    assert_eq!(CompressionMethod::from(12), CompressionMethod::Bzip2);
    assert_eq!(CompressionMethod::from(99), CompressionMethod::Stored);
    assert_eq!(CompressionMethod::Bzip2.name(), "bzipped");
}

#[test]
fn zip64_info_bytes_selected_and_all() {
    let info = Zip64ExtendedInfo {
        uncompressed_size: Some(0x1_0000_0000),
        compressed_size: Some(5),
        local_header_offset: Some(7),
        disk_start_number: None,
    };
    assert_eq!(info.to_bytes(true, false, false), vec![0, 0, 0, 0, 1, 0, 0, 0]);
    assert_eq!(info.to_bytes(false, false, true), vec![7, 0, 0, 0, 0, 0, 0, 0]);
    assert_eq!(info.to_bytes_compat().len(), 24);
    let back = Zip64ExtendedInfo::from_bytes(&info.to_bytes_compat(), true, true, true, false).unwrap();
    assert_eq!(back.uncompressed_size, Some(0x1_0000_0000));
    assert_eq!(back.compressed_size, Some(5));
    assert_eq!(back.local_header_offset, Some(7));
    assert_eq!(back.disk_start_number, None);
    let lone = Zip64ExtendedInfo::from_bytes(&info.to_bytes(false, true, false), false, true, false, false).unwrap();
    assert_eq!(lone.uncompressed_size, None);
    assert_eq!(lone.compressed_size, Some(5));
    let empty = Zip64ExtendedInfo::new();
    assert!(empty.to_bytes(true, true, true).is_empty());
}

#[test]
fn zip64_selected_parse_follows_slots() {
    let info = Zip64ExtendedInfo {
        uncompressed_size: None,
        compressed_size: Some(0x1_2345_6789),
        local_header_offset: Some(0x2_0000_0000),
        disk_start_number: None,
    };
    let bytes = info.to_bytes(false, true, true);
    let parsed = Zip64ExtendedInfo::from_bytes(&bytes, false, true, true, false).unwrap();
    assert_eq!(parsed.uncompressed_size, None);
    assert_eq!(parsed.compressed_size, Some(0x1_2345_6789));
    assert_eq!(parsed.local_header_offset, Some(0x2_0000_0000));
    assert!(Zip64ExtendedInfo::from_bytes(&bytes[..8], false, true, true, false).is_none());
}

#[test]
fn zip64_threshold_promotes_both_sizes() {
    let mut h = CentralDirectoryHeader::new();
    assert_eq!(h.version_made, VERSION_MADE);
    assert_eq!(h.version_needed, VERSION_NEEDED);
    h.set_sizes(4_294_967_296, 4_294_967_296, 0);
    assert_eq!(h.uncompressed_size, 0xFFFF_FFFF);
    assert_eq!(h.compressed_size, 0xFFFF_FFFF);
    assert_eq!(h.local_header_offset, 0);
    assert_eq!(h.version_needed, VERSION_NEEDED_ZIP64);
    assert!(h.needs_zip64());
    assert_eq!(h.get_uncompressed_size(), 4_294_967_296);
    assert_eq!(h.get_compressed_size(), 4_294_967_296);
    assert_eq!(h.get_local_header_offset(), 0);
    let field = h.zip64_extra_field();
    assert_eq!(
        field,
        vec![1, 0, 16, 0, 0, 0, 0, 0, 1, 0, 0, 0, 0, 0, 0, 0, 1, 0, 0, 0]
    );
}

#[test]
fn small_sizes_stay_in_slots() {
    let mut h = CentralDirectoryHeader::new();
    h.set_sizes(100, 50, 1234);
    assert_eq!(h.uncompressed_size, 100);
    assert_eq!(h.compressed_size, 50);
    assert_eq!(h.local_header_offset, 1234);
    assert!(h.zip64_extended_info.is_none());
    assert!(h.zip64_extra_field().is_empty());
    assert!(!h.needs_zip64());
}

#[test]
fn entry_count_sentinel() {
    assert_eq!(entry_count_slot(10), 10);
    assert_eq!(entry_count_slot(0xFFFE), 0xFFFE);
    assert_eq!(entry_count_slot(0xFFFF), 0xFFFF);
    assert_eq!(entry_count_slot(70000), 0xFFFF);
}

#[test]
fn dos_time_date_encoding() {
    let (t, d) = to_dos_time_date(2024, 5, 1, 12, 0, 0);
    assert_eq!(t, 12 << 11);
    assert_eq!(d, ((2024 - 1980) << 9) | (5 << 5) | 1);
    let (t, _) = to_dos_time_date(2024, 5, 2, 9, 30, 59);
    assert_eq!(t, (9 << 11) | (30 << 5) | 29);
    assert_eq!(to_dos_time_date(1975, 6, 15, 10, 10, 10), (0, 0x21));
    let parts = from_dos_time_date((9 << 11) | (30 << 5) | 29, ((2024 - 1980) << 9) | (5 << 5) | 2);
    assert_eq!(parts.year, 2024);
    assert_eq!(parts.month, 5);
    assert_eq!(parts.day, 2);
    assert_eq!(parts.hour, 9);
    assert_eq!(parts.minute, 30);
    assert_eq!(parts.second, 58);
}

#[test]
fn date_arguments() {
    assert_eq!(parse_date("05012024"), Ok(CalendarDate { year: 2024, month: 5, day: 1 }));
    assert_eq!(parse_date("2024-05-01"), Ok(CalendarDate { year: 2024, month: 5, day: 1 }));
    assert!(parse_date("2024/05/01").is_err());
    assert!(parse_date("13012024").is_err());
    assert!(parse_date("2024").is_err());
}
