//! Byte layout of the ZIP records: local file header, central directory
//! header, end of central directory, and the ZIP64 end record and locator.
use crate::le::{get_u16, get_u32, lemma_u16_le, lemma_u32_le, push_bytes, push_u16, push_u32, push_u64, u16_le, u32_le, u64_le};
use vstd::prelude::*;

verus! {

pub const LOCAL_HEADER_SIG: u32 = 0x04034b50;

pub const DATA_DESCRIPTOR_SIG: u32 = 0x08074b50;

pub const CENTRAL_HEADER_SIG: u32 = 0x02014b50;

pub const END_OF_CENTRAL_DIR_SIG: u32 = 0x06054b50;

pub const ZIP64_END_OF_CENTRAL_DIR_SIG: u32 = 0x06064b50;

pub const ZIP64_LOCATOR_SIG: u32 = 0x07064b50;

pub const LOCAL_HEADER_LEN: usize = 30;

pub const CENTRAL_HEADER_LEN: usize = 46;

pub const END_OF_CENTRAL_DIR_LEN: usize = 22;

/// The fixed part of a local file header followed by name and extra field.
pub open spec fn local_header_spec(
    version_needed: u16,
    flags: u16,
    method: u16,
    time: u16,
    date: u16,
    crc: u32,
    compressed: u32,
    uncompressed: u32,
    name: Seq<u8>,
    extra: Seq<u8>,
) -> Seq<u8> {
    u32_le(LOCAL_HEADER_SIG) + u16_le(version_needed) + u16_le(flags) + u16_le(method) + u16_le(time)
        + u16_le(date) + u32_le(crc) + u32_le(compressed) + u32_le(uncompressed) + u16_le(
        name.len() as u16,
    ) + u16_le(extra.len() as u16) + name + extra
}

pub fn local_header(
    version_needed: u16,
    flags: u16,
    method: u16,
    time: u16,
    date: u16,
    crc: u32,
    compressed: u32,
    uncompressed: u32,
    name: &[u8],
    extra: &[u8],
) -> (r: Vec<u8>)
    requires
        name@.len() <= 0xFFFF,
        extra@.len() <= 0xFFFF,
    ensures
        r@ == local_header_spec(version_needed, flags, method, time, date, crc, compressed, uncompressed, name@, extra@),
{
    let mut v: Vec<u8> = Vec::new();
    push_u32(&mut v, LOCAL_HEADER_SIG);
    push_u16(&mut v, version_needed);
    push_u16(&mut v, flags);
    push_u16(&mut v, method);
    push_u16(&mut v, time);
    push_u16(&mut v, date);
    push_u32(&mut v, crc);
    push_u32(&mut v, compressed);
    push_u32(&mut v, uncompressed);
    push_u16(&mut v, name.len() as u16);
    push_u16(&mut v, extra.len() as u16);
    push_bytes(&mut v, name);
    push_bytes(&mut v, extra);
    v
}

pub proof fn lemma_local_header_fields(
    version_needed: u16,
    flags: u16,
    method: u16,
    time: u16,
    date: u16,
    crc: u32,
    compressed: u32,
    uncompressed: u32,
    name: Seq<u8>,
    extra: Seq<u8>,
)
    requires
        name.len() <= 0xFFFF,
        extra.len() <= 0xFFFF,
    ensures
        ({
            let s = local_header_spec(version_needed, flags, method, time, date, crc, compressed, uncompressed, name, extra);
            &&& s.len() == 30 + name.len() + extra.len()
            &&& get_u32(s, 0) == LOCAL_HEADER_SIG
            &&& get_u16(s, 4) == version_needed
            &&& get_u16(s, 6) == flags
            &&& get_u16(s, 8) == method
            &&& get_u16(s, 10) == time
            &&& get_u16(s, 12) == date
            &&& get_u32(s, 14) == crc
            &&& get_u32(s, 18) == compressed
            &&& get_u32(s, 22) == uncompressed
            &&& get_u16(s, 26) == name.len()
            &&& get_u16(s, 28) == extra.len()
            &&& s.subrange(30, 30 + name.len() as int) == name
            &&& s.subrange(30 + name.len() as int, 30 + name.len() + extra.len() as int) == extra
        }),
{
    let s = local_header_spec(version_needed, flags, method, time, date, crc, compressed, uncompressed, name, extra);
    assert(s.subrange(0, 4) =~= u32_le(LOCAL_HEADER_SIG));
    lemma_u32_le(s, 0, LOCAL_HEADER_SIG);
    assert(s.subrange(4, 6) =~= u16_le(version_needed));
    lemma_u16_le(s, 4, version_needed);
    assert(s.subrange(6, 8) =~= u16_le(flags));
    lemma_u16_le(s, 6, flags);
    assert(s.subrange(8, 10) =~= u16_le(method));
    lemma_u16_le(s, 8, method);
    assert(s.subrange(10, 12) =~= u16_le(time));
    lemma_u16_le(s, 10, time);
    assert(s.subrange(12, 14) =~= u16_le(date));
    lemma_u16_le(s, 12, date);
    assert(s.subrange(14, 18) =~= u32_le(crc));
    lemma_u32_le(s, 14, crc);
    assert(s.subrange(18, 22) =~= u32_le(compressed));
    lemma_u32_le(s, 18, compressed);
    assert(s.subrange(22, 26) =~= u32_le(uncompressed));
    lemma_u32_le(s, 22, uncompressed);
    assert(s.subrange(26, 28) =~= u16_le(name.len() as u16));
    lemma_u16_le(s, 26, name.len() as u16);
    assert(s.subrange(28, 30) =~= u16_le(extra.len() as u16));
    lemma_u16_le(s, 28, extra.len() as u16);
    assert(s.subrange(30, 30 + name.len() as int) =~= name);
    assert(s.subrange(30 + name.len() as int, 30 + name.len() + extra.len() as int) =~= extra);
}

/// The data descriptor after an entry's data: optional signature, CRC-32,
/// then both sizes in eight bytes each for a ZIP64 entry, else in four.
pub open spec fn data_descriptor_spec(crc: u32, compressed: u64, uncompressed: u64, signature: bool) -> Seq<u8> {
    (if signature { u32_le(DATA_DESCRIPTOR_SIG) } else { Seq::empty() }) + u32_le(crc) + if uncompressed
        > 0xFFFF_FFFF {
        u64_le(compressed) + u64_le(uncompressed)
    } else {
        u32_le(compressed as u32) + u32_le(uncompressed as u32)
    }
}

pub fn data_descriptor(crc: u32, compressed: u64, uncompressed: u64, signature: bool) -> (r: Vec<u8>)
    requires
        uncompressed <= 0xFFFF_FFFF ==> compressed <= 0xFFFF_FFFF,
    ensures
        r@ == data_descriptor_spec(crc, compressed, uncompressed, signature),
{
    let mut v: Vec<u8> = Vec::new();
    if signature {
        push_u32(&mut v, DATA_DESCRIPTOR_SIG);
    }
    push_u32(&mut v, crc);
    if uncompressed > 0xFFFF_FFFF {
        push_u64(&mut v, compressed);
        push_u64(&mut v, uncompressed);
    } else {
        push_u32(&mut v, compressed as u32);
        push_u32(&mut v, uncompressed as u32);
    }
    assert(v@ =~= data_descriptor_spec(crc, compressed, uncompressed, signature));
    v
}

/// The field values of a central directory header record.
pub struct CentralFields {
    pub version_made: u16,
    pub version_needed: u16,
    pub flags: u16,
    pub method: u16,
    pub time: u16,
    pub date: u16,
    pub crc: u32,
    pub compressed: u32,
    pub uncompressed: u32,
    pub disk: u16,
    pub internal_attr: u16,
    pub external_attr: u32,
    pub offset: u32,
}

pub open spec fn central_header_spec(f: CentralFields, name: Seq<u8>, extra: Seq<u8>, comment: Seq<u8>) -> Seq<u8> {
    u32_le(CENTRAL_HEADER_SIG) + u16_le(f.version_made) + u16_le(f.version_needed) + u16_le(f.flags)
        + u16_le(f.method) + u16_le(f.time) + u16_le(f.date) + u32_le(f.crc) + u32_le(f.compressed)
        + u32_le(f.uncompressed) + u16_le(name.len() as u16) + u16_le(extra.len() as u16) + u16_le(
        comment.len() as u16,
    ) + u16_le(f.disk) + u16_le(f.internal_attr) + u32_le(f.external_attr) + u32_le(f.offset) + name
        + extra + comment
}

pub fn central_header(f: &CentralFields, name: &[u8], extra: &[u8], comment: &[u8]) -> (r: Vec<u8>)
    requires
        name@.len() <= 0xFFFF,
        extra@.len() <= 0xFFFF,
        comment@.len() <= 0xFFFF,
    ensures
        r@ == central_header_spec(*f, name@, extra@, comment@),
{
    let mut v: Vec<u8> = Vec::new();
    push_u32(&mut v, CENTRAL_HEADER_SIG);
    push_u16(&mut v, f.version_made);
    push_u16(&mut v, f.version_needed);
    push_u16(&mut v, f.flags);
    push_u16(&mut v, f.method);
    push_u16(&mut v, f.time);
    push_u16(&mut v, f.date);
    push_u32(&mut v, f.crc);
    push_u32(&mut v, f.compressed);
    push_u32(&mut v, f.uncompressed);
    push_u16(&mut v, name.len() as u16);
    push_u16(&mut v, extra.len() as u16);
    push_u16(&mut v, comment.len() as u16);
    push_u16(&mut v, f.disk);
    push_u16(&mut v, f.internal_attr);
    push_u32(&mut v, f.external_attr);
    push_u32(&mut v, f.offset);
    push_bytes(&mut v, name);
    push_bytes(&mut v, extra);
    push_bytes(&mut v, comment);
    v
}

#[verifier::rlimit(60)]
pub proof fn lemma_central_header_fields(f: CentralFields, name: Seq<u8>, extra: Seq<u8>, comment: Seq<u8>)
    requires
        name.len() <= 0xFFFF,
        extra.len() <= 0xFFFF,
        comment.len() <= 0xFFFF,
    ensures
        ({
            let s = central_header_spec(f, name, extra, comment);
            let n = name.len() as int;
            let e = extra.len() as int;
            &&& s.len() == 46 + name.len() + extra.len() + comment.len()
            &&& get_u32(s, 0) == CENTRAL_HEADER_SIG
            &&& get_u16(s, 4) == f.version_made
            &&& get_u16(s, 6) == f.version_needed
            &&& get_u16(s, 8) == f.flags
            &&& get_u16(s, 10) == f.method
            &&& get_u16(s, 12) == f.time
            &&& get_u16(s, 14) == f.date
            &&& get_u32(s, 16) == f.crc
            &&& get_u32(s, 20) == f.compressed
            &&& get_u32(s, 24) == f.uncompressed
            &&& get_u16(s, 28) == name.len()
            &&& get_u16(s, 30) == extra.len()
            &&& get_u16(s, 32) == comment.len()
            &&& get_u16(s, 34) == f.disk
            &&& get_u16(s, 36) == f.internal_attr
            &&& get_u32(s, 38) == f.external_attr
            &&& get_u32(s, 42) == f.offset
            &&& s.subrange(46, 46 + n) == name
            &&& s.subrange(46 + n, 46 + n + e) == extra
            &&& s.subrange(46 + n + e, s.len() as int) == comment
        }),
{
    let s = central_header_spec(f, name, extra, comment);
    let n = name.len() as int;
    let e = extra.len() as int;
    assert(s.subrange(0, 4) =~= u32_le(CENTRAL_HEADER_SIG));
    lemma_u32_le(s, 0, CENTRAL_HEADER_SIG);
    assert(s.subrange(4, 6) =~= u16_le(f.version_made));
    lemma_u16_le(s, 4, f.version_made);
    assert(s.subrange(6, 8) =~= u16_le(f.version_needed));
    lemma_u16_le(s, 6, f.version_needed);
    assert(s.subrange(8, 10) =~= u16_le(f.flags));
    lemma_u16_le(s, 8, f.flags);
    assert(s.subrange(10, 12) =~= u16_le(f.method));
    lemma_u16_le(s, 10, f.method);
    assert(s.subrange(12, 14) =~= u16_le(f.time));
    lemma_u16_le(s, 12, f.time);
    assert(s.subrange(14, 16) =~= u16_le(f.date));
    lemma_u16_le(s, 14, f.date);
    assert(s.subrange(16, 20) =~= u32_le(f.crc));
    lemma_u32_le(s, 16, f.crc);
    assert(s.subrange(20, 24) =~= u32_le(f.compressed));
    lemma_u32_le(s, 20, f.compressed);
    assert(s.subrange(24, 28) =~= u32_le(f.uncompressed));
    lemma_u32_le(s, 24, f.uncompressed);
    assert(s.subrange(28, 30) =~= u16_le(name.len() as u16));
    lemma_u16_le(s, 28, name.len() as u16);
    assert(s.subrange(30, 32) =~= u16_le(extra.len() as u16));
    lemma_u16_le(s, 30, extra.len() as u16);
    assert(s.subrange(32, 34) =~= u16_le(comment.len() as u16));
    lemma_u16_le(s, 32, comment.len() as u16);
    assert(s.subrange(34, 36) =~= u16_le(f.disk));
    lemma_u16_le(s, 34, f.disk);
    assert(s.subrange(36, 38) =~= u16_le(f.internal_attr));
    lemma_u16_le(s, 36, f.internal_attr);
    assert(s.subrange(38, 42) =~= u32_le(f.external_attr));
    lemma_u32_le(s, 38, f.external_attr);
    assert(s.subrange(42, 46) =~= u32_le(f.offset));
    lemma_u32_le(s, 42, f.offset);
    assert(s.subrange(46, 46 + n) =~= name);
    assert(s.subrange(46 + n, 46 + n + e) =~= extra);
    assert(s.subrange(46 + n + e, s.len() as int) =~= comment);
}

/// The end of central directory record of a single-volume archive.
pub open spec fn end_record_spec(count: u16, cd_size: u32, cd_offset: u32, comment: Seq<u8>) -> Seq<u8> {
    u32_le(END_OF_CENTRAL_DIR_SIG) + u16_le(0) + u16_le(0) + u16_le(count) + u16_le(count) + u32_le(
        cd_size,
    ) + u32_le(cd_offset) + u16_le(comment.len() as u16) + comment
}

pub fn end_record(count: u16, cd_size: u32, cd_offset: u32, comment: &[u8]) -> (r: Vec<u8>)
    requires
        comment@.len() <= 0xFFFF,
    ensures
        r@ == end_record_spec(count, cd_size, cd_offset, comment@),
{
    let mut v: Vec<u8> = Vec::new();
    push_u32(&mut v, END_OF_CENTRAL_DIR_SIG);
    push_u16(&mut v, 0);
    push_u16(&mut v, 0);
    push_u16(&mut v, count);
    push_u16(&mut v, count);
    push_u32(&mut v, cd_size);
    push_u32(&mut v, cd_offset);
    push_u16(&mut v, comment.len() as u16);
    push_bytes(&mut v, comment);
    v
}

pub proof fn lemma_end_record_fields(count: u16, cd_size: u32, cd_offset: u32, comment: Seq<u8>)
    requires
        comment.len() <= 0xFFFF,
    ensures
        ({
            let s = end_record_spec(count, cd_size, cd_offset, comment);
            &&& s.len() == 22 + comment.len()
            &&& get_u32(s, 0) == END_OF_CENTRAL_DIR_SIG
            &&& get_u16(s, 8) == count
            &&& get_u16(s, 10) == count
            &&& get_u32(s, 12) == cd_size
            &&& get_u32(s, 16) == cd_offset
            &&& get_u16(s, 20) == comment.len()
        }),
{
    let s = end_record_spec(count, cd_size, cd_offset, comment);
    assert(s.subrange(0, 4) =~= u32_le(END_OF_CENTRAL_DIR_SIG));
    lemma_u32_le(s, 0, END_OF_CENTRAL_DIR_SIG);
    assert(s.subrange(8, 10) =~= u16_le(count));
    lemma_u16_le(s, 8, count);
    assert(s.subrange(10, 12) =~= u16_le(count));
    lemma_u16_le(s, 10, count);
    assert(s.subrange(12, 16) =~= u32_le(cd_size));
    lemma_u32_le(s, 12, cd_size);
    assert(s.subrange(16, 20) =~= u32_le(cd_offset));
    lemma_u32_le(s, 16, cd_offset);
    assert(s.subrange(20, 22) =~= u16_le(comment.len() as u16));
    lemma_u16_le(s, 20, comment.len() as u16);
}

/// The ZIP64 end of central directory record (56 bytes).
pub open spec fn zip64_end_record_spec(count: u64, cd_size: u64, cd_offset: u64) -> Seq<u8> {
    u32_le(ZIP64_END_OF_CENTRAL_DIR_SIG) + u64_le(44) + u16_le(crate::zip::ZIP64_VERSION_MADE) + u16_le(
        crate::zip::VERSION_NEEDED_ZIP64,
    ) + u32_le(0) + u32_le(0) + u64_le(count) + u64_le(count) + u64_le(cd_size) + u64_le(cd_offset)
}

pub fn zip64_end_record(count: u64, cd_size: u64, cd_offset: u64) -> (r: Vec<u8>)
    ensures
        r@ == zip64_end_record_spec(count, cd_size, cd_offset),
        r@.len() == 56,
{
    let mut v: Vec<u8> = Vec::new();
    push_u32(&mut v, ZIP64_END_OF_CENTRAL_DIR_SIG);
    push_u64(&mut v, 44);
    push_u16(&mut v, crate::zip::ZIP64_VERSION_MADE);
    push_u16(&mut v, crate::zip::VERSION_NEEDED_ZIP64);
    push_u32(&mut v, 0);
    push_u32(&mut v, 0);
    push_u64(&mut v, count);
    push_u64(&mut v, count);
    push_u64(&mut v, cd_size);
    push_u64(&mut v, cd_offset);
    v
}

/// The ZIP64 end of central directory locator (20 bytes).
pub open spec fn zip64_locator_spec(record_offset: u64) -> Seq<u8> {
    u32_le(ZIP64_LOCATOR_SIG) + u32_le(0) + u64_le(record_offset) + u32_le(1)
}

pub fn zip64_locator(record_offset: u64) -> (r: Vec<u8>)
    ensures
        r@ == zip64_locator_spec(record_offset),
        r@.len() == 20,
{
    let mut v: Vec<u8> = Vec::new();
    push_u32(&mut v, ZIP64_LOCATOR_SIG);
    push_u32(&mut v, 0);
    push_u64(&mut v, record_offset);
    push_u32(&mut v, 1);
    v
}

} // verus!
