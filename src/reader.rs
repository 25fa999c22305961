//! Archive reader: locates the end of central directory record (and the
//! ZIP64 end record behind its sentinels), enumerates the central directory
//! and yields each entry's stored bytes or its whole local record.
use crate::error::ZipError;
use crate::le::{copy_range, get_u16, get_u32, get_u64, lemma_get_shift, lemma_get_shift_short, lemma_get_shift_u16, read_u16, read_u32, read_u64};
use crate::pipeline::{crc32_of, plain_payload};
use crate::records::{end_record_spec, lemma_central_header_fields, lemma_end_record_fields, lemma_local_header_fields, local_header_spec};
use crate::writer::{central_directory_spec, central_fields_of, central_record_spec, local_record_spec, local_zip64_spec, needs_zip64_end, tail_spec};
use crate::records::{
    CENTRAL_HEADER_SIG, DATA_DESCRIPTOR_SIG, END_OF_CENTRAL_DIR_SIG, LOCAL_HEADER_SIG, ZIP64_END_OF_CENTRAL_DIR_SIG,
    ZIP64_LOCATOR_SIG,
};
use crate::zipfile::ZipFile;
use crate::zip::{ArchiveFileInfo, promoted, slot32, zip64_info_for, zip64_parse, CentralDirectoryHeader, CompressionMethod, Zip64ExtendedInfo};
use vstd::prelude::*;

verus! {

/// How far from the end the end record may start: its 22 bytes and the
/// longest comment.
pub const MAX_END_SCAN: usize = 65557;

/// The last start of an end record signature at or below `c` and not below `lo`.
pub open spec fn end_from(a: Seq<u8>, c: int, lo: int) -> Option<int>
    decreases c + 1,
{
    if c < lo || c < 0 || c + 4 > a.len() {
        None
    } else if get_u32(a, c) == END_OF_CENTRAL_DIR_SIG {
        Some(c)
    } else {
        end_from(a, c - 1, lo)
    }
}

/// Where the end of central directory record starts: the last signature
/// among the final 65,557 bytes that leaves room for the 22-byte record.
pub open spec fn end_pos(a: Seq<u8>) -> Option<int> {
    if a.len() < 22 {
        None
    } else {
        end_from(a, a.len() - 22, if a.len() > MAX_END_SCAN { a.len() - MAX_END_SCAN } else { 0 })
    }
}

pub fn find_end_record(a: &[u8]) -> (r: Option<usize>)
    ensures
        r matches Some(p) ==> end_pos(a@) == Some(p as int) && p + 22 <= a@.len(),
        r is None <==> end_pos(a@) is None,
{
    let n = a.len();
    if n < 22 {
        return None;
    }
    let lo: usize = if n > MAX_END_SCAN { n - MAX_END_SCAN } else { 0 };
    let mut c: usize = n - 22;
    loop
        invariant
            lo <= c + 1,
            c <= n - 22,
            n == a@.len(),
            n >= 22,
            end_pos(a@) == end_from(a@, c as int, lo as int),
        decreases c + 1,
    {
        if c < lo {
            return None;
        }
        if read_u32(a, c) == END_OF_CENTRAL_DIR_SIG {
            return Some(c);
        }
        if c == 0 {
            assert(end_from(a@, -1, lo as int) is None);
            return None;
        }
        c = c - 1;
    }
}

/// Where the extra field holds the block with `tag`: the start and length
/// of its data.
pub open spec fn find_block(e: Seq<u8>, pos: int, tag: u16) -> Option<(int, int)>
    decreases e.len() - pos,
{
    if pos < 0 || pos + 4 > e.len() {
        None
    } else {
        let t = get_u16(e, pos);
        let l = get_u16(e, pos + 2) as int;
        if pos + 4 + l > e.len() {
            None
        } else if t == tag {
            Some((pos + 4, l))
        } else {
            find_block(e, pos + 4 + l, tag)
        }
    }
}

fn find_block_exec(e: &[u8], tag: u16) -> (r: Option<(usize, usize)>)
    ensures
        r matches Some((s, l)) ==> find_block(e@, 0, tag) == Some((s as int, l as int)) && s + l <= e@.len(),
        r is None <==> find_block(e@, 0, tag) is None,
{
    let n = e.len();
    let mut pos: usize = 0;
    while pos <= n && n - pos >= 4
        invariant
            n == e@.len(),
            pos <= n,
            find_block(e@, 0, tag) == find_block(e@, pos as int, tag),
        decreases n - pos,
    {
        let t = read_u16(e, pos);
        let l = read_u16(e, pos + 2) as usize;
        if n - pos - 4 < l {
            return None;
        }
        if t == tag {
            return Some((pos + 4, l));
        }
        pos = pos + 4 + l;
    }
    None
}

/// The ZIP64 values that an extra field holds for the slots that carry
/// their sentinels.
pub open spec fn zip64_of_extra(e: Seq<u8>, u: u32, c: u32, o: u32, d: u16) -> Option<Zip64ExtendedInfo> {
    match find_block(e, 0, 1) {
        Some((s, l)) => zip64_parse(e.subrange(s, s + l), u == 0xFFFF_FFFF, c == 0xFFFF_FFFF, o == 0xFFFF_FFFF, d == 0xFFFF),
        None => None,
    }
}

/// Whether a whole central directory record starts at `p`.
pub open spec fn central_ok(a: Seq<u8>, p: int) -> bool {
    &&& 0 <= p
    &&& p + 46 <= a.len()
    &&& get_u32(a, p) == CENTRAL_HEADER_SIG
    &&& p + 46 + get_u16(a, p + 28) + get_u16(a, p + 30) + get_u16(a, p + 32) <= a.len()
}

/// Where the record after the one at `p` starts.
pub open spec fn central_next(a: Seq<u8>, p: int) -> int {
    p + 46 + get_u16(a, p + 28) + get_u16(a, p + 30) + get_u16(a, p + 32)
}

/// Whether `h` holds what the record at `p` says; the extra field is kept as
/// stored, and the ZIP64 values are read from it.
pub open spec fn header_matches(a: Seq<u8>, p: int, h: CentralDirectoryHeader) -> bool {
    let n = get_u16(a, p + 28) as int;
    let e = get_u16(a, p + 30) as int;
    let c = get_u16(a, p + 32) as int;
    &&& h.version_made == get_u16(a, p + 4)
    &&& h.version_needed == get_u16(a, p + 6)
    &&& h.flags == get_u16(a, p + 8)
    &&& h.compression == CompressionMethod::from_code(get_u16(a, p + 10))
    &&& h.mod_time == get_u16(a, p + 12)
    &&& h.mod_date == get_u16(a, p + 14)
    &&& h.crc32 == get_u32(a, p + 16)
    &&& h.compressed_size == get_u32(a, p + 20)
    &&& h.uncompressed_size == get_u32(a, p + 24)
    &&& h.disk_num == get_u16(a, p + 34)
    &&& h.internal_attr == get_u16(a, p + 36)
    &&& h.external_attr == get_u32(a, p + 38)
    &&& h.local_header_offset == get_u32(a, p + 42)
    &&& h.filename@ == a.subrange(p + 46, p + 46 + n)
    &&& h.extra_field@ == a.subrange(p + 46 + n, p + 46 + n + e)
    &&& h.file_comment@ == a.subrange(p + 46 + n + e, p + 46 + n + e + c)
    &&& h.zip64_extended_info == zip64_of_extra(
        h.extra_field@,
        h.uncompressed_size,
        h.compressed_size,
        h.local_header_offset,
        h.disk_num,
    )
}

/// Reads the central directory record at `p`, and where the next one starts.
pub fn read_central_header(a: &[u8], p: usize) -> (r: Option<(CentralDirectoryHeader, usize)>)
    ensures
        r is Some <==> central_ok(a@, p as int),
        r matches Some((h, next)) ==> header_matches(a@, p as int, h) && next == central_next(a@, p as int),
{
    let len = a.len();
    if p > len || len - p < 46 {
        return None;
    }
    if read_u32(a, p) != CENTRAL_HEADER_SIG {
        return None;
    }
    let n = read_u16(a, p + 28) as usize;
    let e = read_u16(a, p + 30) as usize;
    let c = read_u16(a, p + 32) as usize;
    if len - p - 46 < n + e + c {
        return None;
    }
    let s = p + 46;
    let filename = copy_range(a, s, s + n);
    let extra_field = copy_range(a, s + n, s + n + e);
    let file_comment = copy_range(a, s + n + e, s + n + e + c);
    let uncompressed_size = read_u32(a, p + 24);
    let compressed_size = read_u32(a, p + 20);
    let local_header_offset = read_u32(a, p + 42);
    let disk_num = read_u16(a, p + 34);
    let zip64_extended_info = match find_block_exec(extra_field.as_slice(), 1) {
        Some((bs, bl)) => {
            let block = copy_range(extra_field.as_slice(), bs, bs + bl);
            Zip64ExtendedInfo::from_bytes(
                block.as_slice(),
                uncompressed_size == 0xFFFF_FFFF,
                compressed_size == 0xFFFF_FFFF,
                local_header_offset == 0xFFFF_FFFF,
                disk_num == 0xFFFF,
            )
        },
        None => None,
    };
    let h = CentralDirectoryHeader {
        version_made: read_u16(a, p + 4),
        version_needed: read_u16(a, p + 6),
        flags: read_u16(a, p + 8),
        compression: CompressionMethod::from(read_u16(a, p + 10)),
        mod_time: read_u16(a, p + 12),
        mod_date: read_u16(a, p + 14),
        crc32: read_u32(a, p + 16),
        compressed_size,
        uncompressed_size,
        filename,
        extra_field,
        file_comment,
        disk_num,
        internal_attr: read_u16(a, p + 36),
        external_attr: read_u32(a, p + 38),
        local_header_offset,
        zip64_extended_info,
    };
    Some((h, s + n + e + c))
}

/// Where the central directory starts and how many records it holds: the
/// end record's values, or, where one of them holds its sentinel, those of
/// the ZIP64 end record that the locator before the end record points to.
pub open spec fn directory_spec(a: Seq<u8>) -> Option<(int, int)> {
    match end_pos(a) {
        None => None,
        Some(p) => {
            let count = get_u16(a, p + 10);
            let size = get_u32(a, p + 12);
            let off = get_u32(a, p + 16);
            if count == 0xFFFF || size == 0xFFFF_FFFF || off == 0xFFFF_FFFF {
                if p >= 20 && get_u32(a, p - 20) == ZIP64_LOCATOR_SIG {
                    let z = get_u64(a, p - 12) as int;
                    if z + 56 <= a.len() && get_u32(a, z) == ZIP64_END_OF_CENTRAL_DIR_SIG {
                        Some((get_u64(a, z + 48) as int, get_u64(a, z + 32) as int))
                    } else {
                        None
                    }
                } else {
                    None
                }
            } else {
                Some((off as int, count as int))
            }
        },
    }
}

/// Whether `k` whole records follow one another from `p`.
pub open spec fn records_ok(a: Seq<u8>, p: int, k: nat) -> bool
    decreases k,
{
    if k == 0 {
        true
    } else {
        central_ok(a, p) && records_ok(a, central_next(a, p), (k - 1) as nat)
    }
}

/// Where the `i`-th record from `p` starts.
pub open spec fn record_pos(a: Seq<u8>, p: int, i: nat) -> int
    decreases i,
{
    if i == 0 {
        p
    } else {
        record_pos(a, central_next(a, p), (i - 1) as nat)
    }
}

proof fn lemma_records_step(a: Seq<u8>, p: int, i: nat, k: nat)
    requires
        i < k,
        records_ok(a, p, k),
    ensures
        central_ok(a, record_pos(a, p, i)),
        record_pos(a, p, i + 1) == central_next(a, record_pos(a, p, i)),
    decreases i,
{
    assert(record_pos(a, p, i + 1) == record_pos(a, central_next(a, p), i));
    if i > 0 {
        lemma_records_step(a, central_next(a, p), (i - 1) as nat, (k - 1) as nat);
        assert(record_pos(a, p, i) == record_pos(a, central_next(a, p), (i - 1) as nat));
        assert(((i - 1) as nat + 1) as nat == i);
    } else {
        assert(record_pos(a, central_next(a, p), 0) == central_next(a, p));
    }
}

proof fn lemma_records_prefix(a: Seq<u8>, p: int, i: nat)
    requires
        records_ok(a, p, i),
        central_ok(a, record_pos(a, p, i)),
    ensures
        records_ok(a, p, i + 1),
    decreases i,
{
    if i > 0 {
        assert(record_pos(a, p, i) == record_pos(a, central_next(a, p), (i - 1) as nat));
        lemma_records_prefix(a, central_next(a, p), (i - 1) as nat);
        assert(((i - 1) as nat + 1) as nat == i);
        assert(records_ok(a, p, i + 1) == (central_ok(a, p) && records_ok(a, central_next(a, p), i)));
    } else {
        assert(records_ok(a, central_next(a, p), 0));
        assert(records_ok(a, p, 1) == (central_ok(a, p) && records_ok(a, central_next(a, p), 0)));
    }
}

proof fn lemma_records_fail(a: Seq<u8>, p: int, i: nat, k: nat)
    requires
        i < k,
        !central_ok(a, record_pos(a, p, i)),
    ensures
        !records_ok(a, p, k),
    decreases i,
{
    if i > 0 {
        assert(record_pos(a, p, i) == record_pos(a, central_next(a, p), (i - 1) as nat));
        lemma_records_fail(a, central_next(a, p), (i - 1) as nat, (k - 1) as nat);
    }
}

fn read_directory_location(a: &[u8]) -> (r: Option<(u64, u64)>)
    ensures
        r matches Some((off, count)) ==> directory_spec(a@) == Some((off as int, count as int)),
        r is None <==> directory_spec(a@) is None,
{
    let p = match find_end_record(a) {
        Some(p) => p,
        None => {
            return None;
        },
    };
    // Taking the length bounds it by usize::MAX for the index arithmetic below.
    let _len = a.len();
    let count = read_u16(a, p + 10);
    let size = read_u32(a, p + 12);
    let off = read_u32(a, p + 16);
    if count == 0xFFFF || size == 0xFFFF_FFFF || off == 0xFFFF_FFFF {
        if p >= 20 && read_u32(a, p - 20) == ZIP64_LOCATOR_SIG {
            let z = read_u64(a, p - 12);
            if z <= a.len() as u64 && a.len() as u64 - z >= 56 && read_u32(a, z as usize)
                == ZIP64_END_OF_CENTRAL_DIR_SIG {
                let zz = z as usize;
                Some((read_u64(a, zz + 48), read_u64(a, zz + 32)))
            } else {
                None
            }
        } else {
            None
        }
    } else {
        Some((off as u64, count as u64))
    }
}

/// Reads the central directory: one header per record, in order.
pub fn read_archive(a: &[u8]) -> (r: Result<Vec<CentralDirectoryHeader>, ZipError>)
    ensures
        r is Ok <==> (directory_spec(a@) matches Some((off, n)) && records_ok(a@, off, n as nat)),
        r matches Err(e) ==> e matches ZipError::InvalidArchive(_),
        r matches Ok(hs) ==> (directory_spec(a@) matches Some((off, n)) && hs@.len() == n && forall|i: int|
            0 <= i < n ==> header_matches(a@, record_pos(a@, off, i as nat), #[trigger] hs@[i])),
{
    let (off, count) = match read_directory_location(a) {
        Some(x) => x,
        None => {
            return Err(ZipError::InvalidArchive("end of central directory not found".to_string()));
        },
    };
    let ghost offi = off as int;
    let ghost n = count as int;
    if off > a.len() as u64 {
        proof {
            if n > 0 {
                lemma_records_fail(a@, offi, 0, n as nat);
            }
        }
        if count > 0 {
            return Err(ZipError::InvalidArchive("central directory out of range".to_string()));
        }
    }
    let mut hs: Vec<CentralDirectoryHeader> = Vec::new();
    let mut pos: usize = if off > a.len() as u64 { 0 } else { off as usize };
    let mut i: u64 = 0;
    while i < count
        invariant
            0 <= i <= count,
            n == count,
            offi == off,
            directory_spec(a@) == Some((offi, n)),
            count > 0 ==> pos as int == record_pos(a@, offi, i as nat),
            records_ok(a@, offi, i as nat),
            hs@.len() == i,
            forall|j: int| 0 <= j < i ==> header_matches(a@, record_pos(a@, offi, j as nat), #[trigger] hs@[j]),
        decreases count - i,
    {
        match read_central_header(a, pos) {
            Some((h, next)) => {
                proof {
                    lemma_records_prefix(a@, offi, i as nat);
                    lemma_records_step(a@, offi, i as nat, (i + 1) as nat);
                }
                hs.push(h);
                pos = next;
                i = i + 1;
            },
            None => {
                proof {
                    assert(count > 0);
                    assert(!central_ok(a@, record_pos(a@, offi, i as nat)));
                    lemma_records_fail(a@, offi, i as nat, n as nat);
                    assert(!records_ok(a@, offi, n as nat));
                    assert(directory_spec(a@) == Some((offi, n)));
                }
                return Err(ZipError::InvalidArchive("bad central directory record".to_string()));
            },
        }
    }
    Ok(hs)
}

/// Reads the end records: the 32-bit values, the comment (cut at the end of
/// the file), and the ZIP64 end record's values where the locator leads to one.
pub fn read_end_info(a: &[u8]) -> (r: Option<ArchiveFileInfo>)
    ensures
        r is Some <==> end_pos(a@) is Some,
        r matches Some(info) ==> ({
            let p = end_pos(a@).unwrap();
            let cend = if p + 22 + get_u16(a@, p + 20) <= a@.len() {
                p + 22 + get_u16(a@, p + 20)
            } else {
                a@.len() as int
            };
            let z = get_u64(a@, p - 12) as int;
            let has64 = p >= 20 && get_u32(a@, p - 20) == ZIP64_LOCATOR_SIG && z + 56 <= a@.len()
                && get_u32(a@, z) == ZIP64_END_OF_CENTRAL_DIR_SIG;
            &&& info.num_entries == get_u16(a@, p + 10)
            &&& info.size == get_u32(a@, p + 12)
            &&& info.offset == get_u32(a@, p + 16)
            &&& info.comment@ == crate::zipfile::utf8_lossy_of(a@.subrange(p + 22, cend))
            &&& info.is_zip64 == has64
            &&& info.zip64_num_entries == (if has64 { Some(get_u64(a@, z + 32)) } else { None })
            &&& info.zip64_size == (if has64 { Some(get_u64(a@, z + 40)) } else { None })
            &&& info.zip64_offset == (if has64 { Some(get_u64(a@, z + 48)) } else { None })
        }),
{
    let p = match find_end_record(a) {
        Some(p) => p,
        None => {
            return None;
        },
    };
    let len = a.len();
    let clen = read_u16(a, p + 20) as usize;
    let cend = if len - p - 22 >= clen { p + 22 + clen } else { len };
    let comment_bytes = copy_range(a, p + 22, cend);
    let comment = crate::zipfile::lossy_text(comment_bytes.as_slice());
    let mut is_zip64 = false;
    let mut zn: Option<u64> = None;
    let mut zs: Option<u64> = None;
    let mut zo: Option<u64> = None;
    if p >= 20 && read_u32(a, p - 20) == ZIP64_LOCATOR_SIG {
        let z = read_u64(a, p - 12);
        if z <= len as u64 && len as u64 - z >= 56 && read_u32(a, z as usize) == ZIP64_END_OF_CENTRAL_DIR_SIG {
            let zz = z as usize;
            is_zip64 = true;
            zn = Some(read_u64(a, zz + 32));
            zs = Some(read_u64(a, zz + 40));
            zo = Some(read_u64(a, zz + 48));
        }
    }
    Some(
        ArchiveFileInfo {
            num_entries: read_u16(a, p + 10),
            size: read_u32(a, p + 12),
            offset: read_u32(a, p + 16),
            comment,
            is_zip64,
            zip64_num_entries: zn,
            zip64_size: zs,
            zip64_offset: zo,
        },
    )
}

/// An archive being read: its bytes, its central directory and end records.
pub struct ZipArchive {
    pub data: Vec<u8>,
    pub cd_headers: Vec<CentralDirectoryHeader>,
    pub archive_info: ArchiveFileInfo,
}

impl ZipArchive {
    /// Parses the archive in `data`.
    pub fn new(data: Vec<u8>) -> (r: Result<Self, ZipError>)
        ensures
            r is Ok <==> (directory_spec(data@) matches Some((off, n)) && records_ok(data@, off, n as nat)),
            r matches Err(e) ==> e matches ZipError::InvalidArchive(_),
            r matches Ok(z) ==> ({
                &&& z.data@ == data@
                &&& directory_spec(data@) matches Some((off, n))
                &&& z.cd_headers@.len() == n
                &&& forall|i: int|
                    0 <= i < n ==> header_matches(data@, record_pos(data@, off, i as nat), #[trigger] z.cd_headers@[i])
            }),
    {
        let cd_headers = match read_archive(data.as_slice()) {
            Ok(hs) => hs,
            Err(e) => {
                return Err(e);
            },
        };
        let archive_info = match read_end_info(data.as_slice()) {
            Some(info) => info,
            None => {
                return Err(ZipError::InvalidArchive("end of central directory not found".to_string()));
            },
        };
        Ok(ZipArchive { data, cd_headers, archive_info })
    }

    pub fn len(&self) -> (r: usize)
        ensures
            r == self.cd_headers@.len(),
    {
        self.cd_headers.len()
    }

    /// The `i`-th entry, with where its stored bytes lie.
    pub fn file(&self, i: usize) -> (r: Result<ZipFile, ZipError>)
        requires
            i < self.cd_headers@.len(),
        ensures
            ({
                let h = self.cd_headers@[i as int];
                &&& r is Ok <==> local_data_range(self.data@, h.offset_spec() as int, h.compressed_spec() as int) is Some
                &&& r matches Ok(f) ==> (local_data_range(self.data@, h.offset_spec() as int, h.compressed_spec() as int)
                    matches Some((s, t)) && f.data_start == s && f.data_end == t && f.header.crc32 == h.crc32
                    && f.header.filename@ == h.filename@ && f.header.compression == h.compression
                    && f.header.uncompressed_spec() == h.uncompressed_spec()
                    && f.header.compressed_spec() == h.compressed_spec())
                &&& r matches Err(e) ==> e matches ZipError::InvalidArchive(_)
            }),
    {
        let h = &self.cd_headers[i];
        let a = self.data.as_slice();
        let off = h.get_local_header_offset();
        let c = h.get_compressed_size();
        let len = a.len();
        if off > len as u64 || (len as u64) - off < 30 {
            return Err(ZipError::InvalidArchive("local header out of range".to_string()));
        }
        let o = off as usize;
        if read_u32(a, o) != LOCAL_HEADER_SIG {
            return Err(ZipError::InvalidArchive("bad local header".to_string()));
        }
        let n = read_u16(a, o + 26) as usize;
        let e = read_u16(a, o + 28) as usize;
        if len - o - 30 < n + e || ((len - o - 30 - n - e) as u64) < c {
            return Err(ZipError::InvalidArchive("entry data out of range".to_string()));
        }
        let s = (o + 30 + n + e) as u64;
        Ok(ZipFile::new(h.clone_header(), s, s + c))
    }
}

/// Where an entry's data starts and ends, when its local header at `off` is whole.
pub open spec fn local_data_range(a: Seq<u8>, off: int, compressed: int) -> Option<(int, int)> {
    if 0 <= off && off + 30 <= a.len() && get_u32(a, off) == LOCAL_HEADER_SIG {
        let s = off + 30 + get_u16(a, off + 26) + get_u16(a, off + 28);
        if s + compressed <= a.len() {
            Some((s, s + compressed))
        } else {
            None
        }
    } else {
        None
    }
}

/// The entry's stored bytes (compressed, and encrypted where it is), as the
/// local header at the header's offset introduces them.
pub fn entry_data(a: &[u8], h: &CentralDirectoryHeader) -> (r: Result<Vec<u8>, ZipError>)
    ensures
        r is Ok <==> local_data_range(a@, h.offset_spec() as int, h.compressed_spec() as int) is Some,
        r matches Ok(v) ==> (local_data_range(a@, h.offset_spec() as int, h.compressed_spec() as int) matches Some((s, t))
            && v@ == a@.subrange(s, t)),
        r matches Err(e) ==> e matches ZipError::InvalidArchive(_),
{
    let off = h.get_local_header_offset();
    let c = h.get_compressed_size();
    let len = a.len();
    if off > len as u64 || (len as u64) - off < 30 {
        return Err(ZipError::InvalidArchive("local header out of range".to_string()));
    }
    let o = off as usize;
    if read_u32(a, o) != LOCAL_HEADER_SIG {
        return Err(ZipError::InvalidArchive("bad local header".to_string()));
    }
    let n = read_u16(a, o + 26) as usize;
    let e = read_u16(a, o + 28) as usize;
    if len - o - 30 < n + e || ((len - o - 30 - n - e) as u64) < c {
        return Err(ZipError::InvalidArchive("entry data out of range".to_string()));
    }
    let s = o + 30 + n + e;
    Ok(copy_range(a, s, s + c as usize))
}

/// Length of the data descriptor after an entry's data: none without flag
/// bit 3, else an optional signature, the CRC and two sizes, eight bytes
/// each when `zip64` holds (the uncompressed size exceeds 0xFFFFFFFF, as for
/// `data_descriptor`), else four.
pub open spec fn descriptor_len(a: Seq<u8>, end: int, flags: u16, zip64: bool) -> int {
    if flags & 8 == 0 {
        0
    } else {
        (if end + 4 <= a.len() && get_u32(a, end) == DATA_DESCRIPTOR_SIG { 4int } else { 0int }) + 4 + (if zip64 {
            16int
        } else {
            8int
        })
    }
}

/// The byte span of an entry's local record: header, data, and descriptor.
pub open spec fn local_record_range(a: Seq<u8>, h: CentralDirectoryHeader) -> Option<(int, int)> {
    match local_data_range(a, h.offset_spec() as int, h.compressed_spec() as int) {
        Some((s, t)) => {
            let end = t + descriptor_len(a, t, h.flags, h.uncompressed_spec() > 0xFFFF_FFFF);
            if end <= a.len() {
                Some((h.offset_spec() as int, end))
            } else {
                None
            }
        },
        None => None,
    }
}

/// The span of an entry's local record, as raw copying takes it.
pub fn local_record_span(a: &[u8], h: &CentralDirectoryHeader) -> (r: Option<(usize, usize)>)
    ensures
        r is Some <==> local_record_range(a@, *h) is Some,
        r matches Some((s, t)) ==> local_record_range(a@, *h) == Some((s as int, t as int)),
{
    let off = h.get_local_header_offset();
    let c = h.get_compressed_size();
    let len = a.len();
    if off > len as u64 || (len as u64) - off < 30 {
        return None;
    }
    let o = off as usize;
    if read_u32(a, o) != LOCAL_HEADER_SIG {
        return None;
    }
    let n = read_u16(a, o + 26) as usize;
    let e = read_u16(a, o + 28) as usize;
    if len - o - 30 < n + e || ((len - o - 30 - n - e) as u64) < c {
        return None;
    }
    let t = o + 30 + n + e + c as usize;
    let dd: usize = if h.flags & 8 == 0 {
        0
    } else {
        let sig: usize = if len - t >= 4 && read_u32(a, t) == DATA_DESCRIPTOR_SIG { 4 } else { 0 };
        sig + 4 + if h.get_uncompressed_size() > 0xFFFF_FFFF { 16 } else { 8 }
    };
    if len - t < dd {
        return None;
    }
    Some((o, t + dd))
}

} // verus!

verus! {

proof fn lemma_cd_single(h: CentralDirectoryHeader)
    ensures
        central_directory_spec(seq![h]) == central_record_spec(h),
{
    assert(seq![h].drop_last() =~= Seq::<CentralDirectoryHeader>::empty());
    assert(central_directory_spec(Seq::<CentralDirectoryHeader>::empty()) == Seq::<u8>::empty());
    assert(Seq::<u8>::empty() + central_record_spec(h) =~= central_record_spec(h));
}

/// An end record without comment at the end of `x + end` is the one found.
proof fn lemma_end_part(x: Seq<u8>, count: u16, size: u32, off: u32)
    requires
        x.len() < 0xF000_0000,
    ensures
        ({
            let a = x + end_record_spec(count, size, off, Seq::empty());
            &&& a.len() == x.len() + 22
            &&& end_pos(a) == Some(x.len() as int)
            &&& get_u16(a, x.len() as int + 10) == count
            &&& get_u32(a, x.len() as int + 12) == size
            &&& get_u32(a, x.len() as int + 16) == off
        }),
{
    let end = end_record_spec(count, size, off, Seq::empty());
    lemma_end_record_fields(count, size, off, Seq::empty());
    let a = x + end;
    assert(x + end + Seq::<u8>::empty() =~= a);
    lemma_get_shift_short(x, end, Seq::empty(), 0);
    lemma_get_shift_short(x, end, Seq::empty(), 8);
    lemma_get_shift_short(x, end, Seq::empty(), 10);
    lemma_get_shift_short(x, end, Seq::empty(), 12);
    lemma_get_shift_short(x, end, Seq::empty(), 16);
}

/// A central record between `x` and `y` reads back.
#[verifier::rlimit(40)]
proof fn lemma_central_part(x: Seq<u8>, h: CentralDirectoryHeader, y: Seq<u8>)
    requires
        crate::writer::header_fits(h),
        h.zip64_extended_info.is_none(),
    ensures
        ({
            let cr = central_record_spec(h);
            let a = x + cr + y;
            let q = x.len() as int;
            let n = h.filename@.len() as int;
            &&& cr.len() <= 0x4_0000
            &&& central_ok(a, q)
            &&& central_next(a, q) == q + cr.len()
            &&& get_u16(a, q + 10) == h.compression.code()
            &&& get_u32(a, q + 16) == h.crc32
            &&& get_u32(a, q + 20) == h.compressed_size
            &&& get_u32(a, q + 24) == h.uncompressed_size
            &&& get_u32(a, q + 42) == h.local_header_offset
            &&& get_u16(a, q + 28) == n
            &&& a.subrange(q + 46, q + 46 + n) == h.filename@
        }),
{
    assert(h.zip64_field_spec() =~= Seq::<u8>::empty());
    let ext = h.zip64_field_spec() + h.extra_field@;
    assert(ext =~= h.extra_field@);
    let cr = central_record_spec(h);
    lemma_central_header_fields(central_fields_of(h), h.filename@, ext, h.file_comment@);
    let a = x + cr + y;
    lemma_get_shift(x, cr, y, 0);
    lemma_get_shift(x, cr, y, 10);
    lemma_get_shift(x, cr, y, 16);
    lemma_get_shift(x, cr, y, 20);
    lemma_get_shift(x, cr, y, 24);
    lemma_get_shift(x, cr, y, 28);
    lemma_get_shift(x, cr, y, 30);
    lemma_get_shift_short(x, cr, y, 32);
    lemma_get_shift_short(x, cr, y, 42);
    let q = x.len() as int;
    let n = h.filename@.len() as int;
    assert(a.subrange(q + 46, q + 46 + n) =~= cr.subrange(46, 46 + n));
}

/// A local header at the start of `lh + y` reads back.
proof fn lemma_local_part(h: CentralDirectoryHeader, u: u64, c: u64, y: Seq<u8>)
    requires
        crate::writer::header_fits(h),
        !promoted(u) && !promoted(c),
        c <= y.len(),
    ensures
        ({
            let lh = local_header_spec(h.version_needed, h.flags, h.compression.code(), h.mod_time, h.mod_date,
                h.crc32, c as u32, u as u32, h.filename@, h.extra_field@);
            let a = lh + y;
            &&& local_data_range(a, 0, c as int) == Some((lh.len() as int, lh.len() + c))
            &&& a.subrange(lh.len() as int, lh.len() + c) == y.subrange(0, c as int)
        }),
{
    let lh = local_header_spec(h.version_needed, h.flags, h.compression.code(), h.mod_time, h.mod_date,
        h.crc32, c as u32, u as u32, h.filename@, h.extra_field@);
    lemma_local_header_fields(h.version_needed, h.flags, h.compression.code(), h.mod_time, h.mod_date,
        h.crc32, c as u32, u as u32, h.filename@, h.extra_field@);
    let a = lh + y;
    assert(Seq::<u8>::empty() + lh + y =~= a);
    lemma_get_shift(Seq::empty(), lh, y, 0);
    lemma_get_shift(Seq::empty(), lh, y, 20);
    lemma_get_shift_short(Seq::empty(), lh, y, 26);
    lemma_get_shift_u16(Seq::empty(), lh, y, 28);
    assert(a.subrange(lh.len() as int, lh.len() + c) =~= y.subrange(0, c as int));
}

/// A one-entry archive as the writer lays it out: local record, central
/// directory, end records.
#[verifier::opaque]
pub open spec fn one_entry_archive(h: CentralDirectoryHeader, p: Seq<u8>) -> Seq<u8> {
    let lr = local_record_spec(h, p);
    let cd = central_directory_spec(seq![h]);
    lr + cd + tail_spec(seq![h], lr.len() as u64, cd.len() as u64, Seq::empty())
}

pub open spec fn small_header(h: CentralDirectoryHeader, u: u64, c: u64) -> bool {
    &&& crate::writer::header_fits(h)
    &&& u < 0xE000_0000
    &&& c < 0xE000_0000
    &&& h.uncompressed_size == slot32(u)
    &&& h.compressed_size == slot32(c)
    &&& h.local_header_offset == slot32(0)
    &&& h.zip64_extended_info == zip64_info_for(u, c, 0)
}

pub open spec fn short_local_header(h: CentralDirectoryHeader, u: u64, c: u64) -> Seq<u8> {
    local_header_spec(h.version_needed, h.flags, h.compression.code(), h.mod_time, h.mod_date,
        h.crc32, c as u32, u as u32, h.filename@, h.extra_field@)
}

proof fn lemma_one_entry_pieces(h: CentralDirectoryHeader, u: u64, c: u64, p: Seq<u8>)
    requires
        small_header(h, u, c),
        p.len() == c,
    ensures
        ({
            let lh = short_local_header(h, u, c);
            let cr = central_record_spec(h);
            let end = end_record_spec(1, cr.len() as u32, (lh.len() + c) as u32, Seq::empty());
            &&& cr.len() <= 0x4_0000
            &&& lh.len() <= 0x3_0000
            &&& one_entry_archive(h, p) == lh + p + cr + end
        }),
{
    assert(!promoted(u) && !promoted(c) && !promoted(0));
    assert(h.zip64_extended_info.is_none());
    assert(local_zip64_spec(u, c) + h.extra_field@ =~= h.extra_field@);
    let lh = short_local_header(h, u, c);
    let lr = local_record_spec(h, p);
    assert(lr == lh + p);
    lemma_local_header_fields(h.version_needed, h.flags, h.compression.code(), h.mod_time, h.mod_date,
        h.crc32, c as u32, u as u32, h.filename@, h.extra_field@);
    let cd = central_directory_spec(seq![h]);
    lemma_cd_single(h);
    lemma_central_part(lr, h, Seq::empty());
    let hs = seq![h];
    assert(!needs_zip64_end(hs, lr.len() as u64, cd.len() as u64));
    reveal(one_entry_archive);
}

proof fn lemma_one_entry_directory(h: CentralDirectoryHeader, u: u64, c: u64, p: Seq<u8>)
    requires
        small_header(h, u, c),
        p.len() == c,
    ensures
        directory_spec(one_entry_archive(h, p)) == Some((short_local_header(h, u, c).len() + c, 1int)),
        records_ok(one_entry_archive(h, p), short_local_header(h, u, c).len() + c, 1),
{
    lemma_one_entry_pieces(h, u, c, p);
    let lh = short_local_header(h, u, c);
    let cr = central_record_spec(h);
    let end = end_record_spec(1, cr.len() as u32, (lh.len() + c) as u32, Seq::empty());
    let a = lh + p + cr + end;
    lemma_end_part(lh + p + cr, 1, cr.len() as u32, (lh.len() + c) as u32);
    let q = lh.len() + c;
    lemma_central_part(lh + p, h, end);
    assert(records_ok(a, central_next(a, q), 0));
}

#[verifier::rlimit(40)]
proof fn lemma_one_entry_header(h: CentralDirectoryHeader, u: u64, c: u64, p: Seq<u8>, r: CentralDirectoryHeader)
    requires
        small_header(h, u, c),
        p.len() == c,
        header_matches(one_entry_archive(h, p), short_local_header(h, u, c).len() + c, r),
    ensures
        r.filename@ == h.filename@,
        r.compression == CompressionMethod::from_code(h.compression.code()),
        r.crc32 == h.crc32,
        r.uncompressed_spec() == u,
        r.compressed_spec() == c,
        r.offset_spec() == 0,
        local_data_range(one_entry_archive(h, p), 0, c as int) == Some((
            short_local_header(h, u, c).len() as int,
            short_local_header(h, u, c).len() + c,
        )),
        one_entry_archive(h, p).subrange(short_local_header(h, u, c).len() as int, short_local_header(h, u, c).len() + c) == p,
{
    lemma_one_entry_pieces(h, u, c, p);
    let lh = short_local_header(h, u, c);
    let cr = central_record_spec(h);
    let end = end_record_spec(1, cr.len() as u32, (lh.len() + c) as u32, Seq::empty());
    let a = lh + p + cr + end;
    lemma_central_part(lh + p, h, end);
    assert(lh + (p + cr + end) =~= a);
    lemma_local_part(h, u, c, p + cr + end);
    assert((p + cr + end).subrange(0, c as int) =~= p);
}

/// Round trip of a one-entry archive: an archive that the writer produced
/// from an empty start with one entry of `data` run through the pipeline
/// (method `method`, no password) and no archive comment reads back as one
/// record whose header carries the entry's name, method, CRC-32 of `data`
/// and sizes, and whose stored bytes are the pipeline's payload: `data`
/// itself when the entry is stored.
pub proof fn lemma_single_entry_round_trip(
    h: CentralDirectoryHeader,
    data: Seq<u8>,
    method: CompressionMethod,
    level: u32,
    level_specified: bool,
)
    requires
        crate::writer::header_fits(h),
        data.len() < 0xE000_0000,
        plain_payload(data, method, level, level_specified).1.len() < 0xE000_0000,
        h.compression == plain_payload(data, method, level, level_specified).0,
        h.flags & 8 == 0,
        h.crc32 == crc32_of(data),
        h.uncompressed_size == slot32(data.len() as u64),
        h.compressed_size == slot32(plain_payload(data, method, level, level_specified).1.len() as u64),
        h.local_header_offset == slot32(0),
        h.zip64_extended_info == zip64_info_for(
            data.len() as u64,
            plain_payload(data, method, level, level_specified).1.len() as u64,
            0,
        ),
    ensures
        ({
            let p = plain_payload(data, method, level, level_specified).1;
            let lr = local_record_spec(h, p);
            let cd = central_directory_spec(seq![h]);
            let a = lr + cd + tail_spec(seq![h], lr.len() as u64, cd.len() as u64, Seq::empty());
            &&& directory_spec(a) == Some((lr.len() as int, 1int))
            &&& records_ok(a, lr.len() as int, 1)
            &&& forall|r: CentralDirectoryHeader|
                #[trigger] header_matches(a, record_pos(a, lr.len() as int, 0), r) ==> {
                    &&& r.filename@ == h.filename@
                    &&& r.compression == plain_payload(data, method, level, level_specified).0
                    &&& r.crc32 == crc32_of(data)
                    &&& r.uncompressed_spec() == data.len()
                    &&& r.compressed_spec() == p.len()
                    &&& r.offset_spec() == 0
                    &&& local_data_range(a, r.offset_spec() as int, r.compressed_spec() as int) matches Some((s, t))
                    &&& a.subrange(s, t) == p
                    &&& r.compression == CompressionMethod::Stored ==> a.subrange(s, t) == data
                }
        }),
{
    let m = plain_payload(data, method, level, level_specified).0;
    let p = plain_payload(data, method, level, level_specified).1;
    let u = data.len() as u64;
    let c = p.len() as u64;
    reveal(one_entry_archive);
    lemma_one_entry_pieces(h, u, c, p);
    lemma_one_entry_directory(h, u, c, p);
    crate::zip::lemma_method_code_round_trip(m);
    let a = one_entry_archive(h, p);
    let q = short_local_header(h, u, c).len() + c;
    assert(local_record_spec(h, p).len() == q);
    assert forall|r: CentralDirectoryHeader|
        #[trigger] header_matches(a, record_pos(a, q, 0), r) implies {
            &&& r.filename@ == h.filename@
            &&& r.compression == m
            &&& r.crc32 == crc32_of(data)
            &&& r.uncompressed_spec() == data.len()
            &&& r.compressed_spec() == p.len()
            &&& r.offset_spec() == 0
            &&& local_data_range(a, r.offset_spec() as int, r.compressed_spec() as int) matches Some((s, t))
            &&& a.subrange(s, t) == p
            &&& r.compression == CompressionMethod::Stored ==> a.subrange(s, t) == data
        } by {
        assert(record_pos(a, q, 0) == q);
        lemma_one_entry_header(h, u, c, p, r);
    }
}
} // verus!

verus! {

/// A one-entry archive as the writer lays it out has its local record where
/// its header says, so it can be cut into split pieces (`archive_pieces`
/// gives `Some` for it).
pub proof fn lemma_one_entry_records_chain(h: CentralDirectoryHeader, u: u64, c: u64, p: Seq<u8>)
    requires
        small_header(h, u, c),
        p.len() == c,
        h.flags & 8 == 0,
    ensures
        crate::pieces::records_chain(one_entry_archive(h, p), seq![h], 0, 0),
{
    lemma_one_entry_pieces(h, u, c, p);
    let lh = short_local_header(h, u, c);
    let cr = central_record_spec(h);
    let end = end_record_spec(1, cr.len() as u32, (lh.len() + c) as u32, Seq::empty());
    let a = lh + p + cr + end;
    assert(lh + (p + cr + end) =~= a);
    lemma_local_part(h, u, c, p + cr + end);
    assert(!promoted(u) && !promoted(c) && !promoted(0));
    assert(h.offset_spec() == 0);
    assert(local_data_range(a, 0, c as int) == Some((lh.len() as int, lh.len() + c)));
    assert(local_record_range(a, h) == Some((0int, lh.len() + c)));
    assert(crate::pieces::records_chain(a, seq![h], 1, lh.len() + c));
}

} // verus!
