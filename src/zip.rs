//! ZIP record model: compression methods, the ZIP64 extended information
//! field, central directory headers and the archive-wide information.
use crate::le::{get_u32, get_u64, push_u16, push_u32, push_u64, read_u32, read_u64, u16_le, u32_le, u64_le};
use vstd::prelude::*;

verus! {

pub const ZIP_CRYPTO_FLAG: u16 = 0x1;

pub const DATA_DESCRIPTOR_FLAG: u16 = 0x8;

pub const UTF8_NAME_FLAG: u16 = 0x800;

/// 3.0, made on Unix.
pub const VERSION_MADE: u16 = 0x031E;

/// 1.0, enough for stored and deflated entries.
pub const VERSION_NEEDED: u16 = 0x0A;

/// 4.5, needed as soon as a ZIP64 field is used.
pub const VERSION_NEEDED_ZIP64: u16 = 0x2D;

/// 4.5, made on Unix.
pub const ZIP64_VERSION_MADE: u16 = 0x032D;

pub const ZIP64_EXTRA_FIELD_ID: u16 = 0x0001;

pub const ZIP64_END_OF_CENTRAL_DIR_SIZE: usize = 56;

pub const ZIP64_END_OF_CENTRAL_DIR_LOCATOR_SIZE: usize = 20;

/// Largest value of a 32-bit size or offset slot; also its ZIP64 sentinel.
pub const MAX_ZIP_SIZE: u32 = 0xFFFFFFFF;

/// Largest value of a 16-bit count slot; also its ZIP64 sentinel.
pub const MAX_ZIP_ENTRIES: u16 = 0xFFFF;

/// How an entry's data is compressed.
#[derive(Clone, Copy, Debug, PartialEq, Eq, Structural, Default)]
pub enum CompressionMethod {
    #[default]
    Stored,
    Deflated,
    Bzip2,
}

impl CompressionMethod {
    /// The method number that ZIP records carry.
    pub open spec fn code(self) -> u16 {
        match self {
            CompressionMethod::Stored => 0,
            CompressionMethod::Deflated => 8,
            CompressionMethod::Bzip2 => 12,
        }
    }

    /// The method that a record's method number names; unknown numbers read as stored.
    pub open spec fn from_code(num: u16) -> CompressionMethod {
        if num == 8 {
            CompressionMethod::Deflated
        } else if num == 12 {
            CompressionMethod::Bzip2
        } else {
            CompressionMethod::Stored
        }
    }

    pub fn code_u16(self) -> (r: u16)
        ensures
            r == self.code(),
    {
        match self {
            CompressionMethod::Stored => 0,
            CompressionMethod::Deflated => 8,
            CompressionMethod::Bzip2 => 12,
        }
    }

    pub fn to_le_bytes(self) -> (r: [u8; 2])
        ensures
            r@ == u16_le(self.code()),
    {
        let c = self.code_u16();
        let r = [(c & 0xff) as u8, ((c >> 8) & 0xff) as u8];
        assert(r@ =~= u16_le(self.code()));
        r
    }

    pub fn from(num: u16) -> (r: CompressionMethod)
        ensures
            r == CompressionMethod::from_code(num),
    {
        match num {
            8 => CompressionMethod::Deflated,
            12 => CompressionMethod::Bzip2,
            _ => CompressionMethod::Stored,
        }
    }

    /// The word that listings show for the method.
    pub fn name(self) -> (r: &'static str) {
        match self {
            CompressionMethod::Stored => "stored",
            CompressionMethod::Deflated => "deflated",
            CompressionMethod::Bzip2 => "bzipped",
        }
    }
}

pub proof fn lemma_method_code_round_trip(m: CompressionMethod)
    ensures
        CompressionMethod::from_code(m.code()) == m,
{
}

/// The 64-bit values of a ZIP64 extended information field (tag 0x0001).
#[derive(Debug, Clone, Default)]
pub struct Zip64ExtendedInfo {
    pub uncompressed_size: Option<u64>,
    pub compressed_size: Option<u64>,
    pub local_header_offset: Option<u64>,
    pub disk_start_number: Option<u32>,
}

/// The bytes of an optional 64-bit value, present only where `want` holds.
pub open spec fn opt_u64_le(want: bool, v: Option<u64>) -> Seq<u8> {
    match v {
        Some(x) => if want { u64_le(x) } else { Seq::empty() },
        None => Seq::empty(),
    }
}

pub open spec fn opt_u32_le(v: Option<u32>) -> Seq<u8> {
    match v {
        Some(x) => u32_le(x),
        None => Seq::empty(),
    }
}

impl Zip64ExtendedInfo {
    /// The field's payload: the selected values in the fixed order
    /// uncompressed size, compressed size, local header offset, disk number.
    pub open spec fn payload(self, uncompressed_max: bool, compressed_max: bool, offset_max: bool) -> Seq<u8> {
        opt_u64_le(uncompressed_max, self.uncompressed_size) + opt_u64_le(
            compressed_max,
            self.compressed_size,
        ) + opt_u64_le(offset_max, self.local_header_offset) + opt_u32_le(self.disk_start_number)
    }

    pub fn new() -> (r: Self)
        ensures
            r.uncompressed_size.is_none(),
            r.compressed_size.is_none(),
            r.local_header_offset.is_none(),
            r.disk_start_number.is_none(),
    {
        Zip64ExtendedInfo {
            uncompressed_size: None,
            compressed_size: None,
            local_header_offset: None,
            disk_start_number: None,
        }
    }

    /// The payload with only the values whose 32-bit slots were promoted.
    pub fn to_bytes(&self, uncompressed_max: bool, compressed_max: bool, offset_max: bool) -> (r: Vec<u8>)
        ensures
            r@ == self.payload(uncompressed_max, compressed_max, offset_max),
    {
        let mut data: Vec<u8> = Vec::new();
        if uncompressed_max {
            if let Some(size) = self.uncompressed_size {
                push_u64(&mut data, size);
            }
        }
        if compressed_max {
            if let Some(size) = self.compressed_size {
                push_u64(&mut data, size);
            }
        }
        if offset_max {
            if let Some(offset) = self.local_header_offset {
                push_u64(&mut data, offset);
            }
        }
        if let Some(disk) = self.disk_start_number {
            push_u32(&mut data, disk);
        }
        assert(data@ =~= self.payload(uncompressed_max, compressed_max, offset_max));
        data
    }

    /// The payload with every value that is present.
    pub fn to_bytes_compat(&self) -> (r: Vec<u8>)
        ensures
            r@ == self.payload(true, true, true),
    {
        self.to_bytes(true, true, true)
    }
}


/// Offsets of the values in a payload that holds the selected ones.
pub open spec fn zip64_need(u: bool, c: bool, o: bool, d: bool) -> int {
    (if u { 8int } else { 0int }) + (if c { 8int } else { 0int }) + (if o { 8int } else { 0int }) + (
    if d { 4int } else { 0int })
}

/// What a ZIP64 payload says, given which slots of the parent record hold
/// their sentinel: the values follow one another in the fixed order, and a
/// payload too short for them is refused.
pub open spec fn zip64_parse(data: Seq<u8>, u: bool, c: bool, o: bool, d: bool) -> Option<Zip64ExtendedInfo> {
    let oc: int = if u { 8 } else { 0 };
    let oo: int = oc + if c { 8int } else { 0int };
    let od: int = oo + if o { 8int } else { 0int };
    if data.len() < zip64_need(u, c, o, d) {
        None
    } else {
        Some(Zip64ExtendedInfo {
            uncompressed_size: if u { Some(get_u64(data, 0)) } else { None },
            compressed_size: if c { Some(get_u64(data, oc)) } else { None },
            local_header_offset: if o { Some(get_u64(data, oo)) } else { None },
            disk_start_number: if d { Some(get_u32(data, od)) } else { None },
        })
    }
}

impl Zip64ExtendedInfo {
    /// Reads a ZIP64 payload in which only the values of the promoted slots
    /// appear, in the fixed order; each flag tells whether the parent record's
    /// slot holds its sentinel (`disk_max` for the disk number). `None` when the
    /// payload is too short for them.
    pub fn from_bytes(
        data: &[u8],
        uncompressed_max: bool,
        compressed_max: bool,
        offset_max: bool,
        disk_max: bool,
    ) -> (r: Option<Zip64ExtendedInfo>)
        ensures
            r == zip64_parse(data@, uncompressed_max, compressed_max, offset_max, disk_max),
    {
        let n = data.len();
        let need: usize = (if uncompressed_max { 8 } else { 0 }) + (if compressed_max { 8 } else { 0 }) + (
        if offset_max { 8 } else { 0 }) + (if disk_max { 4 } else { 0 });
        if n < need {
            return None;
        }
        let mut info = Zip64ExtendedInfo::new();
        let mut pos: usize = 0;
        if uncompressed_max {
            info.uncompressed_size = Some(read_u64(data, pos));
            pos = pos + 8;
        }
        if compressed_max {
            info.compressed_size = Some(read_u64(data, pos));
            pos = pos + 8;
        }
        if offset_max {
            info.local_header_offset = Some(read_u64(data, pos));
            pos = pos + 8;
        }
        if disk_max {
            info.disk_start_number = Some(read_u32(data, pos));
        }
        Some(info)
    }
}

/// Whether a 64-bit value must move to the ZIP64 field: its 32-bit slot
/// would otherwise hold the sentinel, or could not hold it at all. The
/// writer uses this rule (`>=`); `needs_zip64` asks the narrower question
/// of a value above 0xFFFFFFFF (`>`).
pub open spec fn promoted(v: u64) -> bool {
    v >= 0xFFFF_FFFF
}

/// The 32-bit slot for a value: the value itself, or the sentinel.
pub open spec fn slot32(v: u64) -> u32 {
    if promoted(v) {
        0xFFFF_FFFF
    } else {
        v as u32
    }
}

/// The 16-bit entry count slot of the end record: the count, or the sentinel.
pub open spec fn count_slot(n: u64) -> u16 {
    if n >= 0xFFFF {
        0xFFFF
    } else {
        n as u16
    }
}

pub fn entry_count_slot(n: u64) -> (r: u16)
    ensures
        r == count_slot(n),
{
    if n >= 0xFFFF {
        0xFFFF
    } else {
        n as u16
    }
}

/// What the end records say of the whole archive.
#[derive(Debug, Clone, Default)]
pub struct ArchiveFileInfo {
    pub num_entries: u16,
    pub size: u32,
    pub offset: u32,
    pub comment: String,
    pub is_zip64: bool,
    pub zip64_num_entries: Option<u64>,
    pub zip64_size: Option<u64>,
    pub zip64_offset: Option<u64>,
}

/// A central directory header.
#[derive(Debug, Clone, Default)]
pub struct CentralDirectoryHeader {
    pub version_made: u16,
    pub version_needed: u16,
    pub flags: u16,
    pub compression: CompressionMethod,
    pub mod_time: u16,
    pub mod_date: u16,
    pub crc32: u32,
    pub compressed_size: u32,
    pub uncompressed_size: u32,
    pub filename: Vec<u8>,
    pub extra_field: Vec<u8>,
    pub file_comment: Vec<u8>,
    pub disk_num: u16,
    pub internal_attr: u16,
    pub external_attr: u32,
    pub local_header_offset: u32,
    pub zip64_extended_info: Option<Zip64ExtendedInfo>,
}

/// Whether a header describes a directory: DOS directory bit, or a name
/// ending in `/`.
pub open spec fn is_dir_spec(h: CentralDirectoryHeader) -> bool {
    h.external_attr & 0x10 != 0 || (h.filename@.len() > 0 && h.filename@.last() == 0x2Fu8)
}

/// A directory entry has no data: both sizes and the CRC-32 are zero.
pub open spec fn dir_entry_ok(h: CentralDirectoryHeader) -> bool {
    is_dir_spec(h) ==> h.uncompressed_spec() == 0 && h.compressed_spec() == 0 && h.crc32 == 0
}

/// The header's true sizes and offset: the ZIP64 value where one is present,
/// else the 32-bit slot.
pub open spec fn true_u64(v: Option<u64>, slot: u32) -> u64 {
    match v {
        Some(x) => x,
        None => slot as u64,
    }
}

/// The ZIP64 values of a header whose sizes and offset are `u`, `c` and `o`:
/// exactly the promoted ones, or no field at all.
pub open spec fn zip64_info_for(u: u64, c: u64, o: u64) -> Option<Zip64ExtendedInfo> {
    if promoted(u) || promoted(c) || promoted(o) {
        Some(Zip64ExtendedInfo {
            uncompressed_size: if promoted(u) { Some(u) } else { None },
            compressed_size: if promoted(c) { Some(c) } else { None },
            local_header_offset: if promoted(o) { Some(o) } else { None },
            disk_start_number: None,
        })
    } else {
        None
    }
}

impl CentralDirectoryHeader {
    pub open spec fn uncompressed_spec(&self) -> u64 {
        true_u64(
            match self.zip64_extended_info {
                Some(i) => i.uncompressed_size,
                None => None,
            },
            self.uncompressed_size,
        )
    }

    pub open spec fn compressed_spec(&self) -> u64 {
        true_u64(
            match self.zip64_extended_info {
                Some(i) => i.compressed_size,
                None => None,
            },
            self.compressed_size,
        )
    }

    pub open spec fn offset_spec(&self) -> u64 {
        true_u64(
            match self.zip64_extended_info {
                Some(i) => i.local_header_offset,
                None => None,
            },
            self.local_header_offset,
        )
    }

    /// The bytes of the header's ZIP64 field: tag, payload length, payload
    /// with the values whose slots hold the sentinel; empty without ZIP64 values.
    pub open spec fn zip64_field_spec(&self) -> Seq<u8> {
        match self.zip64_extended_info {
            Some(i) => {
                let p = i.payload(
                    self.uncompressed_size == 0xFFFF_FFFF,
                    self.compressed_size == 0xFFFF_FFFF,
                    self.local_header_offset == 0xFFFF_FFFF,
                );
                u16_le(ZIP64_EXTRA_FIELD_ID) + u16_le(p.len() as u16) + p
            },
            None => Seq::empty(),
        }
    }

    pub fn new() -> (r: Self)
        ensures
            r.version_made == VERSION_MADE,
            r.version_needed == VERSION_NEEDED,
            r.flags == 0,
            r.compression == CompressionMethod::Stored,
            r.mod_time == 0 && r.mod_date == 0 && r.crc32 == 0,
            r.compressed_size == 0 && r.uncompressed_size == 0,
            r.filename@.len() == 0 && r.extra_field@.len() == 0 && r.file_comment@.len() == 0,
            r.disk_num == 0 && r.internal_attr == 0 && r.external_attr == 0,
            r.local_header_offset == 0,
            r.zip64_extended_info.is_none(),
    {
        CentralDirectoryHeader {
            version_made: VERSION_MADE,
            version_needed: VERSION_NEEDED,
            flags: 0,
            compression: CompressionMethod::Stored,
            mod_time: 0,
            mod_date: 0,
            crc32: 0,
            compressed_size: 0,
            uncompressed_size: 0,
            filename: Vec::new(),
            extra_field: Vec::new(),
            file_comment: Vec::new(),
            disk_num: 0,
            internal_attr: 0,
            external_attr: 0,
            local_header_offset: 0,
            zip64_extended_info: None,
        }
    }

    /// A copy of the header, field by field.
    pub fn clone_header(&self) -> (r: Self)
        ensures
            r.version_made == self.version_made,
            r.version_needed == self.version_needed,
            r.flags == self.flags,
            r.compression == self.compression,
            r.mod_time == self.mod_time,
            r.mod_date == self.mod_date,
            r.crc32 == self.crc32,
            r.compressed_size == self.compressed_size,
            r.uncompressed_size == self.uncompressed_size,
            r.filename@ == self.filename@,
            r.extra_field@ == self.extra_field@,
            r.file_comment@ == self.file_comment@,
            r.disk_num == self.disk_num,
            r.internal_attr == self.internal_attr,
            r.external_attr == self.external_attr,
            r.local_header_offset == self.local_header_offset,
            r.zip64_extended_info == self.zip64_extended_info,
    {
        let info = match &self.zip64_extended_info {
            Some(i) => Some(
                Zip64ExtendedInfo {
                    uncompressed_size: i.uncompressed_size,
                    compressed_size: i.compressed_size,
                    local_header_offset: i.local_header_offset,
                    disk_start_number: i.disk_start_number,
                },
            ),
            None => None,
        };
        CentralDirectoryHeader {
            version_made: self.version_made,
            version_needed: self.version_needed,
            flags: self.flags,
            compression: self.compression,
            mod_time: self.mod_time,
            mod_date: self.mod_date,
            crc32: self.crc32,
            compressed_size: self.compressed_size,
            uncompressed_size: self.uncompressed_size,
            filename: crate::le::copy_bytes(self.filename.as_slice()),
            extra_field: crate::le::copy_bytes(self.extra_field.as_slice()),
            file_comment: crate::le::copy_bytes(self.file_comment.as_slice()),
            disk_num: self.disk_num,
            internal_attr: self.internal_attr,
            external_attr: self.external_attr,
            local_header_offset: self.local_header_offset,
            zip64_extended_info: info,
        }
    }

    /// Whether a true size or offset exceeds what 32 bits hold (above
    /// 0xFFFFFFFF). The writer promotes one value earlier, at 0xFFFFFFFF
    /// itself (see `promoted`), so that a slot holding the sentinel always
    /// has its true value in the ZIP64 field; this test reports only the
    /// values that could not be written in 32 bits at all.
    pub fn needs_zip64(&self) -> (r: bool)
        ensures
            r == (self.uncompressed_spec() > 0xFFFF_FFFF || self.compressed_spec() > 0xFFFF_FFFF
                || self.offset_spec() > 0xFFFF_FFFF),
    {
        let uncompressed = self.get_uncompressed_size();
        let compressed = self.get_compressed_size();
        let offset = self.get_local_header_offset();
        uncompressed > MAX_ZIP_SIZE as u64 || compressed > MAX_ZIP_SIZE as u64 || offset
            > MAX_ZIP_SIZE as u64
    }

    pub fn get_uncompressed_size(&self) -> (r: u64)
        ensures
            r == self.uncompressed_spec(),
    {
        match &self.zip64_extended_info {
            Some(info) => match info.uncompressed_size {
                Some(v) => v,
                None => self.uncompressed_size as u64,
            },
            None => self.uncompressed_size as u64,
        }
    }

    pub fn get_compressed_size(&self) -> (r: u64)
        ensures
            r == self.compressed_spec(),
    {
        match &self.zip64_extended_info {
            Some(info) => match info.compressed_size {
                Some(v) => v,
                None => self.compressed_size as u64,
            },
            None => self.compressed_size as u64,
        }
    }

    pub fn get_local_header_offset(&self) -> (r: u64)
        ensures
            r == self.offset_spec(),
    {
        match &self.zip64_extended_info {
            Some(info) => match info.local_header_offset {
                Some(v) => v,
                None => self.local_header_offset as u64,
            },
            None => self.local_header_offset as u64,
        }
    }

    /// Records the entry's sizes and local header offset, moving each value
    /// that a 32-bit slot cannot carry into the ZIP64 values.
    pub fn set_sizes(&mut self, uncompressed: u64, compressed: u64, offset: u64)
        ensures
            final(self).uncompressed_size == slot32(uncompressed),
            final(self).compressed_size == slot32(compressed),
            final(self).local_header_offset == slot32(offset),
            final(self).zip64_extended_info == zip64_info_for(uncompressed, compressed, offset),
            final(self).version_needed == (if zip64_info_for(uncompressed, compressed, offset).is_some() {
                VERSION_NEEDED_ZIP64
            } else {
                old(self).version_needed
            }),
            final(self).version_made == old(self).version_made,
            final(self).flags == old(self).flags,
            final(self).compression == old(self).compression,
            final(self).mod_time == old(self).mod_time,
            final(self).mod_date == old(self).mod_date,
            final(self).crc32 == old(self).crc32,
            final(self).filename == old(self).filename,
            final(self).extra_field == old(self).extra_field,
            final(self).file_comment == old(self).file_comment,
            final(self).disk_num == old(self).disk_num,
            final(self).internal_attr == old(self).internal_attr,
            final(self).external_attr == old(self).external_attr,
    {
        let pu = uncompressed >= 0xFFFF_FFFF;
        let pc = compressed >= 0xFFFF_FFFF;
        let po = offset >= 0xFFFF_FFFF;
        self.uncompressed_size = if pu { MAX_ZIP_SIZE } else { uncompressed as u32 };
        self.compressed_size = if pc { MAX_ZIP_SIZE } else { compressed as u32 };
        self.local_header_offset = if po { MAX_ZIP_SIZE } else { offset as u32 };
        if pu || pc || po {
            self.zip64_extended_info = Some(Zip64ExtendedInfo {
                uncompressed_size: if pu { Some(uncompressed) } else { None },
                compressed_size: if pc { Some(compressed) } else { None },
                local_header_offset: if po { Some(offset) } else { None },
                disk_start_number: None,
            });
            self.version_needed = VERSION_NEEDED_ZIP64;
        } else {
            self.zip64_extended_info = None;
        }
    }

    /// The ZIP64 extra field that the header's record carries.
    pub fn zip64_extra_field(&self) -> (r: Vec<u8>)
        ensures
            r@ == self.zip64_field_spec(),
    {
        match &self.zip64_extended_info {
            Some(info) => {
                let p = info.to_bytes(
                    self.uncompressed_size == MAX_ZIP_SIZE,
                    self.compressed_size == MAX_ZIP_SIZE,
                    self.local_header_offset == MAX_ZIP_SIZE,
                );
                let mut out: Vec<u8> = Vec::new();
                push_u16(&mut out, ZIP64_EXTRA_FIELD_ID);
                push_u16(&mut out, p.len() as u16);
                let mut i: usize = 0;
                while i < p.len()
                    invariant
                        0 <= i <= p@.len(),
                        out@ == u16_le(ZIP64_EXTRA_FIELD_ID) + u16_le(p@.len() as u16) + p@.subrange(0, i as int),
                    decreases p@.len() - i,
                {
                    out.push(p[i]);
                    i = i + 1;
                    assert(out@ =~= u16_le(ZIP64_EXTRA_FIELD_ID) + u16_le(p@.len() as u16) + p@.subrange(0, i as int));
                }
                assert(p@.subrange(0, p@.len() as int) =~= p@);
                out
            },
            None => Vec::new(),
        }
    }
}


pub proof fn lemma_zip64_field_len(h: CentralDirectoryHeader)
    ensures
        h.zip64_field_spec().len() <= 32,
{
    match h.zip64_extended_info {
        Some(i) => {
            let p = i.payload(
                h.uncompressed_size == 0xFFFF_FFFF,
                h.compressed_size == 0xFFFF_FFFF,
                h.local_header_offset == 0xFFFF_FFFF,
            );
            assert(p.len() <= 28);
        },
        None => {},
    }
}

/// A header whose sizes and offset `set_sizes` recorded gives them back.
pub proof fn lemma_zip64_recovers(h: CentralDirectoryHeader, u: u64, c: u64, o: u64)
    requires
        h.uncompressed_size == slot32(u),
        h.compressed_size == slot32(c),
        h.local_header_offset == slot32(o),
        h.zip64_extended_info == zip64_info_for(u, c, o),
    ensures
        h.uncompressed_spec() == u,
        h.compressed_spec() == c,
        h.offset_spec() == o,
{
}

/// The ZIP64 bytes of a value when its slot is promoted.
pub open spec fn promoted_le(v: u64) -> Seq<u8> {
    if promoted(v) {
        u64_le(v)
    } else {
        Seq::empty()
    }
}

/// ZIP64 promotion: in a header whose sizes and offset were recorded by
/// `set_sizes`, each 32-bit slot holds the sentinel exactly when its value
/// does not fit below it, the entry count slot holds its sentinel exactly
/// when the count does not fit, the true values are recovered, and the ZIP64
/// field holds exactly the promoted values in the fixed order, which reading
/// the field gives back.
pub proof fn lemma_zip64_promotion(h: CentralDirectoryHeader, u: u64, c: u64, o: u64, n: u64)
    requires
        u != 0xFFFF_FFFF,
        c != 0xFFFF_FFFF,
        o != 0xFFFF_FFFF,
        n != 0xFFFF,
        h.uncompressed_size == slot32(u),
        h.compressed_size == slot32(c),
        h.local_header_offset == slot32(o),
        h.zip64_extended_info == zip64_info_for(u, c, o),
    ensures
        (h.uncompressed_size == 0xFFFF_FFFF) <==> u > 0xFFFF_FFFF,
        (h.compressed_size == 0xFFFF_FFFF) <==> c > 0xFFFF_FFFF,
        (h.local_header_offset == 0xFFFF_FFFF) <==> o > 0xFFFF_FFFF,
        (count_slot(n) == 0xFFFF) <==> n > 0xFFFF,
        h.uncompressed_spec() == u,
        h.compressed_spec() == c,
        h.offset_spec() == o,
        h.zip64_extended_info.is_some() <==> (u > 0xFFFF_FFFF || c > 0xFFFF_FFFF || o > 0xFFFF_FFFF),
        h.zip64_extended_info.is_some() ==> h.zip64_field_spec() == u16_le(ZIP64_EXTRA_FIELD_ID)
            + u16_le((promoted_le(u) + promoted_le(c) + promoted_le(o)).len() as u16) + (promoted_le(u)
            + promoted_le(c) + promoted_le(o)),
        h.zip64_extended_info.is_some() ==> zip64_parse(
            h.zip64_field_spec().subrange(4, h.zip64_field_spec().len() as int),
            h.uncompressed_size == 0xFFFF_FFFF,
            h.compressed_size == 0xFFFF_FFFF,
            h.local_header_offset == 0xFFFF_FFFF,
            false,
        ) == h.zip64_extended_info,
{
    if h.zip64_extended_info.is_some() {
        let i = h.zip64_extended_info.unwrap();
        let pu = promoted_le(u);
        let pc = promoted_le(c);
        let po = promoted_le(o);
        let p = pu + pc + po;
        assert(i.payload(promoted(u), promoted(c), promoted(o)) =~= p);
        let f = h.zip64_field_spec();
        let tail = f.subrange(4, f.len() as int);
        assert(tail =~= p);
        if promoted(u) {
            assert(p.subrange(0, 8) =~= pu);
            crate::le::lemma_u64_le(p, 0, u);
        }
        if promoted(c) {
            let oc: int = if promoted(u) { 8 } else { 0 };
            assert(p.subrange(oc, oc + 8) =~= pc);
            crate::le::lemma_u64_le(p, oc, c);
        }
        if promoted(o) {
            let oo: int = (if promoted(u) { 8int } else { 0int }) + (if promoted(c) { 8int } else { 0int });
            assert(p.subrange(oo, oo + 8) =~= po);
            crate::le::lemma_u64_le(p, oo, o);
        }
        assert(zip64_parse(tail, promoted(u), promoted(c), promoted(o), false) == Some(i));
    }
}

} // verus!
