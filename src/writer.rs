//! Archive writer: emits each entry's local record, copies old entries
//! verbatim, then the central directory and the end records, with ZIP64
//! records where a count, size or offset does not fit its slot.
use crate::le::{push_bytes, push_u16, push_u64, u16_le, u64_le};
use crate::pipeline::CompressedEntry;
use crate::records::{
    central_header, central_header_spec, end_record, end_record_spec, local_header, local_header_spec,
    zip64_end_record, zip64_end_record_spec, zip64_locator, zip64_locator_spec, CentralFields,
};
use crate::zip::{
    count_slot, dir_entry_ok, is_dir_spec, promoted, slot32, CentralDirectoryHeader, ZIP64_EXTRA_FIELD_ID,
};
use vstd::prelude::*;

verus! {

/// The ZIP64 field of a local header: both sizes, when either is promoted.
pub open spec fn local_zip64_spec(u: u64, c: u64) -> Seq<u8> {
    if promoted(u) || promoted(c) {
        u16_le(ZIP64_EXTRA_FIELD_ID) + u16_le(16) + u64_le(u) + u64_le(c)
    } else {
        Seq::empty()
    }
}

/// A size slot of a local header: the sentinel in both when either size is promoted.
pub open spec fn local_slot(v: u64, u: u64, c: u64) -> u32 {
    if promoted(u) || promoted(c) {
        0xFFFF_FFFF
    } else {
        v as u32
    }
}

/// The local record of an entry: header, then the payload.
pub open spec fn local_record_spec(h: CentralDirectoryHeader, payload: Seq<u8>) -> Seq<u8> {
    let u = h.uncompressed_spec();
    let c = h.compressed_spec();
    local_header_spec(
        h.version_needed,
        h.flags,
        h.compression.code(),
        h.mod_time,
        h.mod_date,
        h.crc32,
        local_slot(c, u, c),
        local_slot(u, u, c),
        h.filename@,
        local_zip64_spec(u, c) + h.extra_field@,
    ) + payload
}

pub open spec fn central_fields_of(h: CentralDirectoryHeader) -> CentralFields {
    CentralFields {
        version_made: h.version_made,
        version_needed: h.version_needed,
        flags: h.flags,
        method: h.compression.code(),
        time: h.mod_time,
        date: h.mod_date,
        crc: h.crc32,
        compressed: h.compressed_size,
        uncompressed: h.uncompressed_size,
        disk: h.disk_num,
        internal_attr: h.internal_attr,
        external_attr: h.external_attr,
        offset: h.local_header_offset,
    }
}

/// The central directory record of a header; its ZIP64 field comes first.
pub open spec fn central_record_spec(h: CentralDirectoryHeader) -> Seq<u8> {
    central_header_spec(central_fields_of(h), h.filename@, h.zip64_field_spec() + h.extra_field@, h.file_comment@)
}

/// The central directory: the records of the headers, in order.
pub open spec fn central_directory_spec(hs: Seq<CentralDirectoryHeader>) -> Seq<u8>
    decreases hs.len(),
{
    if hs.len() == 0 {
        Seq::empty()
    } else {
        central_directory_spec(hs.drop_last()) + central_record_spec(hs.last())
    }
}

/// Whether the end of the archive needs the ZIP64 end record and locator.
pub open spec fn needs_zip64_end(hs: Seq<CentralDirectoryHeader>, cd_offset: u64, cd_size: u64) -> bool {
    (exists|i: int| 0 <= i < hs.len() && (#[trigger] hs[i]).zip64_extended_info.is_some())
        || hs.len() >= 0xFFFF || cd_offset >= 0xFFFF_FFFF || cd_size >= 0xFFFF_FFFF
}

/// What follows the central directory: the ZIP64 end record and locator
/// when needed, then the end record with its slots filled or promoted.
pub open spec fn tail_spec(hs: Seq<CentralDirectoryHeader>, cd_offset: u64, cd_size: u64, comment: Seq<u8>) -> Seq<u8> {
    let n = hs.len() as u64;
    let end = end_record_spec(count_slot(n), slot32(cd_size), slot32(cd_offset), comment);
    if needs_zip64_end(hs, cd_offset, cd_size) {
        zip64_end_record_spec(n, cd_size, cd_offset) + zip64_locator_spec((cd_offset + cd_size) as u64)
            + end
    } else {
        end
    }
}

/// Whether a header can be written: its name, extra field and comment fit
/// their 16-bit length slots together with the ZIP64 fields.
pub open spec fn header_fits(h: CentralDirectoryHeader) -> bool {
    h.filename@.len() <= 0xFFFF && h.extra_field@.len() + 32 <= 0xFFFF && h.file_comment@.len() <= 0xFFFF
}

/// Bound on an archive's size that keeps every offset in 64 bits.
pub const MAX_ARCHIVE_LEN: u64 = 0x7FFF_FFFF_FFFF_FFFF;

/// The writer owns the archive bytes produced so far and the central
/// directory headers of the entries written.
pub struct ZipWriter {
    pub out: Vec<u8>,
    pub cd_headers: Vec<CentralDirectoryHeader>,
}

impl ZipWriter {
    pub open spec fn wf(&self) -> bool {
        &&& self.out@.len() <= MAX_ARCHIVE_LEN
        &&& forall|i: int| 0 <= i < self.cd_headers@.len() ==> header_fits(#[trigger] self.cd_headers@[i])
        &&& forall|i: int| 0 <= i < self.cd_headers@.len() ==> dir_entry_ok(#[trigger] self.cd_headers@[i])
        &&& self.lined_up()
    }

    /// Whether the local records lie one after another from the start, in
    /// the order of the headers, up to the end of the output.
    pub open spec fn lined_up(&self) -> bool {
        crate::pieces::chain_to(self.out@, self.cd_headers@, 0, 0, self.out@.len() as int)
    }

    pub fn new() -> (r: Self)
        ensures
            r.wf(),
            r.out@.len() == 0,
            r.cd_headers@.len() == 0,
    {
        ZipWriter { out: Vec::new(), cd_headers: Vec::new() }
    }

    /// Emits a new entry: its header is `header` with the entry's method,
    /// flags, CRC-32, sizes and the offset where its local record starts.
    pub fn add_entry(&mut self, header: CentralDirectoryHeader, entry: &CompressedEntry)
        requires
            old(self).wf(),
            header_fits(header),
            is_dir_spec(header) ==> entry.uncompressed_size == 0 && entry.compressed_size == 0 && entry.crc32 == 0,
            entry.data@.len() == entry.compressed_size,
            entry.flags & 8 == 0,
            old(self).out@.len() + entry.data@.len() + 0x3_0000 <= MAX_ARCHIVE_LEN,
        ensures
            final(self).wf(),
            final(self).cd_headers@.len() == old(self).cd_headers@.len() + 1,
            final(self).cd_headers@.drop_last() == old(self).cd_headers@,
            ({
                let h = final(self).cd_headers@.last();
                &&& h.compression == entry.method
                &&& h.flags == entry.flags
                &&& h.crc32 == entry.crc32
                &&& h.uncompressed_spec() == entry.uncompressed_size
                &&& h.compressed_spec() == entry.compressed_size
                &&& h.offset_spec() == old(self).out@.len()
                &&& h.filename == header.filename
                &&& h.extra_field == header.extra_field
                &&& h.file_comment == header.file_comment
                &&& h.mod_time == header.mod_time
                &&& h.mod_date == header.mod_date
                &&& h.external_attr == header.external_attr
                &&& h.zip64_extended_info == crate::zip::zip64_info_for(
                    entry.uncompressed_size,
                    entry.compressed_size,
                    old(self).out@.len() as u64,
                )
                &&& final(self).out@ == old(self).out@ + local_record_spec(h, entry.data@)
            }),
    {
        let offset = self.out.len() as u64;
        let mut h = header;
        h.compression = entry.method;
        h.flags = entry.flags;
        h.crc32 = entry.crc32;
        h.set_sizes(entry.uncompressed_size, entry.compressed_size, offset);
        proof {
            crate::zip::lemma_zip64_recovers(h, entry.uncompressed_size, entry.compressed_size, offset);
        }
        let u = entry.uncompressed_size;
        let c = entry.compressed_size;
        let big = u >= 0xFFFF_FFFF || c >= 0xFFFF_FFFF;
        let mut extra: Vec<u8> = Vec::new();
        if big {
            push_u16(&mut extra, ZIP64_EXTRA_FIELD_ID);
            push_u16(&mut extra, 16);
            push_u64(&mut extra, u);
            push_u64(&mut extra, c);
        }
        assert(extra@ =~= local_zip64_spec(u, c));
        push_bytes(&mut extra, h.extra_field.as_slice());
        let lh = local_header(
            h.version_needed,
            h.flags,
            h.compression.code_u16(),
            h.mod_time,
            h.mod_date,
            h.crc32,
            if big { 0xFFFF_FFFF } else { c as u32 },
            if big { 0xFFFF_FFFF } else { u as u32 },
            h.filename.as_slice(),
            extra.as_slice(),
        );
        push_bytes(&mut self.out, lh.as_slice());
        push_bytes(&mut self.out, entry.data.as_slice());
        self.cd_headers.push(h);
        proof {
            assert forall|i: int| 0 <= i < self.cd_headers@.len() implies header_fits(#[trigger] self.cd_headers@[i])
                && dir_entry_ok(self.cd_headers@[i]) by {
                if i < self.cd_headers@.len() - 1 {
                    assert(self.cd_headers@[i] == old(self).cd_headers@[i]);
                }
            }
            assert(self.cd_headers@.drop_last() =~= old(self).cd_headers@);
            assert(self.cd_headers@ =~= old(self).cd_headers@.push(h));
            let rec = local_record_spec(h, entry.data@);
            assert(self.out@ =~= old(self).out@ + rec);
            {
                crate::pieces::lemma_chain_append(old(self).out@, rec, old(self).cd_headers@, 0, 0, old(self).out@.len() as int);
                lemma_new_record(old(self).out@, h, entry.data@);
                crate::pieces::lemma_chain_push(self.out@, old(self).cd_headers@, h, 0, 0, old(self).out@.len() as int, self.out@.len() as int);
            }
        }
    }

    /// Copies an old entry's local record verbatim from `src` and records its
    /// header with the offset where the copy starts; sizes, CRC-32 and
    /// encryption stay as they were. `None` when the record is not whole.
    pub fn copy_raw(&mut self, src: &[u8], header: &CentralDirectoryHeader) -> (r: Option<()>)
        requires
            old(self).wf(),
            header_fits(*header),
            dir_entry_ok(*header),
            old(self).out@.len() + src@.len() <= MAX_ARCHIVE_LEN,
        ensures
            final(self).wf(),
            r is Some <==> crate::reader::local_record_range(src@, *header) is Some,
            r is None ==> *final(self) == *old(self),
            r is Some ==> ({
                let (s, t) = crate::reader::local_record_range(src@, *header).unwrap();
                let h = final(self).cd_headers@.last();
                &&& final(self).out@ == old(self).out@ + src@.subrange(s, t)
                &&& final(self).cd_headers@.len() == old(self).cd_headers@.len() + 1
                &&& final(self).cd_headers@.drop_last() == old(self).cd_headers@
                &&& h.offset_spec() == old(self).out@.len()
                &&& h.uncompressed_spec() == header.uncompressed_spec()
                &&& h.compressed_spec() == header.compressed_spec()
                &&& h.crc32 == header.crc32
                &&& h.flags == header.flags
                &&& h.compression == header.compression
                &&& h.filename@ == header.filename@
            }),
    {
        let (s, t) = match crate::reader::local_record_span(src, header) {
            Some(x) => x,
            None => {
                return None;
            },
        };
        let offset = self.out.len() as u64;
        let mut h = header.clone_header();
        let u = header.get_uncompressed_size();
        let c = header.get_compressed_size();
        h.set_sizes(u, c, offset);
        proof {
            crate::zip::lemma_zip64_recovers(h, u, c, offset);
        }
        let rec = crate::le::copy_range(src, s, t);
        push_bytes(&mut self.out, rec.as_slice());
        self.cd_headers.push(h);
        proof {
            assert forall|i: int| 0 <= i < self.cd_headers@.len() implies header_fits(#[trigger] self.cd_headers@[i])
                && dir_entry_ok(self.cd_headers@[i]) by {
                if i < self.cd_headers@.len() - 1 {
                    assert(self.cd_headers@[i] == old(self).cd_headers@[i]);
                }
            }
            assert(self.cd_headers@.drop_last() =~= old(self).cd_headers@);
            assert(self.cd_headers@ =~= old(self).cd_headers@.push(h));
            {
                let rec = src@.subrange(s as int, t as int);
                crate::pieces::lemma_chain_append(old(self).out@, rec, old(self).cd_headers@, 0, 0, old(self).out@.len() as int);
                lemma_copied_record(src@, old(self).out@, *header, h);
                crate::pieces::lemma_chain_push(self.out@, old(self).cd_headers@, h, 0, 0, old(self).out@.len() as int, self.out@.len() as int);
            }
        }
        Some(())
    }

    /// Appends the central directory, the ZIP64 end record and locator where
    /// needed, and the end record with `comment`. The local records still lie
    /// one after another, so the archive can be cut into split pieces.
    #[verifier::rlimit(60)]
    pub fn finish(&mut self, comment: &[u8])
        requires
            old(self).wf(),
            comment@.len() <= 0xFFFF,
            old(self).out@.len() + old(self).cd_headers@.len() * 0x4_0000 + 0x2_0000 <= MAX_ARCHIVE_LEN,
        ensures
            final(self).cd_headers == old(self).cd_headers,
            crate::pieces::records_chain(final(self).out@, final(self).cd_headers@, 0, 0),
            final(self).out@ == old(self).out@ + central_directory_spec(old(self).cd_headers@) + tail_spec(
                old(self).cd_headers@,
                old(self).out@.len() as u64,
                central_directory_spec(old(self).cd_headers@).len() as u64,
                comment@,
            ),
    {
        let cd_start = self.out.len();
        let n = self.cd_headers.len();
        let mut i: usize = 0;
        let mut any64 = false;
        while i < n
            invariant
                0 <= i <= n,
                n == self.cd_headers@.len(),
                self.cd_headers == old(self).cd_headers,
                old(self).wf(),
                cd_start == old(self).out@.len(),
                old(self).out@.len() + n * 0x4_0000 + 0x2_0000 <= MAX_ARCHIVE_LEN,
                self.out@ == old(self).out@ + central_directory_spec(self.cd_headers@.subrange(0, i as int)),
                central_directory_spec(self.cd_headers@.subrange(0, i as int)).len() <= i * 0x4_0000,
                any64 == exists|j: int| 0 <= j < i && (#[trigger] self.cd_headers@[j]).zip64_extended_info.is_some(),
            decreases n - i,
        {
            let h = &self.cd_headers[i];
            assert(header_fits(*h));
            let f = CentralFields {
                version_made: h.version_made,
                version_needed: h.version_needed,
                flags: h.flags,
                method: h.compression.code_u16(),
                time: h.mod_time,
                date: h.mod_date,
                crc: h.crc32,
                compressed: h.compressed_size,
                uncompressed: h.uncompressed_size,
                disk: h.disk_num,
                internal_attr: h.internal_attr,
                external_attr: h.external_attr,
                offset: h.local_header_offset,
            };
            let mut extra = h.zip64_extra_field();
            proof {
                crate::zip::lemma_zip64_field_len(*h);
            }
            push_bytes(&mut extra, h.extra_field.as_slice());
            let rec = central_header(&f, h.filename.as_slice(), extra.as_slice(), h.file_comment.as_slice());
            assert(rec@.len() <= 0x4_0000);
            if h.zip64_extended_info.is_some() {
                any64 = true;
            }
            let ghost pre = self.cd_headers@.subrange(0, i as int);
            proof {
                assert(self.cd_headers@.subrange(0, i + 1).drop_last() =~= pre);
                assert(self.cd_headers@.subrange(0, i + 1).last() == self.cd_headers@[i as int]);
            }
            push_bytes(&mut self.out, rec.as_slice());
            i = i + 1;
        }
        assert(self.cd_headers@.subrange(0, n as int) =~= self.cd_headers@);
        let cd_size = (self.out.len() - cd_start) as u64;
        let cd_offset = cd_start as u64;
        if any64 || n >= 0xFFFF || cd_offset >= 0xFFFF_FFFF || cd_size >= 0xFFFF_FFFF {
            let rec = zip64_end_record(n as u64, cd_size, cd_offset);
            push_bytes(&mut self.out, rec.as_slice());
            let loc = zip64_locator(cd_offset + cd_size);
            push_bytes(&mut self.out, loc.as_slice());
        }
        let count = crate::zip::entry_count_slot(n as u64);
        let size32: u32 = if cd_size >= 0xFFFF_FFFF { 0xFFFF_FFFF } else { cd_size as u32 };
        let off32: u32 = if cd_offset >= 0xFFFF_FFFF { 0xFFFF_FFFF } else { cd_offset as u32 };
        let end = end_record(count, size32, off32, comment);
        push_bytes(&mut self.out, end.as_slice());
        proof {
            {
                let extra = self.out@.subrange(old(self).out@.len() as int, self.out@.len() as int);
                assert(old(self).out@ + extra =~= self.out@);
                crate::pieces::lemma_chain_append(old(self).out@, extra, old(self).cd_headers@, 0, 0, old(self).out@.len() as int);
                crate::pieces::lemma_chain_to_records(self.out@, self.cd_headers@, 0, 0, old(self).out@.len() as int);
            }
        }
    }
}

} // verus!

verus! {

/// A local record the writer appends is found again where its header says.
proof fn lemma_new_record(old: Seq<u8>, h: CentralDirectoryHeader, data: Seq<u8>)
    requires
        header_fits(h),
        h.offset_spec() == old.len(),
        h.compressed_spec() == data.len(),
        h.flags & 8 == 0,
    ensures
        crate::reader::local_record_range(old + local_record_spec(h, data), h) == Some((
            old.len() as int,
            (old.len() + local_record_spec(h, data).len()) as int,
        )),
{
    let u = h.uncompressed_spec();
    let c = h.compressed_spec();
    let ext = local_zip64_spec(u, c) + h.extra_field@;
    assert(local_zip64_spec(u, c).len() <= 20);
    let lh = local_header_spec(
        h.version_needed,
        h.flags,
        h.compression.code(),
        h.mod_time,
        h.mod_date,
        h.crc32,
        local_slot(c, u, c),
        local_slot(u, u, c),
        h.filename@,
        ext,
    );
    crate::records::lemma_local_header_fields(
        h.version_needed,
        h.flags,
        h.compression.code(),
        h.mod_time,
        h.mod_date,
        h.crc32,
        local_slot(c, u, c),
        local_slot(u, u, c),
        h.filename@,
        ext,
    );
    assert(local_record_spec(h, data) == lh + data);
    let a = old + lh + data;
    assert(old + local_record_spec(h, data) =~= a);
    crate::le::lemma_get_shift_short(old, lh, data, 0);
    crate::le::lemma_get_shift_short(old, lh, data, 26);
    crate::le::lemma_get_shift_u16(old, lh, data, 28);
}

} // verus!

verus! {

/// A local record copied verbatim is found again at its new offset under a
/// header with the same sizes and flags.
proof fn lemma_copied_record(
    src: Seq<u8>,
    old: Seq<u8>,
    header: CentralDirectoryHeader,
    h: CentralDirectoryHeader,
)
    requires
        crate::reader::local_record_range(src, header) is Some,
        h.offset_spec() == old.len(),
        h.compressed_spec() == header.compressed_spec(),
        h.uncompressed_spec() == header.uncompressed_spec(),
        h.flags == header.flags,
    ensures
        ({
            let (s, t) = crate::reader::local_record_range(src, header).unwrap();
            crate::reader::local_record_range(old + src.subrange(s, t), h) == Some((
                old.len() as int,
                old.len() + (t - s),
            ))
        }),
{
    let (s, t) = crate::reader::local_record_range(src, header).unwrap();
    let mid = src.subrange(s, t);
    let pre = src.subrange(0, s);
    let post = src.subrange(t, src.len() as int);
    assert(pre + mid + post =~= src);
    let a = old + mid;
    assert(old + mid + Seq::<u8>::empty() =~= a);
    crate::le::lemma_get_shift_short(pre, mid, post, 0);
    crate::le::lemma_get_shift_short(pre, mid, post, 26);
    crate::le::lemma_get_shift_u16(pre, mid, post, 28);
    crate::le::lemma_get_shift_short(old, mid, Seq::empty(), 0);
    crate::le::lemma_get_shift_short(old, mid, Seq::empty(), 26);
    crate::le::lemma_get_shift_u16(old, mid, Seq::empty(), 28);
    let (ds, de) = crate::reader::local_data_range(src, s, header.compressed_spec() as int).unwrap();
    let shift = old.len() - s;
    assert(crate::reader::local_data_range(a, old.len() as int, h.compressed_spec() as int) == Some((ds + shift, de + shift)));
    if h.flags & 8 != 0 {
        crate::le::lemma_get_shift_short(pre, mid, post, de - s);
        crate::le::lemma_get_shift_short(old, mid, Seq::empty(), de - s);
    }
}

} // verus!
