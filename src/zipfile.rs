//! An entry of an archive being read: its central directory header and
//! where its data lies.
use crate::datetime::{dos_parts_spec, from_dos_time_date, DosDateTime};
use crate::options::FileOptions;
use crate::zip::{is_dir_spec, CentralDirectoryHeader, CompressionMethod, ZIP_CRYPTO_FLAG};
use vstd::prelude::*;
use vstd::string::StringSliceAdditionalSpecFns;

verus! {

/// The text that `String::from_utf8_lossy` makes of the bytes.
pub uninterp spec fn utf8_lossy_of(b: Seq<u8>) -> Seq<char>;

/// Relies on String::from_utf8_lossy: the bytes as text, with U+FFFD for
/// each invalid sequence.
#[verifier::external_body]
pub(crate) fn lossy_text(b: &[u8]) -> (r: String)
    ensures
        r@ == utf8_lossy_of(b@),
{
    String::from_utf8_lossy(b).to_string()
}

#[derive(Debug, Clone)]
pub struct ZipFile {
    pub header: CentralDirectoryHeader,
    pub data_start: u64,
    pub data_end: u64,
}

impl ZipFile {
    pub fn new(header: CentralDirectoryHeader, data_start: u64, data_end: u64) -> (r: Self)
        ensures
            r.header == header,
            r.data_start == data_start,
            r.data_end == data_end,
    {
        ZipFile { header, data_start, data_end }
    }

    pub fn name(&self) -> (r: String)
        ensures
            r@ == utf8_lossy_of(self.header.filename@),
    {
        lossy_text(self.header.filename.as_slice())
    }

    pub fn extra_field(&self) -> (r: &[u8])
        ensures
            r@ == self.header.extra_field@,
    {
        self.header.extra_field.as_slice()
    }

    pub fn header(&self) -> (r: &CentralDirectoryHeader)
        ensures
            *r == self.header,
    {
        &self.header
    }

    pub fn comments(&self) -> (r: String)
        ensures
            r@ == utf8_lossy_of(self.header.file_comment@),
    {
        lossy_text(self.header.file_comment.as_slice())
    }

    pub fn set_comments(&mut self, comment: &str)
        ensures
            final(self).header.file_comment@ == comment.spec_bytes(),
            final(self).header.filename == old(self).header.filename,
            final(self).header.extra_field == old(self).header.extra_field,
            final(self).data_start == old(self).data_start,
            final(self).data_end == old(self).data_end,
    {
        self.header.file_comment = crate::le::copy_bytes(comment.as_bytes());
    }

    /// The options that re-create the entry: its method with that method's
    /// default level, its time, attributes, extra field, sizes and CRC-32.
    pub fn options(&self) -> (r: FileOptions)
        ensures
            r.compression_method == self.header.compression,
            r.password.is_none(),
            r.compression_level == crate::options::default_level(self.header.compression),
            r.modification_time == Some((self.header.mod_time, self.header.mod_date)),
            r.external_attr == self.header.external_attr,
            r.extra_field@ == self.header.extra_field@,
            r.compress_size == self.header.compressed_size,
            r.uncompress_size == self.header.uncompressed_size as u64,
            r.crc32 == self.header.crc32,
            !r.compression_level_specified,
    {
        let mut o = FileOptions::new();
        o.compression_method = self.header.compression;
        o.password = None;
        o.compression_level = match self.header.compression {
            CompressionMethod::Stored => 0,
            CompressionMethod::Deflated => 6,
            CompressionMethod::Bzip2 => 9,
        };
        o.modification_time = Some((self.header.mod_time, self.header.mod_date));
        o.external_attr = self.header.external_attr;
        o.extra_field = crate::le::copy_bytes(self.header.extra_field.as_slice());
        o.compress_size = self.header.compressed_size;
        o.uncompress_size = self.header.uncompressed_size as u64;
        o.crc32 = self.header.crc32;
        o
    }

    pub fn is_dir(&self) -> (r: bool)
        ensures
            r == is_dir_spec(self.header),
    {
        let n = self.header.filename.len();
        self.header.external_attr & 0x10 != 0 || (n > 0 && self.header.filename[n - 1] == 0x2F)
    }

    pub fn encrypted(&self) -> (r: bool)
        ensures
            r == (self.header.flags & 1 != 0),
    {
        self.header.flags & ZIP_CRYPTO_FLAG != 0
    }

    /// The modification time that the entry's MS-DOS fields carry.
    pub fn last_modified_parts(&self) -> (r: DosDateTime)
        ensures
            r == dos_parts_spec(self.header.mod_time, self.header.mod_date),
    {
        from_dos_time_date(self.header.mod_time, self.header.mod_date)
    }

    pub fn origin_size(&self) -> (r: u64)
        ensures
            r == self.header.uncompressed_spec(),
    {
        self.header.get_uncompressed_size()
    }

    pub fn compressed_size(&self) -> (r: u64)
        ensures
            r == self.header.compressed_spec(),
    {
        self.header.get_compressed_size()
    }
}

} // verus!
