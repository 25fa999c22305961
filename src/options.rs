//! Per-entry options: method, level, password, times, attributes and the
//! suffixes that are stored without compression.
use crate::le::{push_u16, push_u32, u16_le, u32_le};
use crate::zip::CompressionMethod;
use vstd::prelude::*;
use vstd::string::StrSliceExecFns;
use vstd::string::StringSliceAdditionalSpecFns;

verus! {

/// Line ending translation applied to text files.
#[derive(Debug, Clone, Copy, PartialEq, Eq, Structural, Default)]
pub enum LineEndingConversion {
    #[default]
    Unchanged,
    LfToCrlf,
    CrlfToLf,
}

/// What the file system says of a file that is about to become an entry.
#[derive(Debug, Clone)]
pub struct FileInfo {
    /// MS-DOS time and date of the last modification.
    pub dos_time: u16,
    pub dos_date: u16,
    /// Seconds since the Unix epoch of the last modification.
    pub unix_mtime: u32,
    /// Unix mode bits (file type and permissions).
    pub mode: u32,
    pub is_dir: bool,
    pub is_file: bool,
    /// The file name's extension, without or with its leading dot.
    pub extension: Option<String>,
    pub size: u64,
    pub crc32: u32,
}

#[derive(Debug, Clone, Default)]
pub struct FileOptions {
    pub compression_method: CompressionMethod,
    pub password: Option<String>,
    pub compression_level: u32,
    pub modification_time: Option<(u16, u16)>,
    pub convert_lf_to_crlf: bool,
    pub convert_crlf_to_lf: bool,
    pub external_attr: u32,
    pub extra_field: Vec<u8>,
    pub no_extra_field: bool,
    pub store_symlinks: bool,
    /// Suffixes, with their leading dot, whose files are stored.
    pub no_compress_extensions: Vec<String>,
    pub skip_compression: bool,
    pub compress_size: u32,
    pub uncompress_size: u64,
    pub crc32: u32,
    /// Whether the level was asked for explicitly; an explicit level is
    /// neither adapted to the file size nor replaced by automatic Store.
    pub compression_level_specified: bool,
}

/// The level that a method brings when no level was asked for.
pub open spec fn default_level(method: CompressionMethod) -> u32 {
    match method {
        CompressionMethod::Stored => 0,
        CompressionMethod::Deflated => 6,
        CompressionMethod::Bzip2 => 9,
    }
}

/// The Deflate level for a file of `size` bytes when no level was asked for.
pub open spec fn level_for_size(size: u64) -> u32 {
    if size <= 1024 {
        1
    } else if size <= 10240 {
        2
    } else if size <= 102400 {
        3
    } else {
        6
    }
}

/// External attributes: Unix mode in the upper half, DOS directory (0x10)
/// or archive (0x20) bit in the lower.
pub open spec fn file_attributes_spec(mode: u32, is_dir: bool) -> u32 {
    (((mode & 0xFFFF) as u32) << 16) | (if is_dir { 0x10u32 } else { 0x20u32 })
}

pub fn file_attributes(mode: u32, is_dir: bool) -> (r: u32)
    ensures
        r == file_attributes_spec(mode, is_dir),
{
    ((mode & 0xFFFF) << 16) | if is_dir {
        0x10u32
    } else {
        0x20u32
    }
}

/// The extended timestamp extra field (tag 0x5455) with the modification time only.
pub open spec fn ut_extra_spec(mtime: u32) -> Seq<u8> {
    u16_le(0x5455) + u16_le(5) + seq![1u8] + u32_le(mtime)
}

pub fn ut_extra_field(mtime: u32) -> (r: Vec<u8>)
    ensures
        r@ == ut_extra_spec(mtime),
{
    let mut field: Vec<u8> = Vec::new();
    push_u16(&mut field, 0x5455);
    push_u16(&mut field, 5);
    field.push(1);
    push_u32(&mut field, mtime);
    assert(field@ =~= ut_extra_spec(mtime));
    field
}

/// The timestamps that an extended timestamp payload holds: flags, then
/// the modification, access and creation times whose flag bits (0, 1, 2)
/// are set, four bytes each; the modification time must be there.
pub open spec fn ut_times_spec(p: Seq<u8>) -> Option<(u32, Option<u32>, Option<u32>)> {
    let has_a = p.len() > 0 && p[0] & 2 != 0;
    let has_c = p.len() > 0 && p[0] & 4 != 0;
    let a_at: int = 5;
    let c_at: int = if has_a { 9 } else { 5 };
    let need: int = c_at + if has_c { 4int } else { 0int };
    if p.len() == 0 || p[0] & 1 == 0 || p.len() < need {
        None
    } else {
        Some((
            crate::le::get_u32(p, 1),
            if has_a { Some(crate::le::get_u32(p, a_at)) } else { None },
            if has_c { Some(crate::le::get_u32(p, c_at)) } else { None },
        ))
    }
}

/// Reads the payload of an extended timestamp field (tag 0x5455).
pub fn parse_ut_times(p: &[u8]) -> (r: Option<(u32, Option<u32>, Option<u32>)>)
    ensures
        r == ut_times_spec(p@),
{
    let n = p.len();
    if n == 0 || p[0] & 1 == 0 {
        return None;
    }
    let has_a = p[0] & 2 != 0;
    let has_c = p[0] & 4 != 0;
    let c_at: usize = if has_a { 9 } else { 5 };
    let need: usize = c_at + if has_c { 4 } else { 0 };
    if n < need {
        return None;
    }
    let m = crate::le::read_u32(p, 1);
    let a = if has_a { Some(crate::le::read_u32(p, 5)) } else { None };
    let c = if has_c { Some(crate::le::read_u32(p, c_at)) } else { None };
    Some((m, a, c))
}

/// The Unicode path extra field (tag 0x7075): version 1, the CRC-32 of the
/// name as stored in the header, then the name in UTF-8.
pub open spec fn unicode_path_spec(name_crc: u32, utf8: Seq<u8>) -> Seq<u8> {
    u16_le(0x7075) + u16_le((5 + utf8.len()) as u16) + seq![1u8] + u32_le(name_crc) + utf8
}

pub fn unicode_path_field(raw_name: &[u8], utf8_name: &str) -> (r: Vec<u8>)
    requires
        utf8_name.spec_bytes().len() + 5 <= 0xFFFF,
    ensures
        r@ == unicode_path_spec(crate::pipeline::crc32_of(raw_name@), utf8_name.spec_bytes()),
{
    let utf8 = utf8_name.as_bytes();
    let mut field: Vec<u8> = Vec::new();
    push_u16(&mut field, 0x7075);
    push_u16(&mut field, (5 + utf8.len()) as u16);
    field.push(1);
    push_u32(&mut field, crate::pipeline::checksum(raw_name));
    crate::le::push_bytes(&mut field, utf8);
    assert(field@ =~= unicode_path_spec(crate::pipeline::crc32_of(raw_name@), utf8_name.spec_bytes()));
    field
}

/// The suffix that an extension names: the extension with a leading dot.
pub open spec fn dotted(ext: Seq<char>) -> Seq<char> {
    if ext.len() > 0 && ext[0] == '.' {
        ext
    } else {
        seq!['.'] + ext
    }
}

/// Whether `s` spells the suffix of extension `ext`.
fn is_suffix_of_ext(s: &str, ext: &str) -> (r: bool)
    ensures
        r == (s@ == dotted(ext@)),
{
    let n = s.unicode_len();
    let m = ext.unicode_len();
    let dot = m > 0 && ext.get_char(0) == '.';
    let ghost d = dotted(ext@);
    let shift: usize = if dot { 0 } else { 1 };
    if dot {
        if m != n {
            return false;
        }
    } else if m >= n || m + 1 != n {
        return false;
    }
    if !dot {
        if s.get_char(0) != '.' {
            assert(s@[0] != d[0]);
            return false;
        }
    }
    let mut i: usize = 0;
    while i < m
        invariant
            0 <= i <= m,
            m == ext@.len(),
            n == s@.len(),
            m + shift == n,
            shift == (if dot { 0usize } else { 1usize }),
            d == dotted(ext@),
            d.len() == n,
            forall|j: int| 0 <= j < i + shift ==> s@[j] == d[j],
        decreases m - i,
    {
        if s.get_char(i + shift) != ext.get_char(i) {
            assert(s@[i + shift] != d[i + shift]);
            return false;
        }
        i = i + 1;
    }
    assert(s@ =~= d);
    true
}

/// Whether a suffix of the list names extension `ext`.
pub open spec fn suffix_listed(list: Seq<String>, ext: Seq<char>) -> bool {
    exists|i: int| 0 <= i < list.len() && #[trigger] list[i]@ == dotted(ext)
}

impl FileOptions {
    /// The options with every field but the method and level as `self` has them.
    pub open spec fn with_method_spec(self, method: CompressionMethod) -> FileOptions {
        FileOptions {
            compression_method: method,
            compression_level: if self.compression_level_specified {
                self.compression_level
            } else {
                default_level(method)
            },
            ..self
        }
    }

    pub open spec fn optimized_spec(self, size: u64) -> FileOptions {
        if self.compression_level_specified {
            self
        } else {
            FileOptions { compression_level: level_for_size(size), ..self }
        }
    }

    pub fn new() -> (r: Self)
        ensures
            r.compression_method == CompressionMethod::Deflated,
            r.password.is_none(),
            r.compression_level == 6,
            r.modification_time.is_none(),
            !r.convert_lf_to_crlf && !r.convert_crlf_to_lf,
            r.external_attr == 0,
            r.extra_field@.len() == 0,
            !r.no_extra_field && !r.store_symlinks && !r.skip_compression,
            r.compress_size == 0 && r.uncompress_size == 0 && r.crc32 == 0,
            !r.compression_level_specified,
            r.no_compress_extensions@.len() == 5,
            r.no_compress_extensions@[0]@ == ".zip"@,
            r.no_compress_extensions@[1]@ == ".Z"@,
            r.no_compress_extensions@[2]@ == ".zoo"@,
            r.no_compress_extensions@[3]@ == ".arc"@,
            r.no_compress_extensions@[4]@ == ".arj"@,
    {
        let mut suffixes: Vec<String> = Vec::new();
        suffixes.push(".zip".to_string());
        suffixes.push(".Z".to_string());
        suffixes.push(".zoo".to_string());
        suffixes.push(".arc".to_string());
        suffixes.push(".arj".to_string());
        FileOptions {
            compression_method: CompressionMethod::Deflated,
            password: None,
            compression_level: 6,
            modification_time: None,
            convert_lf_to_crlf: false,
            convert_crlf_to_lf: false,
            external_attr: 0,
            extra_field: Vec::new(),
            no_extra_field: false,
            store_symlinks: false,
            no_compress_extensions: suffixes,
            skip_compression: false,
            compress_size: 0,
            uncompress_size: 0,
            crc32: 0,
            compression_level_specified: false,
        }
    }

    /// The translation for a file: none for binary files, else the one the
    /// options ask for, LF to CRLF first.
    pub fn get_line_ending_conversion(&mut self, is_text: bool) -> (r: LineEndingConversion)
        ensures
            *final(self) == *old(self),
            r == (if !is_text {
                LineEndingConversion::Unchanged
            } else if old(self).convert_lf_to_crlf {
                LineEndingConversion::LfToCrlf
            } else if old(self).convert_crlf_to_lf {
                LineEndingConversion::CrlfToLf
            } else {
                LineEndingConversion::Unchanged
            }),
    {
        if !is_text {
            return LineEndingConversion::Unchanged;
        }
        if self.convert_lf_to_crlf {
            LineEndingConversion::LfToCrlf
        } else if self.convert_crlf_to_lf {
            LineEndingConversion::CrlfToLf
        } else {
            LineEndingConversion::Unchanged
        }
    }

    pub fn with_password(&mut self, password: &str)
        ensures
            final(self).password matches Some(p) && p@ == password@,
            *final(self) == (FileOptions { password: final(self).password, ..*old(self) }),
    {
        self.password = Some(password.to_string());
    }

    pub fn with_skip_compression(&mut self, skip: bool)
        ensures
            *final(self) == (FileOptions { skip_compression: skip, ..*old(self) }),
    {
        self.skip_compression = skip;
    }

    /// Sets the method; without an explicit level the method's default
    /// level comes with it (0 for Store, 6 for Deflate, 9 for bzip2).
    pub fn with_compression(&mut self, method: CompressionMethod)
        ensures
            *final(self) == old(self).with_method_spec(method),
    {
        self.compression_method = method;
        if !self.compression_level_specified {
            self.compression_level = match method {
                CompressionMethod::Stored => 0,
                CompressionMethod::Deflated => 6,
                CompressionMethod::Bzip2 => 9,
            };
        }
    }

    /// Sets an explicit level.
    pub fn with_compression_level(&mut self, level: u32)
        ensures
            *final(self) == (FileOptions {
                compression_level: level,
                compression_level_specified: true,
                ..*old(self)
            }),
    {
        self.compression_level = level;
        self.compression_level_specified = true;
    }

    /// Adapts the level to the file size unless a level was asked for:
    /// up to 1 KiB level 1, up to 10 KiB level 2, up to 100 KiB level 3,
    /// else level 6.
    pub fn optimize_compression_level_for_size(&mut self, file_size: u64)
        ensures
            *final(self) == old(self).optimized_spec(file_size),
    {
        if self.compression_level_specified {
            return;
        }
        self.compression_level = if file_size <= 1024 {
            1
        } else if file_size <= 10240 {
            2
        } else if file_size <= 102400 {
            3
        } else {
            6
        };
    }

    pub fn with_modification_time(&mut self, time: (u16, u16))
        ensures
            *final(self) == (FileOptions { modification_time: Some(time), ..*old(self) }),
    {
        self.modification_time = Some(time);
    }

    pub fn with_file_attrs(&mut self, mode: u32, is_dir: bool)
        ensures
            *final(self) == (FileOptions {
                external_attr: file_attributes_spec(mode, is_dir),
                ..*old(self)
            }),
    {
        self.external_attr = file_attributes(mode, is_dir);
    }

    pub fn set_ut_extra_field(&mut self, mtime: u32)
        ensures
            final(self).extra_field@ == ut_extra_spec(mtime),
            *final(self) == (FileOptions { extra_field: final(self).extra_field, ..*old(self) }),
    {
        self.extra_field = ut_extra_field(mtime);
    }

    /// Whether the suffix list names extension `ext`.
    pub fn is_no_compress_extension(&self, ext: &str) -> (r: bool)
        ensures
            r == suffix_listed(self.no_compress_extensions@, ext@),
    {
        let mut i: usize = 0;
        while i < self.no_compress_extensions.len()
            invariant
                0 <= i <= self.no_compress_extensions@.len(),
                forall|j: int|
                    0 <= j < i ==> #[trigger] self.no_compress_extensions@[j]@ != dotted(ext@),
            decreases self.no_compress_extensions@.len() - i,
        {
            if is_suffix_of_ext(self.no_compress_extensions[i].as_str(), ext) {
                return true;
            }
            i = i + 1;
        }
        false
    }

    /// Takes in what the file system says of the file: its time, extended
    /// timestamp (unless extra fields are off), attributes, Store for
    /// directories and listed suffixes, and for a regular file its size,
    /// CRC-32 and, under Deflate, the level adapted to its size.
    pub fn set_file_info(&mut self, info: &FileInfo)
        ensures
            final(self).modification_time == Some((info.dos_time, info.dos_date)),
            !old(self).no_extra_field ==> final(self).extra_field@ == ut_extra_spec(info.unix_mtime),
            old(self).no_extra_field ==> final(self).extra_field == old(self).extra_field,
            final(self).external_attr == file_attributes_spec(info.mode, info.is_dir),
            ({
                let stored = info.is_dir || (info.extension matches Some(e) && suffix_listed(
                    old(self).no_compress_extensions@,
                    e@,
                ));
                let m = if stored { CompressionMethod::Stored } else { old(self).compression_method };
                let l0 = if stored && !old(self).compression_level_specified {
                    0
                } else {
                    old(self).compression_level
                };
                &&& final(self).compression_method == m
                &&& final(self).compression_level == if info.is_file && m
                    == CompressionMethod::Deflated && !old(self).compression_level_specified {
                    level_for_size(info.size)
                } else {
                    l0
                }
            }),
            info.is_file ==> final(self).uncompress_size == info.size && final(self).crc32 == info.crc32,
            !info.is_file ==> final(self).uncompress_size == old(self).uncompress_size
                && final(self).crc32 == old(self).crc32,
            *final(self) == (FileOptions {
                modification_time: final(self).modification_time,
                extra_field: final(self).extra_field,
                external_attr: final(self).external_attr,
                compression_method: final(self).compression_method,
                compression_level: final(self).compression_level,
                uncompress_size: final(self).uncompress_size,
                crc32: final(self).crc32,
                ..*old(self)
            }),
    {
        self.with_modification_time((info.dos_time, info.dos_date));
        if !self.no_extra_field {
            self.set_ut_extra_field(info.unix_mtime);
        }
        self.with_file_attrs(info.mode, info.is_dir);
        if info.is_dir {
            self.with_compression(CompressionMethod::Stored);
        }
        match &info.extension {
            Some(e) => {
                if self.is_no_compress_extension(e.as_str()) {
                    self.with_compression(CompressionMethod::Stored);
                }
            },
            None => {},
        }
        if info.is_file {
            self.uncompress_size = info.size;
            self.crc32 = info.crc32;
            if self.compression_method == CompressionMethod::Deflated {
                self.optimize_compression_level_for_size(info.size);
            }
        }
    }
}

} // verus!
