//! Compression pipeline: CRC-32 over the uncompressed bytes, Store / Deflate /
//! Bzip2 compression, the fallback to Store when Deflate expands the data,
//! and optional traditional encryption of the compressed payload.
use crate::error::ZipError;
use crate::le::copy_bytes;
use crate::options::LineEndingConversion;
use crate::zip::{CompressionMethod, ZIP_CRYPTO_FLAG};
use crate::zipcrypto::{encrypt_entry, encrypt_seq, password_keys};
use std::io::Write;
use vstd::prelude::*;
use vstd::string::StringSliceAdditionalSpecFns;

verus! {

/// The CRC-32 (IEEE, reflected) of a byte sequence, as crc32fast computes it.
pub uninterp spec fn crc32_of(data: Seq<u8>) -> u32;

/// The raw Deflate stream that flate2 produces for `data` at `level`.
pub uninterp spec fn deflate_of(data: Seq<u8>, level: u32) -> Seq<u8>;

/// The bzip2 stream that the bzip2 crate produces for `data` at `level`.
pub uninterp spec fn bzip2_of(data: Seq<u8>, level: u32) -> Seq<u8>;

/// Relies on crc32fast::hash: the CRC-32 of the bytes; the CRC of nothing is 0.
#[verifier::external_body]
fn crc32_hash(data: &[u8]) -> (r: u32)
    ensures
        r == crc32_of(data@),
        data@.len() == 0 ==> r == 0,
{
    crc32fast::hash(data)
}

/// Relies on flate2::write::DeflateEncoder writing into a Vec: the raw
/// Deflate stream of the bytes at the level. Its errors come only from the
/// inner writer, which a Vec never gives, or from a broken stream state,
/// which a fresh encoder does not have; so the result is always there.
#[verifier::external_body]
fn deflate_bytes(data: &[u8], level: u32) -> (r: Option<Vec<u8>>)
    requires
        level <= 9,
    ensures
        r is Some,
        r matches Some(v) ==> v@ == deflate_of(data@, level),
{
    let mut enc = flate2::write::DeflateEncoder::new(Vec::new(), flate2::Compression::new(level));
    match enc.write_all(data) {
        Ok(()) => enc.finish().ok(),
        Err(_) => None,
    }
}

/// Relies on bzip2::write::BzEncoder writing into a Vec: the bzip2 stream of
/// the bytes at the level, which must lie in 1..=9 (else bzip2 panics). Its
/// errors come only from the inner writer, which a Vec never gives; so the
/// result is always there.
#[verifier::external_body]
fn bzip2_bytes(data: &[u8], level: u32) -> (r: Option<Vec<u8>>)
    requires
        1 <= level <= 9,
    ensures
        r is Some,
        r matches Some(v) ==> v@ == bzip2_of(data@, level),
{
    let mut enc = bzip2::write::BzEncoder::new(Vec::new(), bzip2::Compression::new(level));
    match enc.write_all(data) {
        Ok(()) => enc.finish().ok(),
        Err(_) => None,
    }
}

/// The CRC-32 of `data`.
pub fn checksum(data: &[u8]) -> (r: u32)
    ensures
        r == crc32_of(data@),
        data@.len() == 0 ==> r == 0,
{
    crc32_hash(data)
}

/// Every LF preceded by a CR.
pub open spec fn lf_to_crlf(s: Seq<u8>) -> Seq<u8>
    decreases s.len(),
{
    if s.len() == 0 {
        Seq::empty()
    } else if s.last() == 10 {
        lf_to_crlf(s.drop_last()) + seq![13u8, 10u8]
    } else {
        lf_to_crlf(s.drop_last()).push(s.last())
    }
}

/// Every CR LF pair turned into LF, read from the front; a lone CR stays.
pub open spec fn crlf_to_lf(s: Seq<u8>) -> Seq<u8>
    decreases s.len(),
{
    if s.len() == 0 {
        Seq::empty()
    } else if s.len() >= 2 && s[0] == 13 && s[1] == 10 {
        seq![10u8] + crlf_to_lf(s.subrange(2, s.len() as int))
    } else {
        seq![s[0]] + crlf_to_lf(s.subrange(1, s.len() as int))
    }
}

/// The bytes after the line ending translation that the entry asks for.
pub open spec fn translated(s: Seq<u8>, conv: LineEndingConversion) -> Seq<u8> {
    match conv {
        LineEndingConversion::Unchanged => s,
        LineEndingConversion::LfToCrlf => lf_to_crlf(s),
        LineEndingConversion::CrlfToLf => crlf_to_lf(s),
    }
}

/// Whether the data is taken for text: it holds no NUL byte.
pub fn looks_like_text(data: &[u8]) -> (r: bool)
    ensures
        r == !data@.contains(0u8),
{
    let mut i: usize = 0;
    while i < data.len()
        invariant
            0 <= i <= data@.len(),
            forall|j: int| 0 <= j < i ==> data@[j] != 0u8,
        decreases data@.len() - i,
    {
        if data[i] == 0 {
            assert(data@[i as int] == 0u8);
            return false;
        }
        i = i + 1;
    }
    true
}

/// Translates line endings of a text file before it is checksummed and compressed.
pub fn translate_line_endings(data: &[u8], conv: LineEndingConversion) -> (r: Vec<u8>)
    ensures
        r@ == translated(data@, conv),
{
    match conv {
        LineEndingConversion::Unchanged => copy_bytes(data),
        LineEndingConversion::LfToCrlf => {
            let mut out: Vec<u8> = Vec::new();
            let mut i: usize = 0;
            while i < data.len()
                invariant
                    0 <= i <= data@.len(),
                    out@ == lf_to_crlf(data@.subrange(0, i as int)),
                decreases data@.len() - i,
            {
                assert(data@.subrange(0, i + 1).drop_last() =~= data@.subrange(0, i as int));
                if data[i] == 10 {
                    out.push(13);
                    out.push(10);
                    assert(out@ =~= lf_to_crlf(data@.subrange(0, i + 1)));
                } else {
                    out.push(data[i]);
                }
                i = i + 1;
            }
            assert(data@.subrange(0, data@.len() as int) =~= data@);
            out
        },
        LineEndingConversion::CrlfToLf => {
            let mut out: Vec<u8> = Vec::new();
            let n = data.len();
            let mut i: usize = 0;
            assert(data@.subrange(0, n as int) =~= data@);
            while i < n
                invariant
                    0 <= i <= n,
                    n == data@.len(),
                    out@ + crlf_to_lf(data@.subrange(i as int, n as int)) == crlf_to_lf(data@),
                decreases n - i,
            {
                let ghost rest = data@.subrange(i as int, n as int);
                if i + 1 < n && data[i] == 13 && data[i + 1] == 10 {
                    assert(rest.subrange(2, rest.len() as int) =~= data@.subrange(i + 2, n as int));
                    assert(out@.push(10) + crlf_to_lf(data@.subrange(i + 2, n as int)) =~= out@ + crlf_to_lf(rest));
                    out.push(10);
                    i = i + 2;
                } else {
                    assert(rest.subrange(1, rest.len() as int) =~= data@.subrange(i + 1, n as int));
                    assert(out@.push(data@[i as int]) + crlf_to_lf(data@.subrange(i + 1, n as int)) =~= out@ + crlf_to_lf(rest));
                    out.push(data[i]);
                    i = i + 1;
                }
            }
            assert(data@.subrange(n as int, n as int) =~= Seq::<u8>::empty());
            assert(out@ + Seq::<u8>::empty() =~= out@);
            out
        },
    }
}

/// The encoder level that a requested level gives for Deflate (0..=9).
pub open spec fn deflate_level(level: u32) -> u32 {
    if level > 9 {
        9
    } else {
        level
    }
}

/// The encoder level that a requested level gives for bzip2 (1..=9).
pub open spec fn bzip2_level(level: u32) -> u32 {
    if level < 1 {
        1
    } else if level > 9 {
        9
    } else {
        level
    }
}

/// Method and payload of an entry before encryption: the requested method's
/// output, except that Deflate output longer than the data falls back to
/// the data itself, stored, unless the level was asked for explicitly.
pub open spec fn plain_payload(
    data: Seq<u8>,
    method: CompressionMethod,
    level: u32,
    level_specified: bool,
) -> (CompressionMethod, Seq<u8>) {
    match method {
        CompressionMethod::Stored => (CompressionMethod::Stored, data),
        CompressionMethod::Deflated => {
            let d = deflate_of(data, deflate_level(level));
            if d.len() > data.len() && !level_specified {
                (CompressionMethod::Stored, data)
            } else {
                (CompressionMethod::Deflated, d)
            }
        },
        CompressionMethod::Bzip2 => (CompressionMethod::Bzip2, bzip2_of(data, bzip2_level(level))),
    }
}

/// An entry's data as it goes into the archive, with its accounting.
#[derive(Debug, Clone)]
pub struct CompressedEntry {
    pub method: CompressionMethod,
    pub flags: u16,
    pub crc32: u32,
    pub uncompressed_size: u64,
    pub compressed_size: u64,
    pub data: Vec<u8>,
}

/// Runs one entry's bytes through the pipeline. `random` supplies the
/// eleven random bytes of the encryption header when a password is given.
pub fn compress_entry(
    data: &[u8],
    method: CompressionMethod,
    level: u32,
    level_specified: bool,
    password: Option<&str>,
    random: &[u8],
) -> (r: Result<CompressedEntry, ZipError>)
    requires
        password.is_some() ==> random@.len() == 11,
    ensures
        r is Ok,
        r matches Ok(e) ==> {
            let (m, p) = plain_payload(data@, method, level, level_specified);
            &&& e.method == m
            &&& e.crc32 == crc32_of(data@)
            &&& e.uncompressed_size == data@.len()
            &&& e.compressed_size == e.data@.len()
            &&& match password {
                None => e.flags == 0 && e.data@ == p,
                Some(pw) => e.flags == ZIP_CRYPTO_FLAG && e.data@ == encrypt_seq(
                    password_keys(pw.spec_bytes()),
                    random@.push(((crc32_of(data@) >> 24) & 0xff) as u8) + p,
                ),
            }
        },
{
    let crc = crc32_hash(data);
    let (m, plain): (CompressionMethod, Vec<u8>) = match method {
        CompressionMethod::Stored => (CompressionMethod::Stored, copy_bytes(data)),
        CompressionMethod::Deflated => {
            let lvl = if level > 9 { 9 } else { level };
            match deflate_bytes(data, lvl) {
                Some(d) => {
                    if d.len() > data.len() && !level_specified {
                        (CompressionMethod::Stored, copy_bytes(data))
                    } else {
                        (CompressionMethod::Deflated, d)
                    }
                },
                None => {
                    return Err(ZipError::Io("deflate encoder failed".to_string()));
                },
            }
        },
        CompressionMethod::Bzip2 => {
            let lvl = if level < 1 {
                1
            } else if level > 9 {
                9
            } else {
                level
            };
            match bzip2_bytes(data, lvl) {
                Some(d) => (CompressionMethod::Bzip2, d),
                None => {
                    return Err(ZipError::Io("bzip2 encoder failed".to_string()));
                },
            }
        },
    };
    let (flags, out): (u16, Vec<u8>) = match password {
        None => (0, plain),
        Some(pw) => {
            let check = ((crc >> 24) & 0xff) as u8;
            (ZIP_CRYPTO_FLAG, encrypt_entry(pw, random, check, plain.as_slice()))
        },
    };
    Ok(
        CompressedEntry {
            method: m,
            flags,
            crc32: crc,
            uncompressed_size: data.len() as u64,
            compressed_size: out.len() as u64,
            data: out,
        },
    )
}

/// Automatic Store: when Deflate at the default level would make the data
/// longer, the entry is stored, and its compressed size equals its size.
pub proof fn lemma_auto_store(data: Seq<u8>, level: u32)
    requires
        deflate_of(data, deflate_level(level)).len() > data.len(),
    ensures
        plain_payload(data, CompressionMethod::Deflated, level, false).0 == CompressionMethod::Stored,
        plain_payload(data, CompressionMethod::Deflated, level, false).1 == data,
        plain_payload(data, CompressionMethod::Deflated, level, false).1.len() == data.len(),
{
}

} // verus!
