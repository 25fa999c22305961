//! Fix mode: which entries of a damaged archive can be kept. The normal fix
//! keeps central directory entries whose local header agrees with them; the
//! full fix scans the bytes for plausible local headers.
use crate::le::{get_u16, get_u32, read_u16, read_u32};
use crate::reader::local_data_range;
use crate::records::LOCAL_HEADER_SIG;
use crate::zip::CentralDirectoryHeader;
use vstd::prelude::*;

verus! {

/// Whether the local header that `h` points to is whole and agrees with it:
/// same name, and, unless the sizes follow in a descriptor, the same CRC-32
/// and size slots.
pub open spec fn local_agrees(a: Seq<u8>, h: CentralDirectoryHeader) -> bool {
    let off = h.offset_spec() as int;
    &&& local_data_range(a, off, h.compressed_spec() as int) is Some
    &&& get_u16(a, off + 26) == h.filename@.len()
    &&& a.subrange(off + 30, off + 30 + h.filename@.len()) == h.filename@
    &&& (h.flags & 8 == 0 ==> {
        &&& get_u32(a, off + 14) == h.crc32
        &&& get_u32(a, off + 18) == h.compressed_size
        &&& get_u32(a, off + 22) == h.uncompressed_size
    })
}

fn bytes_equal_at(a: &[u8], at: usize, b: &[u8]) -> (r: bool)
    requires
        at + b@.len() <= a@.len(),
    ensures
        r == (a@.subrange(at as int, at + b@.len()) == b@),
{
    // Taking the length bounds it by usize::MAX for the index arithmetic below.
    let _n = a.len();
    let mut i: usize = 0;
    while i < b.len()
        invariant
            0 <= i <= b@.len(),
            at + b@.len() <= a@.len(),
            a@.len() <= usize::MAX,
            forall|j: int| 0 <= j < i ==> a@[at + j] == b@[j],
        decreases b@.len() - i,
    {
        if a[at + i] != b[i] {
            assert(a@.subrange(at as int, at + b@.len())[i as int] != b@[i as int]);
            return false;
        }
        i = i + 1;
    }
    assert(a@.subrange(at as int, at + b@.len()) =~= b@);
    true
}

pub fn local_matches_central(a: &[u8], h: &CentralDirectoryHeader) -> (r: bool)
    ensures
        r == local_agrees(a@, *h),
{
    let off = h.get_local_header_offset();
    let c = h.get_compressed_size();
    let len = a.len();
    if off > len as u64 || (len as u64) - off < 30 {
        return false;
    }
    let o = off as usize;
    if read_u32(a, o) != LOCAL_HEADER_SIG {
        return false;
    }
    let n = read_u16(a, o + 26) as usize;
    let e = read_u16(a, o + 28) as usize;
    if len - o - 30 < n + e || ((len - o - 30 - n - e) as u64) < c {
        return false;
    }
    if n != h.filename.len() {
        return false;
    }
    if !bytes_equal_at(a, o + 30, h.filename.as_slice()) {
        return false;
    }
    if h.flags & 8 == 0 {
        read_u32(a, o + 14) == h.crc32 && read_u32(a, o + 18) == h.compressed_size && read_u32(a, o + 22)
            == h.uncompressed_size
    } else {
        true
    }
}

/// The indices among the first `n` headers whose local header agrees.
pub open spec fn agreeing_upto(a: Seq<u8>, hs: Seq<CentralDirectoryHeader>, n: int) -> Seq<usize>
    decreases n,
{
    if n <= 0 {
        Seq::empty()
    } else if local_agrees(a, hs[n - 1]) {
        agreeing_upto(a, hs, n - 1).push((n - 1) as usize)
    } else {
        agreeing_upto(a, hs, n - 1)
    }
}

/// The normal fix: the entries, in order, whose local header can be read and
/// agrees with the central directory.
pub fn fix_normal_select(a: &[u8], hs: &Vec<CentralDirectoryHeader>) -> (r: Vec<usize>)
    ensures
        r@ == agreeing_upto(a@, hs@, hs@.len() as int),
{
    let mut r: Vec<usize> = Vec::new();
    let mut i: usize = 0;
    while i < hs.len()
        invariant
            0 <= i <= hs@.len(),
            r@ == agreeing_upto(a@, hs@, i as int),
        decreases hs@.len() - i,
    {
        if local_matches_central(a, &hs[i]) {
            r.push(i);
        }
        i = i + 1;
    }
    r
}

/// Whether a plausible local header starts at `p`: signature, name and extra
/// field inside the file, the data of a stored entry with known size too,
/// and, when `listed` is not empty, a central directory record pointing there.
pub open spec fn candidate_at(a: Seq<u8>, p: int, listed: Seq<u64>) -> bool {
    let n = get_u16(a, p + 26) as int;
    let e = get_u16(a, p + 28) as int;
    let stored_known = get_u16(a, p + 8) == 0 && get_u16(a, p + 6) & 8 == 0;
    &&& p + 30 <= a.len()
    &&& get_u32(a, p) == LOCAL_HEADER_SIG
    &&& p + 30 + n + e <= a.len()
    &&& (stored_known ==> p + 30 + n + e + get_u32(a, p + 18) <= a.len())
    &&& (listed.len() > 0 ==> listed.contains(p as u64))
}

/// The candidate positions below `n`, in order.
pub open spec fn candidates_upto(a: Seq<u8>, listed: Seq<u64>, n: int) -> Seq<usize>
    decreases n,
{
    if n <= 0 {
        Seq::empty()
    } else if candidate_at(a, n - 1, listed) {
        candidates_upto(a, listed, n - 1).push((n - 1) as usize)
    } else {
        candidates_upto(a, listed, n - 1)
    }
}

fn listed_contains(listed: &Vec<u64>, p: u64) -> (r: bool)
    ensures
        r == listed@.contains(p),
{
    let mut i: usize = 0;
    while i < listed.len()
        invariant
            0 <= i <= listed@.len(),
            forall|j: int| 0 <= j < i ==> listed@[j] != p,
        decreases listed@.len() - i,
    {
        if listed[i] == p {
            assert(listed@[i as int] == p);
            return true;
        }
        i = i + 1;
    }
    false
}

fn is_candidate(a: &[u8], p: usize, listed: &Vec<u64>) -> (r: bool)
    ensures
        r == candidate_at(a@, p as int, listed@),
{
    let len = a.len();
    if p > len || len - p < 30 {
        return false;
    }
    if read_u32(a, p) != LOCAL_HEADER_SIG {
        return false;
    }
    let n = read_u16(a, p + 26) as usize;
    let e = read_u16(a, p + 28) as usize;
    if len - p - 30 < n + e {
        return false;
    }
    if read_u16(a, p + 8) == 0 && read_u16(a, p + 6) & 8 == 0 {
        let c = read_u32(a, p + 18) as usize;
        if len - p - 30 - n - e < c {
            return false;
        }
    }
    if listed.len() > 0 {
        return listed_contains(listed, p as u64);
    }
    true
}

/// The full fix: every position where a plausible local header starts.
pub fn scan_local_headers(a: &[u8], listed: &Vec<u64>) -> (r: Vec<usize>)
    ensures
        r@ == candidates_upto(a@, listed@, a@.len() as int),
{
    let mut r: Vec<usize> = Vec::new();
    let mut p: usize = 0;
    while p < a.len()
        invariant
            0 <= p <= a@.len(),
            r@ == candidates_upto(a@, listed@, p as int),
        decreases a@.len() - p,
    {
        if is_candidate(a, p, listed) {
            r.push(p);
        }
        p = p + 1;
    }
    r
}

} // verus!
