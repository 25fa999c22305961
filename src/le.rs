//! Little-endian integer encoding, the byte order of every ZIP record.
use vstd::prelude::*;

verus! {

/// The two bytes of `x`, low byte first.
pub open spec fn u16_le(x: u16) -> Seq<u8> {
    seq![(x & 0xff) as u8, ((x >> 8) & 0xff) as u8]
}

/// The four bytes of `x`, low byte first.
pub open spec fn u32_le(x: u32) -> Seq<u8> {
    seq![
        (x & 0xff) as u8,
        ((x >> 8) & 0xff) as u8,
        ((x >> 16) & 0xff) as u8,
        ((x >> 24) & 0xff) as u8,
    ]
}

/// The eight bytes of `x`, low byte first.
pub open spec fn u64_le(x: u64) -> Seq<u8> {
    u32_le((x & 0xffff_ffff) as u32) + u32_le((x >> 32) as u32)
}

/// The 16-bit value stored little-endian at `s[i..i + 2]`.
#[verifier::opaque]
pub open spec fn get_u16(s: Seq<u8>, i: int) -> u16 {
    ((s[i] as u16) | ((s[i + 1] as u16) << 8)) as u16
}

/// The 32-bit value stored little-endian at `s[i..i + 4]`.
#[verifier::opaque]
pub open spec fn get_u32(s: Seq<u8>, i: int) -> u32 {
    ((s[i] as u32) | ((s[i + 1] as u32) << 8) | ((s[i + 2] as u32) << 16) | ((s[i + 3] as u32)
        << 24)) as u32
}

/// The 64-bit value stored little-endian at `s[i..i + 8]`.
#[verifier::opaque]
pub open spec fn get_u64(s: Seq<u8>, i: int) -> u64 {
    ((get_u32(s, i) as u64) | ((get_u32(s, i + 4) as u64) << 32)) as u64
}

pub proof fn lemma_u16_le(s: Seq<u8>, i: int, x: u16)
    requires
        0 <= i,
        i + 2 <= s.len(),
        s.subrange(i, i + 2) == u16_le(x),
    ensures
        get_u16(s, i) == x,
{
    reveal(get_u16);
    assert(s[i] == s.subrange(i, i + 2)[0]);
    assert(s[i + 1] == s.subrange(i, i + 2)[1]);
    let b0 = x & 0xff;
    let b1 = (x >> 8) & 0xff;
    assert(b0 < 256 && b1 < 256 && x == b0 | (b1 << 8)) by (bit_vector)
        requires
            b0 == x & 0xff,
            b1 == (x >> 8) & 0xff,
    ;
}

pub proof fn lemma_u32_le(s: Seq<u8>, i: int, x: u32)
    requires
        0 <= i,
        i + 4 <= s.len(),
        s.subrange(i, i + 4) == u32_le(x),
    ensures
        get_u32(s, i) == x,
{
    reveal(get_u32);
    assert(s[i] == s.subrange(i, i + 4)[0]);
    assert(s[i + 1] == s.subrange(i, i + 4)[1]);
    assert(s[i + 2] == s.subrange(i, i + 4)[2]);
    assert(s[i + 3] == s.subrange(i, i + 4)[3]);
    let b0 = x & 0xff;
    let b1 = (x >> 8) & 0xff;
    let b2 = (x >> 16) & 0xff;
    let b3 = (x >> 24) & 0xff;
    assert(b0 < 256 && b1 < 256 && b2 < 256 && b3 < 256 && x == b0 | (b1 << 8) | (b2 << 16) | (b3
        << 24)) by (bit_vector)
        requires
            b0 == x & 0xff,
            b1 == (x >> 8) & 0xff,
            b2 == (x >> 16) & 0xff,
            b3 == (x >> 24) & 0xff,
    ;
}

pub proof fn lemma_u64_le(s: Seq<u8>, i: int, x: u64)
    requires
        0 <= i,
        i + 8 <= s.len(),
        s.subrange(i, i + 8) == u64_le(x),
    ensures
        get_u64(s, i) == x,
{
    reveal(get_u64);
    let lo = (x & 0xffff_ffff) as u32;
    let hi = (x >> 32) as u32;
    assert(s.subrange(i, i + 4) == s.subrange(i, i + 8).subrange(0, 4));
    assert(s.subrange(i + 4, i + 8) == s.subrange(i, i + 8).subrange(4, 8));
    assert(u64_le(x).subrange(0, 4) == u32_le(lo));
    assert(u64_le(x).subrange(4, 8) == u32_le(hi));
    lemma_u32_le(s, i, lo);
    lemma_u32_le(s, i + 4, hi);
    let l = x & 0xffff_ffff;
    let h = x >> 32;
    assert(l < 0x1_0000_0000 && h < 0x1_0000_0000 && x == l | (h << 32)) by (bit_vector)
        requires
            l == x & 0xffff_ffff,
            h == x >> 32,
    ;
}

/// Reading inside a sequence does not depend on what precedes or follows.
pub proof fn lemma_get_shift(pre: Seq<u8>, s: Seq<u8>, post: Seq<u8>, i: int)
    requires
        0 <= i,
        i + 8 <= s.len(),
    ensures
        get_u16(pre + s + post, pre.len() + i) == get_u16(s, i),
        get_u32(pre + s + post, pre.len() + i) == get_u32(s, i),
        get_u64(pre + s + post, pre.len() + i) == get_u64(s, i),
{
    reveal(get_u16);
    reveal(get_u32);
    reveal(get_u64);
    let t = pre + s + post;
    assert(t[pre.len() + i] == s[i]);
    assert(t[pre.len() + i + 1] == s[i + 1]);
    assert(t[pre.len() + i + 2] == s[i + 2]);
    assert(t[pre.len() + i + 3] == s[i + 3]);
    assert(t[pre.len() + i + 4 + 0] == s[i + 4 + 0]);
    assert(t[pre.len() + i + 4 + 1] == s[i + 4 + 1]);
    assert(t[pre.len() + i + 4 + 2] == s[i + 4 + 2]);
    assert(t[pre.len() + i + 4 + 3] == s[i + 4 + 3]);
}

/// Reading a 16- or 32-bit value near the end of a sequence.
pub proof fn lemma_get_shift_short(pre: Seq<u8>, s: Seq<u8>, post: Seq<u8>, i: int)
    requires
        0 <= i,
        i + 4 <= s.len(),
    ensures
        get_u16(pre + s + post, pre.len() + i) == get_u16(s, i),
        get_u32(pre + s + post, pre.len() + i) == get_u32(s, i),
{
    reveal(get_u16);
    reveal(get_u32);
    let t = pre + s + post;
    assert(t[pre.len() + i] == s[i]);
    assert(t[pre.len() + i + 1] == s[i + 1]);
    assert(t[pre.len() + i + 2] == s[i + 2]);
    assert(t[pre.len() + i + 3] == s[i + 3]);
}

/// Reading a 16-bit value inside a sequence.
pub proof fn lemma_get_shift_u16(pre: Seq<u8>, s: Seq<u8>, post: Seq<u8>, i: int)
    requires
        0 <= i,
        i + 2 <= s.len(),
    ensures
        get_u16(pre + s + post, pre.len() + i) == get_u16(s, i),
{
    reveal(get_u16);
    let t = pre + s + post;
    assert(t[pre.len() + i] == s[i]);
    assert(t[pre.len() + i + 1] == s[i + 1]);
}

/// Appends `x` in two little-endian bytes.
pub fn push_u16(v: &mut Vec<u8>, x: u16)
    ensures
        final(v)@ == old(v)@ + u16_le(x),
{
    v.push((x & 0xff) as u8);
    v.push(((x >> 8) & 0xff) as u8);
    assert(final(v)@ =~= old(v)@ + u16_le(x));
}

/// Appends `x` in four little-endian bytes.
pub fn push_u32(v: &mut Vec<u8>, x: u32)
    ensures
        final(v)@ == old(v)@ + u32_le(x),
{
    v.push((x & 0xff) as u8);
    v.push(((x >> 8) & 0xff) as u8);
    v.push(((x >> 16) & 0xff) as u8);
    v.push(((x >> 24) & 0xff) as u8);
    assert(final(v)@ =~= old(v)@ + u32_le(x));
}

/// Appends `x` in eight little-endian bytes.
pub fn push_u64(v: &mut Vec<u8>, x: u64)
    ensures
        final(v)@ == old(v)@ + u64_le(x),
{
    push_u32(v, (x & 0xffff_ffff) as u32);
    push_u32(v, (x >> 32) as u32);
    assert(final(v)@ =~= old(v)@ + u64_le(x));
}

/// Reads the little-endian 16-bit value at `data[i..i + 2]`.
pub fn read_u16(data: &[u8], i: usize) -> (r: u16)
    requires
        i + 2 <= data@.len(),
    ensures
        r == get_u16(data@, i as int),
{
    reveal(get_u16);
    (data[i] as u16) | ((data[i + 1] as u16) << 8)
}

/// Reads the little-endian 32-bit value at `data[i..i + 4]`.
pub fn read_u32(data: &[u8], i: usize) -> (r: u32)
    requires
        i + 4 <= data@.len(),
    ensures
        r == get_u32(data@, i as int),
{
    reveal(get_u32);
    (data[i] as u32) | ((data[i + 1] as u32) << 8) | ((data[i + 2] as u32) << 16) | ((data[i
        + 3] as u32) << 24)
}

/// Reads the little-endian 64-bit value at `data[i..i + 8]`.
pub fn read_u64(data: &[u8], i: usize) -> (r: u64)
    requires
        i + 8 <= data@.len(),
    ensures
        r == get_u64(data@, i as int),
{
    reveal(get_u64);
    // Taking the length bounds it by usize::MAX for the index arithmetic below.
    let _n = data.len();
    (read_u32(data, i) as u64) | ((read_u32(data, i + 4) as u64) << 32)
}


/// Appends the bytes of `data`.
pub fn push_bytes(v: &mut Vec<u8>, data: &[u8])
    ensures
        final(v)@ == old(v)@ + data@,
{
    let mut i: usize = 0;
    while i < data.len()
        invariant
            0 <= i <= data@.len(),
            v@ == old(v)@ + data@.subrange(0, i as int),
        decreases data@.len() - i,
    {
        v.push(data[i]);
        i = i + 1;
        assert(v@ =~= old(v)@ + data@.subrange(0, i as int));
    }
    assert(data@.subrange(0, data@.len() as int) =~= data@);
}

/// A copy of `data[from..to]`.
pub fn copy_range(data: &[u8], from: usize, to: usize) -> (r: Vec<u8>)
    requires
        from <= to <= data@.len(),
    ensures
        r@ == data@.subrange(from as int, to as int),
{
    let mut v: Vec<u8> = Vec::new();
    let mut i: usize = from;
    while i < to
        invariant
            from <= i <= to,
            to <= data@.len(),
            v@ == data@.subrange(from as int, i as int),
        decreases to - i,
    {
        v.push(data[i]);
        i = i + 1;
        assert(v@ =~= data@.subrange(from as int, i as int));
    }
    v
}

/// A copy of `data`.
pub fn copy_bytes(data: &[u8]) -> (r: Vec<u8>)
    ensures
        r@ == data@,
{
    let r = copy_range(data, 0, data.len());
    assert(data@.subrange(0, data@.len() as int) =~= data@);
    r
}
} // verus!
