//! Traditional PKWARE encryption ("ZipCrypto"): three 32-bit key registers
//! advanced by every plaintext byte, and a keystream byte derived from the
//! third register.
use crate::error::ZipError;
use vstd::string::StringSliceAdditionalSpecFns;
use vstd::prelude::*;

verus! {

/// One bit step of the reflected CRC-32 with polynomial 0xEDB88320.
pub open spec fn crc_bit(c: u32) -> u32 {
    if c & 1 == 1 {
        (c >> 1) ^ 0xEDB8_8320u32
    } else {
        c >> 1
    }
}

pub open spec fn crc_bits(c: u32, n: nat) -> u32
    decreases n,
{
    if n == 0 {
        c
    } else {
        crc_bits(crc_bit(c), (n - 1) as nat)
    }
}

/// The CRC-32 register after one more byte.
pub open spec fn crc_byte(c: u32, b: u8) -> u32 {
    crc_bits(c ^ (b as u32), 8)
}

/// The three key registers.
#[derive(Clone, Copy, Debug, PartialEq, Eq, Structural)]
pub struct ZipCryptoKeys {
    pub key0: u32,
    pub key1: u32,
    pub key2: u32,
}

pub open spec fn initial_keys() -> ZipCryptoKeys {
    ZipCryptoKeys { key0: 0x1234_5678, key1: 0x2345_6789, key2: 0x3456_7890 }
}

/// The second register after a step, given the new first register.
pub open spec fn key1_step(key1: u32, key0: u32) -> u32 {
    ((((key1 as int + (key0 & 0xff) as int) % 0x1_0000_0000) * 134775813 + 1) % 0x1_0000_0000) as u32
}

fn key1_step_exec(key1: u32, key0: u32) -> (r: u32)
    ensures
        r == key1_step(key1, key0),
{
    key1.wrapping_add(key0 & 0xff).wrapping_mul(134775813).wrapping_add(1)
}

/// The registers after the plaintext byte `b`.
pub open spec fn update_keys(k: ZipCryptoKeys, b: u8) -> ZipCryptoKeys {
    let k0 = crc_byte(k.key0, b);
    let k1 = key1_step(k.key1, k0);
    let k2 = crc_byte(k.key2, ((k1 >> 24) & 0xff) as u8);
    ZipCryptoKeys { key0: k0, key1: k1, key2: k2 }
}

/// The registers after each byte of `s` in turn.
pub open spec fn keys_after(k: ZipCryptoKeys, s: Seq<u8>) -> ZipCryptoKeys
    decreases s.len(),
{
    if s.len() == 0 {
        k
    } else {
        update_keys(keys_after(k, s.drop_last()), s.last())
    }
}

/// The registers that a password sets up.
pub open spec fn password_keys(password: Seq<u8>) -> ZipCryptoKeys {
    keys_after(initial_keys(), password)
}

/// The keystream byte that the registers give.
pub open spec fn stream_byte(k: ZipCryptoKeys) -> u8 {
    let t = (k.key2 | 2) & 0xffff;
    ((((t as int * ((t ^ 1) as int)) % 0x1_0000_0000) as u32 >> 8) & 0xff) as u8
}

/// The ciphertext of `p` under registers `k`: each byte is xored with the
/// keystream byte of the registers advanced by the plaintext before it.
pub open spec fn encrypt_seq(k: ZipCryptoKeys, p: Seq<u8>) -> Seq<u8>
    decreases p.len(),
{
    if p.len() == 0 {
        Seq::empty()
    } else {
        encrypt_seq(k, p.drop_last()).push(p.last() ^ stream_byte(keys_after(k, p.drop_last())))
    }
}

/// The plaintext of `c` under registers `k`: the registers advance by the
/// plaintext recovered so far.
pub open spec fn decrypt_seq(k: ZipCryptoKeys, c: Seq<u8>) -> Seq<u8>
    decreases c.len(),
{
    if c.len() == 0 {
        Seq::empty()
    } else {
        let d = decrypt_seq(k, c.drop_last());
        d.push(c.last() ^ stream_byte(keys_after(k, d)))
    }
}

proof fn lemma_xor_twice(a: u8, s: u8)
    ensures
        (a ^ s) ^ s == a,
{
    assert((a ^ s) ^ s == a) by (bit_vector);
}

pub proof fn lemma_encrypt_len(k: ZipCryptoKeys, p: Seq<u8>)
    ensures
        encrypt_seq(k, p).len() == p.len(),
    decreases p.len(),
{
    if p.len() > 0 {
        lemma_encrypt_len(k, p.drop_last());
    }
}

pub proof fn lemma_decrypt_len(k: ZipCryptoKeys, c: Seq<u8>)
    ensures
        decrypt_seq(k, c).len() == c.len(),
    decreases c.len(),
{
    if c.len() > 0 {
        lemma_decrypt_len(k, c.drop_last());
    }
}

/// Decrypting under the registers that encrypted gives the plaintext back.
pub proof fn lemma_decrypt_encrypt(k: ZipCryptoKeys, p: Seq<u8>)
    ensures
        decrypt_seq(k, encrypt_seq(k, p)) == p,
    decreases p.len(),
{
    if p.len() > 0 {
        let q = p.drop_last();
        lemma_decrypt_encrypt(k, q);
        let c = encrypt_seq(k, p);
        assert(c.drop_last() == encrypt_seq(k, q));
        lemma_xor_twice(p.last(), stream_byte(keys_after(k, q)));
        assert(decrypt_seq(k, c) =~= p);
    }
}

/// Prefixes of the plaintext advance the registers step by step.
proof fn lemma_keys_after_push(k: ZipCryptoKeys, s: Seq<u8>, b: u8)
    ensures
        keys_after(k, s.push(b)) == update_keys(keys_after(k, s), b),
{
    assert(s.push(b).drop_last() =~= s);
}

proof fn lemma_keys_after_concat(k: ZipCryptoKeys, a: Seq<u8>, b: Seq<u8>)
    ensures
        keys_after(k, a + b) == keys_after(keys_after(k, a), b),
    decreases b.len(),
{
    if b.len() == 0 {
        assert(a + b =~= a);
    } else {
        lemma_keys_after_concat(k, a, b.drop_last());
        assert((a + b).drop_last() =~= a + b.drop_last());
    }
}

/// Encrypting `a + b` is encrypting `a`, then `b` under the registers that `a` left.
pub proof fn lemma_encrypt_concat(k: ZipCryptoKeys, a: Seq<u8>, b: Seq<u8>)
    ensures
        encrypt_seq(k, a + b) == encrypt_seq(k, a) + encrypt_seq(keys_after(k, a), b),
    decreases b.len(),
{
    if b.len() == 0 {
        assert(a + b =~= a);
        assert(encrypt_seq(k, a) + encrypt_seq(keys_after(k, a), b) =~= encrypt_seq(k, a));
    } else {
        let b1 = b.drop_last();
        lemma_encrypt_concat(k, a, b1);
        assert((a + b).drop_last() =~= a + b1);
        lemma_keys_after_concat(k, a, b1);
        assert(encrypt_seq(k, a + b) =~= encrypt_seq(k, a) + encrypt_seq(keys_after(k, a), b));
    }
}

fn crc_byte_exec(c: u32, b: u8) -> (r: u32)
    ensures
        r == crc_byte(c, b),
{
    let mut x: u32 = c ^ (b as u32);
    let mut i: u32 = 0;
    while i < 8
        invariant
            0 <= i <= 8,
            crc_bits(x, (8 - i) as nat) == crc_byte(c, b),
        decreases 8 - i,
    {
        x = if x & 1 == 1 {
            (x >> 1) ^ 0xEDB8_8320u32
        } else {
            x >> 1
        };
        i = i + 1;
    }
    x
}

impl ZipCryptoKeys {
    pub fn new() -> (r: Self)
        ensures
            r == initial_keys(),
    {
        ZipCryptoKeys { key0: 0x1234_5678, key1: 0x2345_6789, key2: 0x3456_7890 }
    }

    /// Advances the registers by the plaintext byte `b`.
    pub fn update(&mut self, b: u8)
        ensures
            *final(self) == update_keys(*old(self), b),
    {
        let k0 = crc_byte_exec(self.key0, b);
        let k1 = key1_step_exec(self.key1, k0);
        let k2 = crc_byte_exec(self.key2, ((k1 >> 24) & 0xff) as u8);
        self.key0 = k0;
        self.key1 = k1;
        self.key2 = k2;
    }

    /// The registers that `password` sets up.
    pub fn from_password(password: &[u8]) -> (r: Self)
        ensures
            r == password_keys(password@),
    {
        let mut k = ZipCryptoKeys::new();
        let mut i: usize = 0;
        while i < password.len()
            invariant
                0 <= i <= password@.len(),
                k == keys_after(initial_keys(), password@.subrange(0, i as int)),
            decreases password@.len() - i,
        {
            proof {
                lemma_keys_after_push(initial_keys(), password@.subrange(0, i as int), password@[i as int]);
                assert(password@.subrange(0, i as int).push(password@[i as int]) =~= password@.subrange(0, i + 1));
            }
            k.update(password[i]);
            i = i + 1;
        }
        assert(password@.subrange(0, password@.len() as int) =~= password@);
        k
    }

    /// The keystream byte of the registers.
    pub fn stream_byte(&self) -> (r: u8)
        ensures
            r == stream_byte(*self),
    {
        let t: u32 = (self.key2 | 2) & 0xffff;
        ((t.wrapping_mul(t ^ 1) >> 8) & 0xff) as u8
    }

    /// Encrypts `data`, advancing the registers by it.
    pub fn encrypt(&mut self, data: &[u8]) -> (r: Vec<u8>)
        ensures
            r@ == encrypt_seq(*old(self), data@),
            *final(self) == keys_after(*old(self), data@),
    {
        let ghost k = *self;
        let mut out: Vec<u8> = Vec::new();
        let mut i: usize = 0;
        while i < data.len()
            invariant
                0 <= i <= data@.len(),
                out@ == encrypt_seq(k, data@.subrange(0, i as int)),
                *self == keys_after(k, data@.subrange(0, i as int)),
            decreases data@.len() - i,
        {
            let ghost pre = data@.subrange(0, i as int);
            proof {
                assert(data@.subrange(0, i + 1).drop_last() =~= pre);
                lemma_keys_after_push(k, pre, data@[i as int]);
            }
            let p = data[i];
            out.push(p ^ self.stream_byte());
            self.update(p);
            i = i + 1;
        }
        assert(data@.subrange(0, data@.len() as int) =~= data@);
        out
    }

    /// Decrypts `data`, advancing the registers by the recovered plaintext.
    pub fn decrypt(&mut self, data: &[u8]) -> (r: Vec<u8>)
        ensures
            r@ == decrypt_seq(*old(self), data@),
            *final(self) == keys_after(*old(self), r@),
    {
        let ghost k = *self;
        let mut out: Vec<u8> = Vec::new();
        let mut i: usize = 0;
        while i < data.len()
            invariant
                0 <= i <= data@.len(),
                out@ == decrypt_seq(k, data@.subrange(0, i as int)),
                *self == keys_after(k, out@),
            decreases data@.len() - i,
        {
            proof {
                assert(data@.subrange(0, i + 1).drop_last() =~= data@.subrange(0, i as int));
            }
            let p = data[i] ^ self.stream_byte();
            proof {
                lemma_keys_after_push(k, out@, p);
            }
            out.push(p);
            self.update(p);
            i = i + 1;
        }
        assert(data@.subrange(0, data@.len() as int) =~= data@);
        out
    }
}


/// Length of the encryption header that precedes an encrypted payload.
pub const ENCRYPTION_HEADER_LEN: usize = 12;

/// The byte that the last byte of the encryption header must equal: the
/// high byte of the modification time when the sizes follow the data in a
/// descriptor (flag bit 3), else the high byte of the CRC-32.
pub open spec fn check_byte_spec(flags: u16, crc: u32, mod_time: u16) -> u8 {
    if flags & 8 != 0 {
        ((mod_time >> 8) & 0xff) as u8
    } else {
        ((crc >> 24) & 0xff) as u8
    }
}

pub fn check_byte(flags: u16, crc: u32, mod_time: u16) -> (r: u8)
    ensures
        r == check_byte_spec(flags, crc, mod_time),
{
    if flags & 8 != 0 {
        ((mod_time >> 8) & 0xff) as u8
    } else {
        ((crc >> 24) & 0xff) as u8
    }
}

/// The plaintext that an encrypted payload holds, or `None` when the
/// password fails the check byte test or the payload is shorter than its
/// encryption header.
pub open spec fn decrypt_outcome(password: Seq<u8>, c: Seq<u8>, check: u8) -> Option<Seq<u8>> {
    let d = decrypt_seq(password_keys(password), c);
    if c.len() < 12 || d[11] != check {
        None
    } else {
        Some(d.subrange(12, d.len() as int))
    }
}

/// Encrypts an entry's payload: the eleven `random` bytes and the check
/// byte form the encryption header, and the payload follows it, all under
/// the registers of `password`.
pub fn encrypt_entry(password: &str, random: &[u8], check: u8, data: &[u8]) -> (r: Vec<u8>)
    requires
        random@.len() == 11,
    ensures
        r@ == encrypt_seq(password_keys(password.spec_bytes()), random@.push(check) + data@),
        r@.len() == data@.len() + 12,
{
    let mut keys = ZipCryptoKeys::from_password(password.as_bytes());
    let ghost k = keys;
    let mut header: Vec<u8> = Vec::new();
    let mut i: usize = 0;
    while i < random.len()
        invariant
            0 <= i <= random@.len(),
            header@ == random@.subrange(0, i as int),
        decreases random@.len() - i,
    {
        header.push(random[i]);
        i = i + 1;
        assert(header@ =~= random@.subrange(0, i as int));
    }
    header.push(check);
    assert(header@ =~= random@.push(check));
    let mut out = keys.encrypt(header.as_slice());
    let ghost k1 = keys;
    let body = keys.encrypt(data);
    crate::le::push_bytes(&mut out, body.as_slice());
    proof {
        lemma_encrypt_concat(k, random@.push(check), data@);
        lemma_encrypt_len(k, random@.push(check) + data@);
    }
    out
}

/// Decrypts an entry's payload with `password`, tests the check byte and
/// gives the plaintext after the encryption header.
pub fn decrypt_entry(password: &str, data: &[u8], check: u8) -> (r: Result<Vec<u8>, ZipError>)
    ensures
        data@.len() < 12 <==> r matches Err(ZipError::InvalidArchive(_)),
        (data@.len() >= 12 && decrypt_outcome(password.spec_bytes(), data@, check).is_none())
            <==> r == Err::<Vec<u8>, ZipError>(ZipError::InvalidPassword),
        r is Ok <==> decrypt_outcome(password.spec_bytes(), data@, check).is_some(),
        r matches Ok(v) ==> Some(v@) == decrypt_outcome(password.spec_bytes(), data@, check),
{
    if data.len() < ENCRYPTION_HEADER_LEN {
        return Err(ZipError::InvalidArchive("encryption header is cut short".to_string()));
    }
    let mut keys = ZipCryptoKeys::from_password(password.as_bytes());
    let d = keys.decrypt(data);
    proof {
        lemma_decrypt_len(password_keys(password.spec_bytes()), data@);
    }
    if d[11] != check {
        return Err(ZipError::InvalidPassword);
    }
    let mut out: Vec<u8> = Vec::new();
    let mut i: usize = 12;
    while i < d.len()
        invariant
            12 <= i <= d@.len(),
            out@ == d@.subrange(12, i as int),
        decreases d@.len() - i,
    {
        out.push(d[i]);
        i = i + 1;
        assert(out@ =~= d@.subrange(12, i as int));
    }
    Ok(out)
}

/// Encryption round trip: an entry encrypted under a password decrypts
/// under the same password to the plaintext, whatever the random
/// header bytes were; the check byte test passes.
pub proof fn lemma_entry_round_trip(password: Seq<u8>, random: Seq<u8>, check: u8, data: Seq<u8>)
    requires
        random.len() == 11,
    ensures
        decrypt_outcome(password, encrypt_seq(password_keys(password), random.push(check) + data), check)
            == Some(data),
{
    let k = password_keys(password);
    let p = random.push(check) + data;
    let c = encrypt_seq(k, p);
    lemma_encrypt_len(k, p);
    lemma_decrypt_encrypt(k, p);
    assert(p[11] == check);
    assert(p.subrange(12, p.len() as int) =~= data);
}

} // verus!
