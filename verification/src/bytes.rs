//! Little-endian byte-level views of 16-, 32- and 64-bit integers.
//!
//! Packed on-disk records are decoded through explicit byte-offset reads
//! rather than struct overlay, so the functions here are the only place
//! where bytes and integers meet.

use vstd::prelude::*;

verus! {

/// The 16-bit value stored little-endian at offset `i` of `s`.
#[verifier::opaque]
pub open spec fn le16(s: Seq<u8>, i: int) -> u16
    recommends
        0 <= i,
        i + 2 <= s.len(),
{
    (s[i] as nat + s[i + 1] as nat * 0x100) as u16
}

/// The 32-bit value stored little-endian at offset `i` of `s`.
#[verifier::opaque]
pub open spec fn le32(s: Seq<u8>, i: int) -> u32
    recommends
        0 <= i,
        i + 4 <= s.len(),
{
    (s[i] as nat + s[i + 1] as nat * 0x100 + s[i + 2] as nat * 0x10000 + s[i + 3] as nat
        * 0x1000000) as u32
}

/// The 64-bit value stored little-endian at offset `i` of `s`.
#[verifier::opaque]
pub open spec fn le64(s: Seq<u8>, i: int) -> u64
    recommends
        0 <= i,
        i + 8 <= s.len(),
{
    (s[i] as nat + s[i + 1] as nat * 0x100 + s[i + 2] as nat * 0x10000 + s[i + 3] as nat
        * 0x1000000 + s[i + 4] as nat * 0x100000000 + s[i + 5] as nat * 0x10000000000 + s[i
        + 6] as nat * 0x1000000000000 + s[i + 7] as nat * 0x100000000000000) as u64
}

/// The eight bytes of the little-endian encoding of `v`, lowest first.
#[verifier::opaque]
pub open spec fn le64_bytes(v: u64) -> Seq<u8> {
    seq![
        (v as nat % 0x100) as u8,
        (v as nat / 0x100 % 0x100) as u8,
        (v as nat / 0x10000 % 0x100) as u8,
        (v as nat / 0x1000000 % 0x100) as u8,
        (v as nat / 0x100000000 % 0x100) as u8,
        (v as nat / 0x10000000000 % 0x100) as u8,
        (v as nat / 0x1000000000000 % 0x100) as u8,
        (v as nat / 0x100000000000000 % 0x100) as u8,
    ]
}

/// `d` with its eight bytes at offset `off` replaced by the little-endian
/// encoding of `v`.
#[verifier::opaque]
pub open spec fn write64(d: Seq<u8>, off: int, v: u64) -> Seq<u8>
    recommends
        0 <= off,
        off + 8 <= d.len(),
{
    Seq::new(d.len(), |k: int| if off <= k < off + 8 { le64_bytes(v)[k - off] } else { d[k] })
}

/// Encoding then decoding a 64-bit value is the identity.
pub proof fn lemma_le64_roundtrip(v: u64)
    ensures
        le64(le64_bytes(v), 0) == v,
{
    reveal(le64);
    reveal(le64_bytes);
    let x = v as int;
    vstd::arithmetic::div_mod::lemma_fundamental_div_mod(x, 0x100);
    vstd::arithmetic::div_mod::lemma_fundamental_div_mod(x / 0x100, 0x100);
    vstd::arithmetic::div_mod::lemma_fundamental_div_mod(x / 0x10000, 0x100);
    vstd::arithmetic::div_mod::lemma_fundamental_div_mod(x / 0x1000000, 0x100);
    vstd::arithmetic::div_mod::lemma_fundamental_div_mod(x / 0x100000000, 0x100);
    vstd::arithmetic::div_mod::lemma_fundamental_div_mod(x / 0x10000000000, 0x100);
    vstd::arithmetic::div_mod::lemma_fundamental_div_mod(x / 0x1000000000000, 0x100);
    vstd::arithmetic::div_mod::lemma_div_denominator(x, 0x100, 0x100);
    vstd::arithmetic::div_mod::lemma_div_denominator(x, 0x10000, 0x100);
    vstd::arithmetic::div_mod::lemma_div_denominator(x, 0x1000000, 0x100);
    vstd::arithmetic::div_mod::lemma_div_denominator(x, 0x100000000, 0x100);
    vstd::arithmetic::div_mod::lemma_div_denominator(x, 0x10000000000, 0x100);
    vstd::arithmetic::div_mod::lemma_div_denominator(x, 0x1000000000000, 0x100);
    vstd::arithmetic::div_mod::lemma_basic_div(x / 0x100000000000000, 0x100);
}

/// Decoding eight bytes then re-encoding the value gives the same bytes.
pub proof fn lemma_le64_bytes_of_le64(d: Seq<u8>, i: int)
    requires
        0 <= i,
        i + 8 <= d.len(),
    ensures
        le64_bytes(le64(d, i)) == d.subrange(i, i + 8),
{
    reveal(le64);
    reveal(le64_bytes);
    let b0 = d[i] as int;
    let b1 = d[i + 1] as int;
    let b2 = d[i + 2] as int;
    let b3 = d[i + 3] as int;
    let b4 = d[i + 4] as int;
    let b5 = d[i + 5] as int;
    let b6 = d[i + 6] as int;
    let b7 = d[i + 7] as int;
    let s7 = b7;
    let s6 = b6 + 0x100 * s7;
    let s5 = b5 + 0x100 * s6;
    let s4 = b4 + 0x100 * s5;
    let s3 = b3 + 0x100 * s4;
    let s2 = b2 + 0x100 * s3;
    let s1 = b1 + 0x100 * s2;
    let s0 = b0 + 0x100 * s1;
    assert(le64(d, i) == s0);
    vstd::arithmetic::div_mod::lemma_fundamental_div_mod_converse(s0, 0x100, s1, b0);
    vstd::arithmetic::div_mod::lemma_fundamental_div_mod_converse(s1, 0x100, s2, b1);
    vstd::arithmetic::div_mod::lemma_fundamental_div_mod_converse(s2, 0x100, s3, b2);
    vstd::arithmetic::div_mod::lemma_fundamental_div_mod_converse(s3, 0x100, s4, b3);
    vstd::arithmetic::div_mod::lemma_fundamental_div_mod_converse(s4, 0x100, s5, b4);
    vstd::arithmetic::div_mod::lemma_fundamental_div_mod_converse(s5, 0x100, s6, b5);
    vstd::arithmetic::div_mod::lemma_fundamental_div_mod_converse(s6, 0x100, s7, b6);
    vstd::arithmetic::div_mod::lemma_fundamental_div_mod_converse(s7, 0x100, 0, b7);
    vstd::arithmetic::div_mod::lemma_div_denominator(s0, 0x100, 0x100);
    vstd::arithmetic::div_mod::lemma_div_denominator(s0, 0x10000, 0x100);
    vstd::arithmetic::div_mod::lemma_div_denominator(s0, 0x1000000, 0x100);
    vstd::arithmetic::div_mod::lemma_div_denominator(s0, 0x100000000, 0x100);
    vstd::arithmetic::div_mod::lemma_div_denominator(s0, 0x10000000000, 0x100);
    vstd::arithmetic::div_mod::lemma_div_denominator(s0, 0x1000000000000, 0x100);
    assert(le64_bytes(le64(d, i)) =~= d.subrange(i, i + 8));
}

/// Reading back the eight bytes written by `write64` yields the written value.
pub proof fn lemma_write64_read_back(d: Seq<u8>, off: int, v: u64)
    requires
        0 <= off,
        off + 8 <= d.len(),
    ensures
        le64(write64(d, off, v), off) == v,
        write64(d, off, v).len() == d.len(),
        forall|k: int| 0 <= k < d.len() && !(off <= k < off + 8) ==> write64(d, off, v)[k] == d[k],
{
    reveal(le64);
    reveal(write64);
    lemma_le64_roundtrip(v);
}

/// Writing back the value read at an offset leaves the bytes unchanged.
pub proof fn lemma_write64_identity(d: Seq<u8>, off: int)
    requires
        0 <= off,
        off + 8 <= d.len(),
    ensures
        write64(d, off, le64(d, off)) == d,
{
    reveal(write64);
    lemma_le64_bytes_of_le64(d, off);
    assert(write64(d, off, le64(d, off)) =~= d);
}

/// The 16-bit little-endian value at offset `off` of `b`.
pub fn read_le_u16(b: &[u8], off: usize) -> (r: u16)
    requires
        off + 2 <= b@.len(),
    ensures
        r == le16(b@, off as int),
{
    proof {
        reveal(le16);
    }
    b[off] as u16 + b[off + 1] as u16 * 0x100
}

/// The 32-bit little-endian value at offset `off` of `b`.
pub fn read_le_u32(b: &[u8], off: usize) -> (r: u32)
    requires
        off + 4 <= b@.len(),
    ensures
        r == le32(b@, off as int),
{
    proof {
        reveal(le32);
    }
    b[off] as u32 + b[off + 1] as u32 * 0x100 + b[off + 2] as u32 * 0x10000 + b[off + 3] as u32
        * 0x1000000
}

/// The 64-bit little-endian value at offset `off` of `b`.
pub fn read_le_u64(b: &[u8], off: usize) -> (r: u64)
    requires
        off + 8 <= b@.len(),
    ensures
        r == le64(b@, off as int),
{
    proof {
        reveal(le64);
    }
    b[off] as u64 + b[off + 1] as u64 * 0x100 + b[off + 2] as u64 * 0x10000 + b[off + 3] as u64
        * 0x1000000 + b[off + 4] as u64 * 0x100000000 + b[off + 5] as u64 * 0x10000000000 + b[off
        + 6] as u64 * 0x1000000000000 + b[off + 7] as u64 * 0x100000000000000
}

/// The 64-bit little-endian value at offset `off` of the vector `b`.
pub fn vec_read_le_u64(b: &Vec<u8>, off: usize) -> (r: u64)
    requires
        off + 8 <= b@.len(),
    ensures
        r == le64(b@, off as int),
{
    read_le_u64(b.as_slice(), off)
}

/// Stores `v` little-endian into the eight bytes of `d` at offset `off`.
pub fn write_le_u64(d: &mut Vec<u8>, off: usize, v: u64)
    requires
        off + 8 <= old(d)@.len(),
    ensures
        final(d)@ == write64(old(d)@, off as int, v),
        final(d)@.len() == old(d)@.len(),
        le64(final(d)@, off as int) == v,
        forall|k: int|
            0 <= k < old(d)@.len() && !(off <= k < off + 8) ==> final(d)@[k] == old(d)@[k],
{
    let n: usize = d.len();
    let b0 = (v % 0x100) as u8;
    let b1 = (v / 0x100 % 0x100) as u8;
    let b2 = (v / 0x10000 % 0x100) as u8;
    let b3 = (v / 0x1000000 % 0x100) as u8;
    let b4 = (v / 0x100000000 % 0x100) as u8;
    let b5 = (v / 0x10000000000 % 0x100) as u8;
    let b6 = (v / 0x1000000000000 % 0x100) as u8;
    let b7 = (v / 0x100000000000000 % 0x100) as u8;
    d[off] = b0;
    d[off + 1] = b1;
    d[off + 2] = b2;
    d[off + 3] = b3;
    d[off + 4] = b4;
    d[off + 5] = b5;
    d[off + 6] = b6;
    d[off + 7] = b7;
    proof {
        reveal(write64);
        reveal(le64_bytes);
        assert(d@ =~= write64(old(d)@, off as int, v));
        lemma_write64_read_back(old(d)@, off as int, v);
    }
}

/// The two bytes of the little-endian encoding of `v`, lowest first.
#[verifier::opaque]
pub open spec fn le16_bytes(v: u16) -> Seq<u8> {
    seq![(v as nat % 0x100) as u8, (v as nat / 0x100) as u8]
}

/// The four bytes of the little-endian encoding of `v`, lowest first.
#[verifier::opaque]
pub open spec fn le32_bytes(v: u32) -> Seq<u8> {
    seq![
        (v as nat % 0x100) as u8,
        (v as nat / 0x100 % 0x100) as u8,
        (v as nat / 0x10000 % 0x100) as u8,
        (v as nat / 0x1000000 % 0x100) as u8,
    ]
}

/// Where the encoding of `v` sits in a byte sequence, decoding it there
/// yields `v` back.
pub proof fn lemma_le16_at(s: Seq<u8>, i: int, v: u16)
    requires
        0 <= i,
        i + 2 <= s.len(),
        s.subrange(i, i + 2) == le16_bytes(v),
    ensures
        le16(s, i) == v,
{
    reveal(le16);
    reveal(le16_bytes);
    vstd::arithmetic::div_mod::lemma_fundamental_div_mod(v as int, 0x100);
    vstd::arithmetic::div_mod::lemma_basic_div(v as int / 0x100, 0x100);
    assert(s[i] == le16_bytes(v)[0]);
    assert(s[i + 1] == le16_bytes(v)[1]);
}

/// Where the encoding of `v` sits in a byte sequence, decoding it there
/// yields `v` back.
pub proof fn lemma_le32_at(s: Seq<u8>, i: int, v: u32)
    requires
        0 <= i,
        i + 4 <= s.len(),
        s.subrange(i, i + 4) == le32_bytes(v),
    ensures
        le32(s, i) == v,
{
    reveal(le32);
    reveal(le32_bytes);
    let x = v as int;
    vstd::arithmetic::div_mod::lemma_fundamental_div_mod(x, 0x100);
    vstd::arithmetic::div_mod::lemma_fundamental_div_mod(x / 0x100, 0x100);
    vstd::arithmetic::div_mod::lemma_fundamental_div_mod(x / 0x10000, 0x100);
    vstd::arithmetic::div_mod::lemma_div_denominator(x, 0x100, 0x100);
    vstd::arithmetic::div_mod::lemma_div_denominator(x, 0x10000, 0x100);
    vstd::arithmetic::div_mod::lemma_basic_div(x / 0x1000000, 0x100);
    assert(s[i] == le32_bytes(v)[0]);
    assert(s[i + 1] == le32_bytes(v)[1]);
    assert(s[i + 2] == le32_bytes(v)[2]);
    assert(s[i + 3] == le32_bytes(v)[3]);
}

/// Where the encoding of `v` sits in a byte sequence, decoding it there
/// yields `v` back.
pub proof fn lemma_le64_at(s: Seq<u8>, i: int, v: u64)
    requires
        0 <= i,
        i + 8 <= s.len(),
        s.subrange(i, i + 8) == le64_bytes(v),
    ensures
        le64(s, i) == v,
{
    reveal(le64);
    reveal(le64_bytes);
    lemma_le64_roundtrip(v);
    assert(forall|k: int| 0 <= k < 8 ==> s[i + k] == #[trigger] le64_bytes(v)[k]);
}

} // verus!
