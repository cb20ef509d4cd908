//! Little- and big-endian integer views of short byte sequences, and the
//! two's-complement reading of the unsigned results.

use vstd::prelude::*;

verus! {

/// The value of two bytes read little-endian.
pub open spec fn le16(s: Seq<u8>) -> int
    recommends
        s.len() == 2,
{
    s[0] + 256 * s[1]
}

/// The value of four bytes read little-endian.
pub open spec fn le32(s: Seq<u8>) -> int
    recommends
        s.len() == 4,
{
    s[0] + 0x100 * s[1] + 0x1_0000 * s[2] + 0x100_0000 * s[3]
}

/// The value of eight bytes read little-endian.
pub open spec fn le64(s: Seq<u8>) -> int
    recommends
        s.len() == 8,
{
    s[0] + 0x100 * s[1] + 0x1_0000 * s[2] + 0x100_0000 * s[3] + 0x1_0000_0000 * s[4]
        + 0x100_0000_0000 * s[5] + 0x1_0000_0000_0000 * s[6] + 0x100_0000_0000_0000 * s[7]
}

/// The value of two bytes read big-endian.
pub open spec fn be16(s: Seq<u8>) -> int
    recommends
        s.len() == 2,
{
    256 * s[0] + s[1]
}

/// The value of four bytes read big-endian.
pub open spec fn be32(s: Seq<u8>) -> int
    recommends
        s.len() == 4,
{
    0x100_0000 * s[0] + 0x1_0000 * s[1] + 0x100 * s[2] + s[3]
}

/// The signed reading of a 16-bit two's-complement value.
pub open spec fn as_signed16(u: int) -> int
    recommends
        0 <= u < 0x1_0000,
{
    if u < 0x8000 {
        u
    } else {
        u - 0x1_0000
    }
}

/// The signed reading of a 32-bit two's-complement value.
pub open spec fn as_signed32(u: int) -> int
    recommends
        0 <= u < 0x1_0000_0000,
{
    if u < 0x8000_0000 {
        u
    } else {
        u - 0x1_0000_0000
    }
}

/// The signed reading of a 64-bit two's-complement value.
pub open spec fn as_signed64(u: int) -> int
    recommends
        0 <= u < 0x1_0000_0000_0000_0000,
{
    if u < 0x8000_0000_0000_0000 {
        u
    } else {
        u - 0x1_0000_0000_0000_0000
    }
}

/// The two little-endian bytes of a 16-bit value.
pub open spec fn le16_bytes(n: int) -> Seq<u8>
    recommends
        0 <= n < 0x1_0000,
{
    seq![(n % 256) as u8, ((n / 0x100) % 256) as u8]
}

/// The four little-endian bytes of a 32-bit value.
pub open spec fn le32_bytes(n: int) -> Seq<u8>
    recommends
        0 <= n < 0x1_0000_0000,
{
    seq![
        (n % 256) as u8,
        ((n / 0x100) % 256) as u8,
        ((n / 0x1_0000) % 256) as u8,
        ((n / 0x100_0000) % 256) as u8,
    ]
}

/// The eight little-endian bytes of a 64-bit value.
pub open spec fn le64_bytes(n: int) -> Seq<u8>
    recommends
        0 <= n < 0x1_0000_0000_0000_0000,
{
    seq![
        (n % 256) as u8,
        ((n / 0x100) % 256) as u8,
        ((n / 0x1_0000) % 256) as u8,
        ((n / 0x100_0000) % 256) as u8,
        ((n / 0x1_0000_0000) % 256) as u8,
        ((n / 0x100_0000_0000) % 256) as u8,
        ((n / 0x1_0000_0000_0000) % 256) as u8,
        ((n / 0x100_0000_0000_0000) % 256) as u8,
    ]
}

/// The two big-endian bytes of a 16-bit value.
pub open spec fn be16_bytes(n: int) -> Seq<u8>
    recommends
        0 <= n < 0x1_0000,
{
    seq![((n / 0x100) % 256) as u8, (n % 256) as u8]
}

/// The four big-endian bytes of a 32-bit value.
pub open spec fn be32_bytes(n: int) -> Seq<u8>
    recommends
        0 <= n < 0x1_0000_0000,
{
    seq![
        ((n / 0x100_0000) % 256) as u8,
        ((n / 0x1_0000) % 256) as u8,
        ((n / 0x100) % 256) as u8,
        (n % 256) as u8,
    ]
}

/// The unsigned 16-bit two's-complement carrier of a signed value.
pub open spec fn to_unsigned16(i: int) -> int
    recommends
        -0x8000 <= i < 0x8000,
{
    if i >= 0 {
        i
    } else {
        i + 0x1_0000
    }
}

/// The unsigned 32-bit two's-complement carrier of a signed value.
pub open spec fn to_unsigned32(i: int) -> int
    recommends
        -0x8000_0000 <= i < 0x8000_0000,
{
    if i >= 0 {
        i
    } else {
        i + 0x1_0000_0000
    }
}

/// The unsigned 64-bit two's-complement carrier of a signed value.
pub open spec fn to_unsigned64(i: int) -> int
    recommends
        -0x8000_0000_0000_0000 <= i < 0x8000_0000_0000_0000,
{
    if i >= 0 {
        i
    } else {
        i + 0x1_0000_0000_0000_0000
    }
}

pub fn u16_from_le(b: &Vec<u8>) -> (r: u16)
    requires
        b@.len() == 2,
    ensures
        r == le16(b@),
{
    b[0] as u16 + 256 * (b[1] as u16)
}

pub fn u32_from_le(b: &Vec<u8>) -> (r: u32)
    requires
        b@.len() == 4,
    ensures
        r == le32(b@),
{
    b[0] as u32 + 0x100 * (b[1] as u32) + 0x1_0000 * (b[2] as u32) + 0x100_0000 * (b[3] as u32)
}

pub fn u64_from_le(b: &Vec<u8>) -> (r: u64)
    requires
        b@.len() == 8,
    ensures
        r == le64(b@),
{
    b[0] as u64 + 0x100 * (b[1] as u64) + 0x1_0000 * (b[2] as u64) + 0x100_0000 * (b[3] as u64)
        + 0x1_0000_0000 * (b[4] as u64) + 0x100_0000_0000 * (b[5] as u64)
        + 0x1_0000_0000_0000 * (b[6] as u64) + 0x100_0000_0000_0000 * (b[7] as u64)
}

pub fn u16_from_be(b0: u8, b1: u8) -> (r: u16)
    ensures
        r == be16(seq![b0, b1]),
{
    proof {
        assert(be16(seq![b0, b1]) == 256 * b0 + b1);
    }
    256 * (b0 as u16) + b1 as u16
}

pub fn u32_from_be(b: &Vec<u8>) -> (r: u32)
    requires
        b@.len() == 4,
    ensures
        r == be32(b@),
{
    0x100_0000 * (b[0] as u32) + 0x1_0000 * (b[1] as u32) + 0x100 * (b[2] as u32) + b[3] as u32
}

pub fn u16_of_i16(i: i16) -> (r: u16)
    ensures
        r == to_unsigned16(i as int),
{
    if i >= 0 {
        i as u16
    } else {
        ((i as i32) + 0x1_0000) as u16
    }
}

pub fn u32_of_i32(i: i32) -> (r: u32)
    ensures
        r == to_unsigned32(i as int),
{
    if i >= 0 {
        i as u32
    } else {
        ((i as i64) + 0x1_0000_0000) as u32
    }
}

pub fn u64_of_i64(i: i64) -> (r: u64)
    ensures
        r == to_unsigned64(i as int),
{
    if i >= 0 {
        i as u64
    } else {
        ((i as i128) + 0x1_0000_0000_0000_0000) as u64
    }
}

pub proof fn lemma_le16_bytes_value(n: int)
    requires
        0 <= n < 0x1_0000,
    ensures
        le16(le16_bytes(n)) == n,
{
}

pub proof fn lemma_le32_bytes_value(n: int)
    requires
        0 <= n < 0x1_0000_0000,
    ensures
        le32(le32_bytes(n)) == n,
{
}

pub proof fn lemma_le64_bytes_value(n: int)
    requires
        0 <= n < 0x1_0000_0000_0000_0000,
    ensures
        le64(le64_bytes(n)) == n,
{
    vstd::arithmetic::div_mod::lemma_div_denominator(n, 0x100, 0x100);
    vstd::arithmetic::div_mod::lemma_div_denominator(n, 0x1_0000, 0x100);
    vstd::arithmetic::div_mod::lemma_div_denominator(n, 0x100_0000, 0x100);
    vstd::arithmetic::div_mod::lemma_div_denominator(n, 0x1_0000_0000, 0x100);
    vstd::arithmetic::div_mod::lemma_div_denominator(n, 0x100_0000_0000, 0x100);
    vstd::arithmetic::div_mod::lemma_div_denominator(n, 0x1_0000_0000_0000, 0x100);
    assert(n == 0x100 * (n / 0x100) + n % 0x100) by {
        vstd::arithmetic::div_mod::lemma_fundamental_div_mod(n, 0x100);
    }
    assert(n / 0x100 == 0x100 * (n / 0x1_0000) + (n / 0x100) % 0x100) by {
        vstd::arithmetic::div_mod::lemma_fundamental_div_mod(n / 0x100, 0x100);
    }
    assert(n / 0x1_0000 == 0x100 * (n / 0x100_0000) + (n / 0x1_0000) % 0x100) by {
        vstd::arithmetic::div_mod::lemma_fundamental_div_mod(n / 0x1_0000, 0x100);
    }
    assert(n / 0x100_0000 == 0x100 * (n / 0x1_0000_0000) + (n / 0x100_0000) % 0x100) by {
        vstd::arithmetic::div_mod::lemma_fundamental_div_mod(n / 0x100_0000, 0x100);
    }
    assert(n / 0x1_0000_0000 == 0x100 * (n / 0x100_0000_0000) + (n / 0x1_0000_0000) % 0x100) by {
        vstd::arithmetic::div_mod::lemma_fundamental_div_mod(n / 0x1_0000_0000, 0x100);
    }
    assert(n / 0x100_0000_0000 == 0x100 * (n / 0x1_0000_0000_0000) + (n / 0x100_0000_0000)
        % 0x100) by {
        vstd::arithmetic::div_mod::lemma_fundamental_div_mod(n / 0x100_0000_0000, 0x100);
    }
    assert(n / 0x1_0000_0000_0000 == 0x100 * (n / 0x100_0000_0000_0000) + (n / 0x1_0000_0000_0000)
        % 0x100) by {
        vstd::arithmetic::div_mod::lemma_fundamental_div_mod(n / 0x1_0000_0000_0000, 0x100);
    }
    assert(n / 0x100_0000_0000_0000 < 0x100) by {
        vstd::arithmetic::div_mod::lemma_div_denominator(n, 0x100_0000_0000_0000, 0x100);
    }
}

pub proof fn lemma_be32_bytes_value(n: int)
    requires
        0 <= n < 0x1_0000_0000,
    ensures
        be32(be32_bytes(n)) == n,
{
}

pub proof fn lemma_signed16_round(i: int)
    requires
        -0x8000 <= i < 0x8000,
    ensures
        as_signed16(to_unsigned16(i)) == i,
{
}

pub proof fn lemma_signed32_round(i: int)
    requires
        -0x8000_0000 <= i < 0x8000_0000,
    ensures
        as_signed32(to_unsigned32(i)) == i,
{
}

pub proof fn lemma_signed64_round(i: int)
    requires
        -0x8000_0000_0000_0000 <= i < 0x8000_0000_0000_0000,
    ensures
        as_signed64(to_unsigned64(i)) == i,
{
}

pub fn i16_from_u16(u: u16) -> (r: i16)
    ensures
        r == as_signed16(u as int),
{
    if u < 0x8000 {
        u as i16
    } else {
        ((u as i32) - 0x1_0000) as i16
    }
}

pub fn i32_from_u32(u: u32) -> (r: i32)
    ensures
        r == as_signed32(u as int),
{
    if u < 0x8000_0000 {
        u as i32
    } else {
        ((u as i64) - 0x1_0000_0000) as i32
    }
}

pub fn i64_from_u64(u: u64) -> (r: i64)
    ensures
        r == as_signed64(u as int),
{
    if u < 0x8000_0000_0000_0000 {
        u as i64
    } else {
        ((u as i128) - 0x1_0000_0000_0000_0000) as i64
    }
}

} // verus!
