//! A companion encoder for scalar values, built for testing the decoder:
//! each scalar has a canonical encoding, and decoding that encoding is
//! proved to give the scalar back.

use vstd::prelude::*;
use vstd::utf8::{encode_utf8, encode_utf8_decode_utf8, encode_utf8_valid_utf8};

use crate::errors::DecodeError;
use crate::format::{spec_read_scalar, spec_zl_entry};
use crate::ints::{
    le16_bytes, le32_bytes, le64_bytes, lemma_le16_bytes_value, lemma_le32_bytes_value,
    lemma_le64_bytes_value, lemma_signed16_round, lemma_signed32_round, lemma_signed64_round,
    to_unsigned16, to_unsigned32, to_unsigned64, u16_of_i16, u32_of_i32, u64_of_i64,
};
use crate::model::{ScalarValue, ScalarValueV, ZiplistEntryV};

verus! {

/// The canonical encoding of one scalar.  Strings take the shortest plain
/// length form; unsigned integers take the special-integer forms; signed
/// integers take the ziplist entry forms (with a zero previous-entry-length
/// prefix), since only a ziplist can carry them.
pub open spec fn spec_encode_scalar(v: ScalarValueV) -> Seq<u8> {
    match v {
        ScalarValueV::Utf8String(cs) => {
            let b = encode_utf8(cs);
            if b.len() < 64 {
                seq![b.len() as u8] + b
            } else {
                seq![(0x40 + b.len() / 0x100) as u8, (b.len() % 0x100) as u8] + b
            }
        },
        ScalarValueV::UInt8(u) => seq![0xC0u8, u],
        ScalarValueV::UInt16(u) => seq![0xC1u8] + le16_bytes(u as int),
        ScalarValueV::UInt32(u) => seq![0xC2u8] + le32_bytes(u as int),
        ScalarValueV::Int16(i) => seq![0u8, 0xC0u8] + le16_bytes(to_unsigned16(i as int)),
        ScalarValueV::Int32(i) => seq![0u8, 0xD0u8] + le32_bytes(to_unsigned32(i as int)),
        ScalarValueV::Int64(i) => seq![0u8, 0xE0u8] + le64_bytes(to_unsigned64(i as int)),
    }
}

/// A string must fit a six-bit or fourteen-bit length field to decode back
/// as a string: the wide length form introduces a 32-bit integer value, not
/// string bytes, when it stands where a scalar is expected.
pub open spec fn encodable(v: ScalarValueV) -> bool {
    v matches ScalarValueV::Utf8String(cs) ==> encode_utf8(cs).len() < 0x4000
}

/// The ziplist entry a signed scalar decodes back to.
pub open spec fn as_zl_entry(v: ScalarValueV) -> ZiplistEntryV
    recommends
        v is Int16 || v is Int32 || v is Int64,
{
    match v {
        ScalarValueV::Int16(i) => ZiplistEntryV::Int16(i),
        ScalarValueV::Int32(i) => ZiplistEntryV::Int32(i),
        ScalarValueV::Int64(i) => ZiplistEntryV::Int64(i),
        _ => ZiplistEntryV::Int64(0),
    }
}

#[verifier::rlimit(100)]
proof fn lemma_string_round_trip(cs: Seq<char>)
    requires
        encode_utf8(cs).len() < 0x4000,
    ensures
        spec_read_scalar(spec_encode_scalar(ScalarValueV::Utf8String(cs)), 0) == Ok::<
            _,
            (DecodeError, int),
        >(
            (
                ScalarValueV::Utf8String(cs),
                spec_encode_scalar(ScalarValueV::Utf8String(cs)).len() as int,
            ),
        ),
{
    let s = spec_encode_scalar(ScalarValueV::Utf8String(cs));
    let b = encode_utf8(cs);
    encode_utf8_valid_utf8(cs);
    encode_utf8_decode_utf8(cs);
    if b.len() < 64 {
        assert(s[0] == b.len() as u8);
        assert(s[0] / 64 == 0 && s[0] % 64 == b.len());
        assert(s.subrange(1, 1 + b.len() as int) =~= b);
    } else {
        assert(s[0] == (0x40 + b.len() / 0x100) as u8);
        assert(b.len() / 0x100 < 0x40);
        assert(s[0] / 64 == 1);
        assert(s[0] % 64 == b.len() / 0x100);
        assert(s[1] == (b.len() % 0x100) as u8);
        assert((s[0] % 64) * 0x100 + s[1] == b.len()) by {
            vstd::arithmetic::div_mod::lemma_fundamental_div_mod(b.len() as int, 0x100);
        }
        assert(s.subrange(2, 2 + b.len() as int) =~= b);
    }
}

#[verifier::rlimit(50)]
proof fn lemma_unsigned_round_trip(v: ScalarValueV)
    requires
        v is UInt8 || v is UInt16 || v is UInt32,
    ensures
        spec_read_scalar(spec_encode_scalar(v), 0) == Ok::<_, (DecodeError, int)>(
            (v, spec_encode_scalar(v).len() as int),
        ),
{
    let s = spec_encode_scalar(v);
    match v {
        ScalarValueV::UInt8(u) => {
            assert(s[0] / 64 == 3 && s[0] % 64 == 0);
        },
        ScalarValueV::UInt16(u) => {
            assert(s[0] / 64 == 3 && s[0] % 64 == 1);
            assert(s.subrange(1, 3) =~= le16_bytes(u as int));
            lemma_le16_bytes_value(u as int);
        },
        ScalarValueV::UInt32(u) => {
            assert(s[0] / 64 == 3 && s[0] % 64 == 2);
            assert(s.subrange(1, 5) =~= le32_bytes(u as int));
            lemma_le32_bytes_value(u as int);
        },
        _ => {},
    }
}

#[verifier::rlimit(50)]
proof fn lemma_signed_round_trip(v: ScalarValueV)
    requires
        v is Int16 || v is Int32 || v is Int64,
    ensures
        spec_zl_entry(spec_encode_scalar(v), 0) == Ok::<_, (DecodeError, int)>(
            (as_zl_entry(v), spec_encode_scalar(v).len() as int),
        ),
{
    let s = spec_encode_scalar(v);
    match v {
        ScalarValueV::Int16(i) => {
            assert(s[0] != 254);
            assert(s[1] == 0xC0 && s[1] / 64 == 3 && (s[1] % 64) / 16 == 0);
            assert(s.subrange(2, 4) =~= le16_bytes(to_unsigned16(i as int)));
            lemma_le16_bytes_value(to_unsigned16(i as int));
            lemma_signed16_round(i as int);
        },
        ScalarValueV::Int32(i) => {
            assert(s[0] != 254);
            assert(s[1] == 0xD0 && s[1] / 64 == 3 && (s[1] % 64) / 16 == 1);
            assert(s.subrange(2, 6) =~= le32_bytes(to_unsigned32(i as int)));
            lemma_le32_bytes_value(to_unsigned32(i as int));
            lemma_signed32_round(i as int);
        },
        ScalarValueV::Int64(i) => {
            assert(s[0] != 254);
            assert(s[1] == 0xE0 && s[1] / 64 == 3 && (s[1] % 64) / 16 == 2);
            assert(s.subrange(2, 10) =~= le64_bytes(to_unsigned64(i as int)));
            lemma_le64_bytes_value(to_unsigned64(i as int));
            lemma_signed64_round(i as int);
        },
        _ => {},
    }
}

/// Law: decoding an encoded scalar gives the scalar back and consumes the
/// whole encoding.  String and unsigned forms decode by the scalar rules;
/// signed forms decode by the ziplist entry rules.
pub proof fn lemma_scalar_round_trip(v: ScalarValueV)
    requires
        encodable(v),
    ensures
        (v is Utf8String || v is UInt8 || v is UInt16 || v is UInt32) ==> spec_read_scalar(
            spec_encode_scalar(v),
            0,
        ) == Ok::<_, (DecodeError, int)>((v, spec_encode_scalar(v).len() as int)),
        (v is Int16 || v is Int32 || v is Int64) ==> spec_zl_entry(spec_encode_scalar(v), 0)
            == Ok::<_, (DecodeError, int)>((as_zl_entry(v), spec_encode_scalar(v).len() as int)),
{
    match v {
        ScalarValueV::Utf8String(cs) => {
            lemma_string_round_trip(cs);
        },
        ScalarValueV::UInt8(_) => {
            lemma_unsigned_round_trip(v);
        },
        ScalarValueV::UInt16(_) => {
            lemma_unsigned_round_trip(v);
        },
        ScalarValueV::UInt32(_) => {
            lemma_unsigned_round_trip(v);
        },
        _ => {
            lemma_signed_round_trip(v);
        },
    }
}

/// Append the little-endian bytes of a 16-bit value.
fn push_le16(out: &mut Vec<u8>, u: u16)
    ensures
        final(out)@ == old(out)@ + le16_bytes(u as int),
{
    out.push((u % 0x100) as u8);
    out.push((u / 0x100) as u8);
    proof {
        assert(out@ =~= old(out)@ + le16_bytes(u as int));
    }
}

/// Append the little-endian bytes of a 32-bit value.
fn push_le32(out: &mut Vec<u8>, u: u32)
    ensures
        final(out)@ == old(out)@ + le32_bytes(u as int),
{
    out.push((u % 0x100) as u8);
    out.push((u / 0x100 % 0x100) as u8);
    out.push((u / 0x1_0000 % 0x100) as u8);
    out.push((u / 0x100_0000) as u8);
    proof {
        assert(out@ =~= old(out)@ + le32_bytes(u as int));
    }
}

/// Append the little-endian bytes of a 64-bit value.
fn push_le64(out: &mut Vec<u8>, u: u64)
    ensures
        final(out)@ == old(out)@ + le64_bytes(u as int),
{
    out.push((u % 0x100) as u8);
    out.push((u / 0x100 % 0x100) as u8);
    out.push((u / 0x1_0000 % 0x100) as u8);
    out.push((u / 0x100_0000 % 0x100) as u8);
    out.push((u / 0x1_0000_0000 % 0x100) as u8);
    out.push((u / 0x100_0000_0000 % 0x100) as u8);
    out.push((u / 0x1_0000_0000_0000 % 0x100) as u8);
    out.push((u / 0x100_0000_0000_0000) as u8);
    proof {
        assert(out@ =~= old(out)@ + le64_bytes(u as int));
    }
}

/// Append the bytes of a string.
fn push_str_bytes(out: &mut Vec<u8>, s: &str)
    ensures
        final(out)@ == old(out)@ + encode_utf8(s@),
{
    let b = s.as_bytes();
    let n = b.len();
    let mut i: usize = 0;
    while i < n
        invariant
            i <= n,
            b@ == encode_utf8(s@),
            n == b@.len(),
            out@ == old(out)@ + b@.subrange(0, i as int),
        decreases n - i,
    {
        out.push(b[i]);
        i = i + 1;
        proof {
            assert(out@ =~= old(out)@ + b@.subrange(0, i as int));
        }
    }
    proof {
        assert(out@ =~= old(out)@ + encode_utf8(s@));
    }
}

/// Encode one scalar into its canonical byte form.
pub fn encode_scalar(v: &ScalarValue) -> (r: Vec<u8>)
    requires
        encodable(v@),
    ensures
        r@ == spec_encode_scalar(v@),
{
    let mut out: Vec<u8> = Vec::new();
    match v {
        ScalarValue::Utf8String(s) => {
            let n = s.as_str().len();
            if n < 64 {
                out.push(n as u8);
            } else {
                out.push(0x40 + (n / 0x100) as u8);
                out.push((n % 0x100) as u8);
            }
            push_str_bytes(&mut out, s.as_str());
            proof {
                assert(out@ =~= spec_encode_scalar(v@));
            }
        },
        ScalarValue::UInt8(u) => {
            out.push(0xC0);
            out.push(*u);
            proof {
                assert(out@ =~= spec_encode_scalar(v@));
            }
        },
        ScalarValue::UInt16(u) => {
            out.push(0xC1);
            push_le16(&mut out, *u);
            proof {
                assert(out@ =~= spec_encode_scalar(v@));
            }
        },
        ScalarValue::UInt32(u) => {
            out.push(0xC2);
            push_le32(&mut out, *u);
            proof {
                assert(out@ =~= spec_encode_scalar(v@));
            }
        },
        ScalarValue::Int16(i) => {
            out.push(0);
            out.push(0xC0);
            push_le16(&mut out, u16_of_i16(*i));
            proof {
                assert(out@ =~= spec_encode_scalar(v@));
            }
        },
        ScalarValue::Int32(i) => {
            out.push(0);
            out.push(0xD0);
            push_le32(&mut out, u32_of_i32(*i));
            proof {
                assert(out@ =~= spec_encode_scalar(v@));
            }
        },
        ScalarValue::Int64(i) => {
            out.push(0);
            out.push(0xE0);
            push_le64(&mut out, u64_of_i64(*i));
            proof {
                assert(out@ =~= spec_encode_scalar(v@));
            }
        },
    }
    out
}

} // verus!
