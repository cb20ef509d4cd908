//! Unpacking the integer fields of a packed little-endian record: a signed
//! 32-bit value, an unsigned 32-bit value, and a signed 16-bit value
//! followed by two bytes of padding that must be zero.

use vstd::prelude::*;

use crate::ints::{
    as_signed16, as_signed32, i16_from_u16, i32_from_u32, le16, le32, u16_from_le, u32_from_le,
};

verus! {

/// What the integer fields of a packed record hold: nothing when fewer than
/// twelve bytes are given or the padding is not zero.
pub open spec fn spec_unpack_ints(s: Seq<u8>) -> Option<(int, int, int)> {
    if s.len() < 12 {
        None
    } else if le16(s.subrange(10, 12)) != 0 {
        None
    } else {
        Some(
            (
                as_signed32(le32(s.subrange(0, 4))),
                le32(s.subrange(4, 8)),
                as_signed16(le16(s.subrange(8, 10))),
            ),
        )
    }
}

/// Read the three integer fields of a packed record.
pub fn unpack_ints(data: &[u8]) -> (r: Option<(i32, u32, i16)>)
    ensures
        match spec_unpack_ints(data@) {
            Some((a, b, c)) => r matches Some(t) && t.0 == a && t.1 == b && t.2 == c,
            None => r is None,
        },
{
    if data.len() < 12 {
        return None;
    }
    let mut w: Vec<u8> = Vec::new();
    w.push(data[10]);
    w.push(data[11]);
    proof {
        assert(w@ =~= data@.subrange(10, 12));
    }
    if u16_from_le(&w) != 0 {
        return None;
    }
    let mut a: Vec<u8> = Vec::new();
    a.push(data[0]);
    a.push(data[1]);
    a.push(data[2]);
    a.push(data[3]);
    let mut b: Vec<u8> = Vec::new();
    b.push(data[4]);
    b.push(data[5]);
    b.push(data[6]);
    b.push(data[7]);
    let mut c: Vec<u8> = Vec::new();
    c.push(data[8]);
    c.push(data[9]);
    proof {
        assert(a@ =~= data@.subrange(0, 4));
        assert(b@ =~= data@.subrange(4, 8));
        assert(c@ =~= data@.subrange(8, 10));
    }
    Some((i32_from_u32(u32_from_le(&a)), u32_from_le(&b), i16_from_u16(u16_from_le(&c))))
}

} // verus!
