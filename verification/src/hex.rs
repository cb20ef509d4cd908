//! Hex string decoding: pairs of hex digits to bytes.

use vstd::prelude::*;
use vstd::string::StrSliceExecFns;

verus! {

/// The value of one hex digit, upper or lower case.
pub open spec fn spec_hex_digit(c: char) -> Option<u8> {
    let u = c as u32;
    if 48 <= u <= 57 {
        Some((u - 48) as u8)
    } else if 97 <= u <= 102 {
        Some((u - 87) as u8)
    } else if 65 <= u <= 70 {
        Some((u - 55) as u8)
    } else {
        None
    }
}

/// The bytes a hex string denotes: one byte for each pair of digits.  An odd
/// length or a non-digit character yields nothing.
pub open spec fn spec_decode_hex(cs: Seq<char>) -> Option<Seq<u8>>
    decreases cs.len(),
{
    if cs.len() == 0 {
        Some(Seq::empty())
    } else if cs.len() == 1 {
        None
    } else {
        match (spec_hex_digit(cs[0]), spec_hex_digit(cs[1])) {
            (Some(h), Some(l)) => match spec_decode_hex(cs.subrange(2, cs.len() as int)) {
                Some(rest) => Some(seq![(16 * h + l) as u8] + rest),
                None => None,
            },
            _ => None,
        }
    }
}

/// The value of one hex digit, executable form.
fn hex_digit(c: char) -> (r: Option<u8>)
    ensures
        r == spec_hex_digit(c),
{
    let u = c as u32;
    if 48 <= u && u <= 57 {
        Some((u - 48) as u8)
    } else if 97 <= u && u <= 102 {
        Some((u - 87) as u8)
    } else if 65 <= u && u <= 70 {
        Some((u - 55) as u8)
    } else {
        None
    }
}

/// Decode a hex string into bytes, two digits per byte.
pub fn decode_hex(s: &str) -> (r: Option<Vec<u8>>)
    ensures
        match spec_decode_hex(s@) {
            Some(bs) => r matches Some(v) && v@ == bs,
            None => r is None,
        },
{
    let ghost cs = s@;
    let n = s.unicode_len();
    let mut out: Vec<u8> = Vec::new();
    let mut i: usize = 0;
    proof {
        assert(cs.subrange(0, n as int) =~= cs);
        assert(out@ + spec_decode_hex(cs)->Some_0 =~= spec_decode_hex(cs)->Some_0);
    }
    while i < n
        invariant
            i <= n,
            n == cs.len(),
            cs == s@,
            match spec_decode_hex(cs.subrange(i as int, n as int)) {
                Some(rest) => spec_decode_hex(cs) == Some(out@ + rest),
                None => spec_decode_hex(cs) is None,
            },
        decreases n - i,
    {
        let ghost tail = cs.subrange(i as int, n as int);
        if i + 1 >= n {
            // An odd number of digits denotes nothing.
            return None;
        }
        let h = match hex_digit(s.get_char(i)) {
            Some(h) => h,
            None => {
                return None;
            },
        };
        let l = match hex_digit(s.get_char(i + 1)) {
            Some(l) => l,
            None => {
                return None;
            },
        };
        proof {
            assert(tail[0] == cs[i as int]);
            assert(tail[1] == cs[i + 1]);
            assert(tail.subrange(2, tail.len() as int) =~= cs.subrange(i + 2, n as int));
            match spec_decode_hex(cs.subrange(i + 2, n as int)) {
                Some(rest) => {
                    assert(out@ + (seq![(16 * h + l) as u8] + rest) =~= out@.push(
                        (16 * h + l) as u8,
                    ) + rest);
                },
                None => {},
            }
        }
        out.push(16 * h + l);
        i = i + 2;
    }
    proof {
        assert(cs.subrange(n as int, n as int) =~= Seq::<char>::empty());
        assert(out@ + Seq::<u8>::empty() =~= out@);
    }
    Some(out)
}

} // verus!
