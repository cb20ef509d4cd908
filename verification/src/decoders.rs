//! The length/integer decoder: variable-width length fields, the
//! special-integer encodings they can select, and required strings.

use vstd::prelude::*;

use crate::cursor::ByteCursor;
use crate::errors::DecodeError;
use crate::format::{spec_read_length, spec_read_scalar, spec_read_str};
use crate::ints::{u16_from_le, u32_from_be, u32_from_le};
use crate::model::{Length, ScalarValue};
use crate::trusted::string_from_utf8;

verus! {

/// Consume `len` bytes and return them as a UTF-8 string.  Invalid UTF-8
/// here is a hard failure: this is used only for required string values.
pub fn read_str(cur: &mut ByteCursor, len: usize) -> (r: Result<String, DecodeError>)
    requires
        old(cur).wf(),
    ensures
        final(cur).wf(),
        final(cur).bytes() == old(cur).bytes(),
        match spec_read_str(old(cur).bytes(), old(cur).pos as int, len as int) {
            Ok((cs, p)) => r matches Ok(s) && s@ == cs && final(cur).pos == p,
            Err((e, p)) => r == Err::<String, DecodeError>(e) && final(cur).pos == p,
        },
{
    let bytes = match cur.take(len) {
        Ok(b) => b,
        Err(e) => {
            return Err(e);
        },
    };
    match string_from_utf8(bytes) {
        Some(s) => Ok(s),
        None => Err(DecodeError::InvalidUtf8),
    }
}

/// Decode one variable-width length field.  The first byte's top two bits
/// select the mode; the wide mode's discriminator byte admits only the
/// 32-bit big-endian form, the 64-bit form being unsupported.
pub fn read_length(cur: &mut ByteCursor) -> (r: Result<Length, DecodeError>)
    requires
        old(cur).wf(),
    ensures
        final(cur).wf(),
        final(cur).bytes() == old(cur).bytes(),
        match spec_read_length(old(cur).bytes(), old(cur).pos as int) {
            Ok((l, p)) => r == Ok::<Length, DecodeError>(l) && final(cur).pos == p,
            Err((e, p)) => r == Err::<Length, DecodeError>(e) && final(cur).pos == p,
        },
{
    let b = match cur.next_byte() {
        Ok(b) => b,
        Err(e) => {
            return Err(e);
        },
    };
    let mode = b / 64;
    let low = b % 64;
    if mode == 0 {
        Ok(Length::Raw(low as u32))
    } else if mode == 1 {
        let b2 = match cur.next_byte() {
            Ok(b2) => b2,
            Err(e) => {
                return Err(e);
            },
        };
        Ok(Length::Raw((low as u32) * 256 + b2 as u32))
    } else if mode == 2 {
        let d = match cur.next_byte() {
            Ok(d) => d,
            Err(e) => {
                return Err(e);
            },
        };
        if d == 0 {
            let bytes = match cur.take(4) {
                Ok(v) => v,
                Err(e) => {
                    return Err(e);
                },
            };
            Ok(Length::FixedWidth(u32_from_be(&bytes)))
        } else {
            Err(DecodeError::UnsupportedEncoding)
        }
    } else {
        Ok(Length::Encoded(low))
    }
}

/// Decode one scalar by the length and special-integer rules: a plain length
/// introduces a string of that many bytes, an encoded length a little-endian
/// unsigned integer of 8, 16 or 32 bits; the compressed sub-mode is
/// unsupported and consumes nothing past the length byte.
pub fn read_length_encoding(cur: &mut ByteCursor) -> (r: Result<ScalarValue, DecodeError>)
    requires
        old(cur).wf(),
    ensures
        final(cur).wf(),
        final(cur).bytes() == old(cur).bytes(),
        match spec_read_scalar(old(cur).bytes(), old(cur).pos as int) {
            Ok((v, p)) => r matches Ok(sv) && sv@ == v && final(cur).pos == p,
            Err((e, p)) => r == Err::<ScalarValue, DecodeError>(e) && final(cur).pos == p,
        },
{
    let l = match read_length(cur) {
        Ok(l) => l,
        Err(e) => {
            return Err(e);
        },
    };
    match l {
        Length::Raw(n) => {
            match read_str(cur, n as usize) {
                Ok(s) => Ok(ScalarValue::Utf8String(s)),
                Err(e) => Err(e),
            }
        },
        Length::FixedWidth(n) => Ok(ScalarValue::UInt32(n)),
        Length::Encoded(enc) => {
            if enc == 0 {
                match cur.next_byte() {
                    Ok(b) => Ok(ScalarValue::UInt8(b)),
                    Err(e) => Err(e),
                }
            } else if enc == 1 {
                match cur.take(2) {
                    Ok(b) => Ok(ScalarValue::UInt16(u16_from_le(&b))),
                    Err(e) => Err(e),
                }
            } else if enc == 2 {
                match cur.take(4) {
                    Ok(b) => Ok(ScalarValue::UInt32(u32_from_le(&b))),
                    Err(e) => Err(e),
                }
            } else {
                Err(DecodeError::UnsupportedEncoding)
            }
        },
    }
}

} // verus!
