//! The key-value record decoders: the tagged records of a database section,
//! and the simpler single-byte-length-prefixed pairs of the header.

use vstd::prelude::*;

use crate::cursor::ByteCursor;
use crate::decoders::{read_length, read_length_encoding};
use crate::errors::DecodeError;
use crate::format::{
    key_placeholder_string, spec_read_key, spec_read_key_value, spec_read_value_type,
};
use crate::model::{KeyValueRecord, Length, RecordValue, ScalarValue};
use crate::trusted::string_from_utf8;
use crate::ziplist::parse_ziplist_encoding;

verus! {

/// Decode the key of a tagged record: a plain length, then that many key
/// bytes.  A key that is not valid UTF-8 is tolerated and replaced by a
/// diagnostic placeholder; an encoded-integer length cannot stand here.
fn read_record_key(cur: &mut ByteCursor) -> (r: Result<String, DecodeError>)
    requires
        old(cur).wf(),
    ensures
        final(cur).wf(),
        final(cur).bytes() == old(cur).bytes(),
        match spec_read_key(old(cur).bytes(), old(cur).pos as int) {
            Ok((cs, p)) => r matches Ok(k) && k@ == cs && final(cur).pos == p,
            Err((e, p)) => r == Err::<String, DecodeError>(e) && final(cur).pos == p,
        },
{
    let l = match read_length(cur) {
        Ok(l) => l,
        Err(e) => {
            return Err(e);
        },
    };
    let n: u32 = match l {
        Length::Raw(n) => n,
        Length::FixedWidth(n) => n,
        Length::Encoded(_) => {
            return Err(DecodeError::UnsupportedEncoding);
        },
    };
    let kb = match cur.take(n as usize) {
        Ok(v) => v,
        Err(e) => {
            return Err(e);
        },
    };
    match string_from_utf8(kb) {
        Some(s) => Ok(s),
        None => Ok(key_placeholder_string()),
    }
}

/// Decode one auxiliary header pair: a single-byte key length, the key bytes
/// (placeholder-tolerated), then a scalar value.  Only shapes a record can
/// carry are accepted.
pub fn read_key_value(cur: &mut ByteCursor) -> (r: Result<KeyValueRecord, DecodeError>)
    requires
        old(cur).wf(),
    ensures
        final(cur).wf(),
        final(cur).bytes() == old(cur).bytes(),
        match spec_read_key_value(old(cur).bytes(), old(cur).pos as int) {
            Ok((rv, p)) => r matches Ok(kv) && kv@ == rv && final(cur).pos == p,
            Err((e, p)) => r == Err::<KeyValueRecord, DecodeError>(e) && final(cur).pos == p,
        },
{
    let klen = match cur.next_byte() {
        Ok(b) => b,
        Err(e) => {
            return Err(e);
        },
    };
    let kb = match cur.take(klen as usize) {
        Ok(v) => v,
        Err(e) => {
            return Err(e);
        },
    };
    let key = match string_from_utf8(kb) {
        Some(s) => s,
        None => key_placeholder_string(),
    };
    let v = match read_length_encoding(cur) {
        Ok(v) => v,
        Err(e) => {
            return Err(e);
        },
    };
    match v {
        ScalarValue::Utf8String(s) => Ok(KeyValueRecord { key, val: RecordValue::Str(s) }),
        ScalarValue::UInt8(u) => Ok(KeyValueRecord { key, val: RecordValue::SmallUInt8(u) }),
        ScalarValue::UInt16(u) => Ok(KeyValueRecord { key, val: RecordValue::SmallUInt16(u) }),
        ScalarValue::UInt32(u) => Ok(KeyValueRecord { key, val: RecordValue::SmallUInt32(u) }),
        _ => Err(DecodeError::UnsupportedEncoding),
    }
}

/// Decode one tagged record: a value-type tag byte, the key, then a payload
/// picked by the tag.  Tag 0 wraps a scalar as a string or small 16-bit
/// integer; tag 13 wraps a ziplist as a list; every other tag is
/// unsupported.
pub fn read_value_type(cur: &mut ByteCursor) -> (r: Result<KeyValueRecord, DecodeError>)
    requires
        old(cur).wf(),
    ensures
        final(cur).wf(),
        final(cur).bytes() == old(cur).bytes(),
        match spec_read_value_type(old(cur).bytes(), old(cur).pos as int) {
            Ok((rv, p)) => r matches Ok(kv) && kv@ == rv && final(cur).pos == p,
            Err((e, p)) => r == Err::<KeyValueRecord, DecodeError>(e) && final(cur).pos == p,
        },
{
    let tag = match cur.next_byte() {
        Ok(b) => b,
        Err(e) => {
            return Err(e);
        },
    };
    let key = match read_record_key(cur) {
        Ok(k) => k,
        Err(e) => {
            return Err(e);
        },
    };
    if tag == 0 {
        let v = match read_length_encoding(cur) {
            Ok(v) => v,
            Err(e) => {
                return Err(e);
            },
        };
        match v {
            ScalarValue::Utf8String(s) => Ok(KeyValueRecord { key, val: RecordValue::Str(s) }),
            ScalarValue::UInt16(u) => Ok(KeyValueRecord { key, val: RecordValue::SmallUInt16(u) }),
            _ => Err(DecodeError::UnsupportedEncoding),
        }
    } else if tag == 13 {
        match parse_ziplist_encoding(cur) {
            Ok(es) => Ok(KeyValueRecord { key, val: RecordValue::List(es) }),
            Err(e) => Err(e),
        }
    } else {
        Err(DecodeError::UnsupportedValueType)
    }
}

} // verus!
