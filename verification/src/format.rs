//! The mathematical description of the snapshot format.
//!
//! Every decoder in this crate is specified against the functions here: a
//! `spec_*` function maps the input bytes and a position to either the decoded
//! value together with the position of the first unconsumed byte, or to the
//! error and the position the cursor stops at.  The executable decoders are
//! proved to return exactly what these functions say.

use vstd::prelude::*;
use vstd::utf8::{decode_utf8, valid_utf8};

use crate::errors::DecodeError;
use crate::ints::{as_signed16, as_signed32, as_signed64, be32, le16, le32, le64};
use crate::model::{DatabaseV, KeyValueRecordV, Length, RecordValueV, ScalarValueV, SnapshotV, ZiplistEntryV};

verus! {

/// What a decode step yields: the value and the next position, or the error
/// and the position the cursor was left at.
pub type Parsed<T> = Result<(T, int), (DecodeError, int)>;

/// Introduces an auxiliary key-value pair in the header.
pub const OP_AUX: u8 = 0xFA;

/// Declares the hash-table and expiry-table sizes of a section.
pub const OP_RESIZE_DB: u8 = 0xFB;

/// Attaches a millisecond expiry to the next record.
pub const OP_EXPIRE_TIME_MS: u8 = 0xFC;

/// Attaches a second-resolution expiry to the next record (not supported).
pub const OP_EXPIRE_TIME_SEC: u8 = 0xFD;

/// Opens a database section.
pub const OP_SELECT_DB: u8 = 0xFE;

/// Ends the file; also the end-of-ziplist sentinel.
pub const OP_EOF: u8 = 0xFF;

/// The smallest byte value reserved for opcodes; anything below it at a
/// record position is a value-type tag.
pub const OPCODE_FLOOR: u8 = 245;

/// The reading of one peeked byte, shared by the header and section decoders.
#[derive(Clone, Copy, PartialEq, Eq, Debug, Structural)]
pub enum Opcode {
    Aux,
    ResizeDb,
    ExpireTimeMs,
    ExpireTimeSec,
    SelectDb,
    Eof,
    /// A byte below the reserved range: a value-type tag.
    ValueTag(u8),
    /// A byte in the reserved range that is no known opcode.
    Reserved(u8),
}

/// How a single byte is read where an opcode may stand.
pub open spec fn spec_classify(b: u8) -> Opcode {
    if b == OP_AUX {
        Opcode::Aux
    } else if b == OP_RESIZE_DB {
        Opcode::ResizeDb
    } else if b == OP_EXPIRE_TIME_MS {
        Opcode::ExpireTimeMs
    } else if b == OP_EXPIRE_TIME_SEC {
        Opcode::ExpireTimeSec
    } else if b == OP_SELECT_DB {
        Opcode::SelectDb
    } else if b == OP_EOF {
        Opcode::Eof
    } else if b < OPCODE_FLOOR {
        Opcode::ValueTag(b)
    } else {
        Opcode::Reserved(b)
    }
}

/// Classify one peeked byte.
pub fn classify(b: u8) -> (r: Opcode)
    ensures
        r == spec_classify(b),
{
    if b == OP_AUX {
        Opcode::Aux
    } else if b == OP_RESIZE_DB {
        Opcode::ResizeDb
    } else if b == OP_EXPIRE_TIME_MS {
        Opcode::ExpireTimeMs
    } else if b == OP_EXPIRE_TIME_SEC {
        Opcode::ExpireTimeSec
    } else if b == OP_SELECT_DB {
        Opcode::SelectDb
    } else if b == OP_EOF {
        Opcode::Eof
    } else if b < OPCODE_FLOOR {
        Opcode::ValueTag(b)
    } else {
        Opcode::Reserved(b)
    }
}

/// The diagnostic text substituted for a key that is not valid UTF-8.
pub open spec fn key_placeholder() -> Seq<char> {
    "<invalid utf-8 key>"@
}

/// The executable form of `key_placeholder`.
pub fn key_placeholder_string() -> (s: String)
    ensures
        s@ == key_placeholder(),
{
    "<invalid utf-8 key>".to_owned()
}

/// Taking `n` bytes at `pos`: the bytes and the new position, or a truncation
/// failure that leaves the position unchanged.
pub open spec fn spec_take(s: Seq<u8>, pos: int, n: int) -> Parsed<Seq<u8>> {
    if 0 <= n && pos + n <= s.len() {
        Ok((s.subrange(pos, pos + n), pos + n))
    } else {
        Err((DecodeError::TruncatedInput, pos))
    }
}

/// Decoding a variable-width length field (section 4.1 of the format).
/// The first byte's top two bits select the mode; mode `10` takes a
/// discriminator byte of which only 0 (32-bit big-endian) is supported.
pub open spec fn spec_read_length(s: Seq<u8>, pos: int) -> Parsed<Length> {
    if pos >= s.len() || pos < 0 {
        Err((DecodeError::TruncatedInput, pos))
    } else {
        let b = s[pos];
        let mode = b / 64;
        let low = b % 64;
        if mode == 0 {
            Ok((Length::Raw(low as u32), pos + 1))
        } else if mode == 1 {
            if pos + 2 <= s.len() {
                Ok((Length::Raw((low * 256 + s[pos + 1]) as u32), pos + 2))
            } else {
                Err((DecodeError::TruncatedInput, pos + 1))
            }
        } else if mode == 2 {
            if pos + 2 <= s.len() {
                if s[pos + 1] == 0 {
                    if pos + 6 <= s.len() {
                        Ok((Length::FixedWidth(be32(s.subrange(pos + 2, pos + 6)) as u32), pos + 6))
                    } else {
                        Err((DecodeError::TruncatedInput, pos + 2))
                    }
                } else {
                    Err((DecodeError::UnsupportedEncoding, pos + 2))
                }
            } else {
                Err((DecodeError::TruncatedInput, pos + 1))
            }
        } else {
            Ok((Length::Encoded(low), pos + 1))
        }
    }
}

/// Reading `n` bytes as a required UTF-8 string: invalid UTF-8 here is a
/// hard failure.
pub open spec fn spec_read_str(s: Seq<u8>, pos: int, n: int) -> Parsed<Seq<char>> {
    match spec_take(s, pos, n) {
        Ok((b, p)) => if valid_utf8(b) {
            Ok((decode_utf8(b), p))
        } else {
            Err((DecodeError::InvalidUtf8, p))
        },
        Err(e) => Err(e),
    }
}

/// The characters of a key: its UTF-8 decoding, or the diagnostic
/// placeholder where the bytes are not valid UTF-8 (tolerated for keys).
pub open spec fn spec_key_chars(b: Seq<u8>) -> Seq<char> {
    if valid_utf8(b) {
        decode_utf8(b)
    } else {
        key_placeholder()
    }
}

/// Decoding one scalar by the length and special-integer rules: a plain
/// length introduces a string, an encoded length a little-endian unsigned
/// integer of 8, 16 or 32 bits, and the compressed sub-mode is unsupported.
pub open spec fn spec_read_scalar(s: Seq<u8>, pos: int) -> Parsed<ScalarValueV> {
    match spec_read_length(s, pos) {
        Err(e) => Err(e),
        Ok((Length::Raw(n), p)) => match spec_read_str(s, p, n as int) {
            Ok((cs, p2)) => Ok((ScalarValueV::Utf8String(cs), p2)),
            Err(e) => Err(e),
        },
        Ok((Length::FixedWidth(n), p)) => Ok((ScalarValueV::UInt32(n), p)),
        Ok((Length::Encoded(enc), p)) => if enc == 0 {
            if p + 1 <= s.len() {
                Ok((ScalarValueV::UInt8(s[p]), p + 1))
            } else {
                Err((DecodeError::TruncatedInput, p))
            }
        } else if enc == 1 {
            match spec_take(s, p, 2) {
                Ok((b, p2)) => Ok((ScalarValueV::UInt16(le16(b) as u16), p2)),
                Err(e) => Err(e),
            }
        } else if enc == 2 {
            match spec_take(s, p, 4) {
                Ok((b, p2)) => Ok((ScalarValueV::UInt32(le32(b) as u32), p2)),
                Err(e) => Err(e),
            }
        } else {
            Err((DecodeError::UnsupportedEncoding, p))
        },
    }
}

/// Decoding the key of a tagged record: a plain length, then that many key
/// bytes.  An encoded-integer length cannot stand at this position.
pub open spec fn spec_read_key(s: Seq<u8>, pos: int) -> Parsed<Seq<char>> {
    match spec_read_length(s, pos) {
        Err(e) => Err(e),
        Ok((Length::Encoded(_), p)) => Err((DecodeError::UnsupportedEncoding, p)),
        Ok((Length::Raw(n), p)) => match spec_take(s, p, n as int) {
            Ok((b, p2)) => Ok((spec_key_chars(b), p2)),
            Err(e) => Err(e),
        },
        Ok((Length::FixedWidth(n), p)) => match spec_take(s, p, n as int) {
            Ok((b, p2)) => Ok((spec_key_chars(b), p2)),
            Err(e) => Err(e),
        },
    }
}

/// Decoding the payload of one ziplist entry, after the previous-entry
/// length prefix: a header byte whose top two bits select a string length
/// form, or whose next two bits select a signed little-endian integer
/// width.  The 24-bit form is zero-padded at the low byte.
pub open spec fn spec_zl_payload(s: Seq<u8>, p: int) -> Parsed<ZiplistEntryV> {
    if p >= s.len() || p < 0 {
        Err((DecodeError::TruncatedInput, p))
    } else {
        let h = s[p];
        let mode = h / 64;
        let sub = (h % 64) / 16;
        if mode == 0 {
            match spec_read_str(s, p + 1, (h % 64) as int) {
                Ok((cs, p2)) => Ok((ZiplistEntryV::Str(cs), p2)),
                Err(e) => Err(e),
            }
        } else if mode == 1 {
            if p + 2 <= s.len() {
                match spec_read_str(s, p + 2, (h % 64) * 256 + s[p + 1]) {
                    Ok((cs, p2)) => Ok((ZiplistEntryV::Str(cs), p2)),
                    Err(e) => Err(e),
                }
            } else {
                Err((DecodeError::TruncatedInput, p + 1))
            }
        } else if mode == 2 {
            match spec_take(s, p + 1, 4) {
                Ok((b, p2)) => match spec_read_str(s, p2, be32(b)) {
                    Ok((cs, p3)) => Ok((ZiplistEntryV::Str(cs), p3)),
                    Err(e) => Err(e),
                },
                Err(e) => Err(e),
            }
        } else if sub == 0 {
            match spec_take(s, p + 1, 2) {
                Ok((b, p2)) => Ok((ZiplistEntryV::Int16(as_signed16(le16(b)) as i16), p2)),
                Err(e) => Err(e),
            }
        } else if sub == 1 {
            match spec_take(s, p + 1, 4) {
                Ok((b, p2)) => Ok((ZiplistEntryV::Int32(as_signed32(le32(b)) as i32), p2)),
                Err(e) => Err(e),
            }
        } else if sub == 2 {
            match spec_take(s, p + 1, 8) {
                Ok((b, p2)) => Ok((ZiplistEntryV::Int64(as_signed64(le64(b)) as i64), p2)),
                Err(e) => Err(e),
            }
        } else {
            match spec_take(s, p + 1, 3) {
                Ok((b, p2)) => Ok(
                    (
                        ZiplistEntryV::Int32(as_signed32(le32(seq![0u8, b[0], b[1], b[2]])) as i32),
                        p2,
                    ),
                ),
                Err(e) => Err(e),
            }
        }
    }
}

/// Decoding one ziplist entry (section 4.2): a discarded previous-entry
/// length prefix (one byte, or the marker 254 followed by four more), then
/// the payload.
pub open spec fn spec_zl_entry(s: Seq<u8>, pos: int) -> Parsed<ZiplistEntryV> {
    if pos >= s.len() || pos < 0 {
        Err((DecodeError::TruncatedInput, pos))
    } else {
        if s[pos] == 254 {
            if pos + 5 <= s.len() {
                spec_zl_payload(s, pos + 5)
            } else {
                Err((DecodeError::TruncatedInput, pos + 1))
            }
        } else {
            spec_zl_payload(s, pos + 1)
        }
    }
}

/// Decoding `n` consecutive ziplist entries.
pub open spec fn spec_zl_entries(s: Seq<u8>, pos: int, n: nat) -> Parsed<Seq<ZiplistEntryV>>
    decreases n,
{
    if n == 0 {
        Ok((Seq::empty(), pos))
    } else {
        match spec_zl_entry(s, pos) {
            Err(e) => Err(e),
            Ok((e, p)) => match spec_zl_entries(s, p, (n - 1) as nat) {
                Err(err) => Err(err),
                Ok((rest, p2)) => Ok((seq![e] + rest, p2)),
            },
        }
    }
}

/// The state of a decoder part way through a run of ziplist entries:
/// `acc` holds the `done` entries decoded so far, the next one starts at
/// `pos`, and however the remaining entries turn out, the whole run from
/// `start` turns out the same way.
#[verifier::opaque]
pub open spec fn zl_entries_loop_inv(
    s: Seq<u8>,
    start: int,
    total: nat,
    acc: Seq<ZiplistEntryV>,
    pos: int,
    done: nat,
) -> bool {
    &&& done <= total
    &&& 0 <= pos <= s.len()
    &&& match spec_zl_entries(s, pos, (total - done) as nat) {
        Ok((rest, pe)) => spec_zl_entries(s, start, total) == Ok::<_, (DecodeError, int)>(
            (acc + rest, pe),
        ),
        Err(e) => spec_zl_entries(s, start, total) == Err::<(Seq<ZiplistEntryV>, int), _>(e),
    }
}

pub proof fn lemma_zl_loop_init(s: Seq<u8>, start: int, total: nat)
    requires
        0 <= start <= s.len(),
    ensures
        zl_entries_loop_inv(s, start, total, Seq::empty(), start, 0),
{
    reveal(zl_entries_loop_inv);
    match spec_zl_entries(s, start, total) {
        Ok((rest, _)) => {
            assert(Seq::<ZiplistEntryV>::empty() + rest =~= rest);
        },
        Err(_) => {},
    }
}

pub proof fn lemma_zl_loop_step(
    s: Seq<u8>,
    start: int,
    total: nat,
    acc: Seq<ZiplistEntryV>,
    pos: int,
    done: nat,
)
    requires
        zl_entries_loop_inv(s, start, total, acc, pos, done),
        done < total,
    ensures
        match spec_zl_entry(s, pos) {
            Ok((e, p)) => zl_entries_loop_inv(s, start, total, acc.push(e), p, done + 1),
            Err((err, p)) => spec_zl_entries(s, start, total) == Err::<
                (Seq<ZiplistEntryV>, int),
                _,
            >((err, p)),
        },
{
    reveal(zl_entries_loop_inv);
    lemma_zl_entry_bounds(s, pos);
    match spec_zl_entry(s, pos) {
        Ok((e, p)) => {
            match spec_zl_entries(s, p, (total - done - 1) as nat) {
                Ok((rest, _)) => {
                    assert(acc + (seq![e] + rest) =~= acc.push(e) + rest);
                },
                Err(_) => {},
            }
        },
        Err(_) => {},
    }
}

/// A decoder that has consumed a ziplist blob's preamble and stands at the
/// first entry: however the run of `total` entries from `entries_start`
/// turns out, the whole blob from `pos0` turns out accordingly.
#[verifier::opaque]
pub open spec fn zl_blob_inv(s: Seq<u8>, pos0: int, entries_start: int, total: nat) -> bool {
    match spec_zl_entries(s, entries_start, total) {
        Err(e) => spec_read_ziplist(s, pos0) == Err::<(Seq<ZiplistEntryV>, int), _>(e),
        Ok((es, pe)) => spec_read_ziplist(s, pos0) == spec_zl_finish(s, es, pe),
    }
}

pub proof fn lemma_zl_blob_inv_intro(s: Seq<u8>, pos0: int, p: int, p1: int, p2: int, cnt: Seq<u8>)
    requires
        spec_read_length(s, pos0) matches Ok(lr) && lr.1 == p,
        spec_take(s, p, 8) matches Ok(t8) && t8.1 == p1,
        spec_take(s, p1, 2) matches Ok(t2) && t2.0 == cnt && t2.1 == p2,
    ensures
        zl_blob_inv(s, pos0, p2, le16(cnt) as nat),
{
    reveal(zl_blob_inv);
}

pub proof fn lemma_zl_blob_err(s: Seq<u8>, pos0: int, entries_start: int, total: nat)
    requires
        zl_blob_inv(s, pos0, entries_start, total),
        spec_zl_entries(s, entries_start, total) is Err,
    ensures
        spec_read_ziplist(s, pos0) == Err::<(Seq<ZiplistEntryV>, int), (DecodeError, int)>(
            spec_zl_entries(s, entries_start, total)->Err_0,
        ),
{
    reveal(zl_blob_inv);
}

pub proof fn lemma_zl_blob_done(
    s: Seq<u8>,
    pos0: int,
    entries_start: int,
    total: nat,
    acc: Seq<ZiplistEntryV>,
    pe: int,
)
    requires
        zl_blob_inv(s, pos0, entries_start, total),
        spec_zl_entries(s, entries_start, total) == Ok::<_, (DecodeError, int)>((acc, pe)),
    ensures
        spec_read_ziplist(s, pos0) == spec_zl_finish(s, acc, pe),
{
    reveal(zl_blob_inv);
}

pub proof fn lemma_zl_loop_exit(
    s: Seq<u8>,
    start: int,
    total: nat,
    acc: Seq<ZiplistEntryV>,
    pos: int,
)
    requires
        zl_entries_loop_inv(s, start, total, acc, pos, total),
    ensures
        spec_zl_entries(s, start, total) == Ok::<_, (DecodeError, int)>((acc, pos)),
{
    reveal(zl_entries_loop_inv);
    assert(acc + Seq::<ZiplistEntryV>::empty() =~= acc);
}

/// How a ziplist blob ends, once its entries are decoded: the sentinel must
/// be present and be 0xFF.
pub open spec fn spec_zl_finish(s: Seq<u8>, es: Seq<ZiplistEntryV>, p3: int) -> Parsed<
    Seq<ZiplistEntryV>,
> {
    if p3 >= s.len() {
        Err((DecodeError::TruncatedInput, p3))
    } else if s[p3] == OP_EOF {
        Ok((es, p3 + 1))
    } else {
        Err((DecodeError::UnexpectedOpcode, p3 + 1))
    }
}

/// Decoding a whole ziplist blob (section 4.2): a length field, a discarded
/// four-byte total and four-byte tail offset, a two-byte little-endian entry
/// count that is authoritative, that many entries, then the 0xFF sentinel.
/// A missing sentinel is a failure, never a silent truncation.
pub open spec fn spec_read_ziplist(s: Seq<u8>, pos: int) -> Parsed<Seq<ZiplistEntryV>> {
    match spec_read_length(s, pos) {
        Err(e) => Err(e),
        Ok((_, p)) => match spec_take(s, p, 8) {
            Err(e) => Err(e),
            Ok((_, p1)) => match spec_take(s, p1, 2) {
                Err(e) => Err(e),
                Ok((cnt, p2)) => match spec_zl_entries(s, p2, le16(cnt) as nat) {
                    Err(e) => Err(e),
                    Ok((es, p3)) => spec_zl_finish(s, es, p3),
                },
            },
        },
    }
}

/// Decoding one auxiliary header pair (section 4.4): a single-byte key
/// length, the key bytes (placeholder-tolerated), then a scalar value.
pub open spec fn spec_read_key_value(s: Seq<u8>, pos: int) -> Parsed<KeyValueRecordV> {
    if pos >= s.len() || pos < 0 {
        Err((DecodeError::TruncatedInput, pos))
    } else {
        let klen = s[pos];
        match spec_take(s, pos + 1, klen as int) {
            Err(e) => Err(e),
            Ok((kb, p)) => match spec_read_scalar(s, p) {
                Err(e) => Err(e),
                Ok((v, p2)) => match v {
                    ScalarValueV::Utf8String(cs) => Ok(
                        (KeyValueRecordV { key: spec_key_chars(kb), val: RecordValueV::Str(cs) }, p2),
                    ),
                    ScalarValueV::UInt8(u) => Ok(
                        (
                            KeyValueRecordV {
                                key: spec_key_chars(kb),
                                val: RecordValueV::SmallUInt8(u),
                            },
                            p2,
                        ),
                    ),
                    ScalarValueV::UInt16(u) => Ok(
                        (
                            KeyValueRecordV {
                                key: spec_key_chars(kb),
                                val: RecordValueV::SmallUInt16(u),
                            },
                            p2,
                        ),
                    ),
                    ScalarValueV::UInt32(u) => Ok(
                        (
                            KeyValueRecordV {
                                key: spec_key_chars(kb),
                                val: RecordValueV::SmallUInt32(u),
                            },
                            p2,
                        ),
                    ),
                    _ => Err((DecodeError::UnsupportedEncoding, p2)),
                },
            },
        }
    }
}

/// Decoding one tagged record (section 4.3): a value-type tag byte, the key,
/// then a payload picked by the tag.  Tag 0 is a scalar (string or small
/// 16-bit integer), tag 13 a ziplist; every other tag is unsupported.
pub open spec fn spec_read_value_type(s: Seq<u8>, pos: int) -> Parsed<KeyValueRecordV> {
    if pos >= s.len() || pos < 0 {
        Err((DecodeError::TruncatedInput, pos))
    } else {
        let tag = s[pos];
        match spec_read_key(s, pos + 1) {
            Err(e) => Err(e),
            Ok((key, p)) => if tag == 0 {
                match spec_read_scalar(s, p) {
                    Err(e) => Err(e),
                    Ok((ScalarValueV::Utf8String(cs), p2)) => Ok(
                        (KeyValueRecordV { key, val: RecordValueV::Str(cs) }, p2),
                    ),
                    Ok((ScalarValueV::UInt16(u), p2)) => Ok(
                        (KeyValueRecordV { key, val: RecordValueV::SmallUInt16(u) }, p2),
                    ),
                    Ok((_, p2)) => Err((DecodeError::UnsupportedEncoding, p2)),
                }
            } else if tag == 13 {
                match spec_read_ziplist(s, p) {
                    Err(e) => Err(e),
                    Ok((es, p2)) => Ok((KeyValueRecordV { key, val: RecordValueV::List(es) }, p2)),
                }
            } else {
                Err((DecodeError::UnsupportedValueType, p))
            },
        }
    }
}

/// Every decode step leaves the position inside the input, and a successful
/// one never moves it backwards.
pub proof fn lemma_take_bounds(s: Seq<u8>, pos: int, n: int)
    requires
        0 <= pos <= s.len(),
    ensures
        match spec_take(s, pos, n) {
            Ok((_, p)) => pos <= p <= s.len(),
            Err((_, p)) => p == pos,
        },
{
}

pub proof fn lemma_read_length_bounds(s: Seq<u8>, pos: int)
    requires
        0 <= pos <= s.len(),
    ensures
        match spec_read_length(s, pos) {
            Ok((_, p)) => pos + 1 <= p <= s.len(),
            Err((_, p)) => pos <= p <= s.len(),
        },
{
}

pub proof fn lemma_read_str_bounds(s: Seq<u8>, pos: int, n: int)
    requires
        0 <= pos <= s.len(),
    ensures
        match spec_read_str(s, pos, n) {
            Ok((_, p)) => pos <= p <= s.len(),
            Err((_, p)) => pos <= p <= s.len(),
        },
{
    lemma_take_bounds(s, pos, n);
}

pub proof fn lemma_read_scalar_bounds(s: Seq<u8>, pos: int)
    requires
        0 <= pos <= s.len(),
    ensures
        match spec_read_scalar(s, pos) {
            Ok((_, p)) => pos + 1 <= p <= s.len(),
            Err((_, p)) => pos <= p <= s.len(),
        },
{
    lemma_read_length_bounds(s, pos);
    match spec_read_length(s, pos) {
        Ok((Length::Raw(n), p)) => {
            lemma_read_str_bounds(s, p, n as int);
        },
        Ok((Length::Encoded(enc), p)) => {
            lemma_take_bounds(s, p, 2);
            lemma_take_bounds(s, p, 4);
        },
        _ => {},
    }
}

pub proof fn lemma_read_key_bounds(s: Seq<u8>, pos: int)
    requires
        0 <= pos <= s.len(),
    ensures
        match spec_read_key(s, pos) {
            Ok((_, p)) => pos + 1 <= p <= s.len(),
            Err((_, p)) => pos <= p <= s.len(),
        },
{
    lemma_read_length_bounds(s, pos);
    match spec_read_length(s, pos) {
        Ok((Length::Raw(n), p)) => {
            lemma_take_bounds(s, p, n as int);
        },
        Ok((Length::FixedWidth(n), p)) => {
            lemma_take_bounds(s, p, n as int);
        },
        _ => {},
    }
}

pub proof fn lemma_zl_payload_bounds(s: Seq<u8>, p: int)
    requires
        0 <= p <= s.len(),
    ensures
        match spec_zl_payload(s, p) {
            Ok((_, p2)) => p + 1 <= p2 <= s.len(),
            Err((_, p2)) => p <= p2 <= s.len(),
        },
{
    if p < s.len() {
        let h = s[p];
        lemma_read_str_bounds(s, p + 1, (h % 64) as int);
        if p + 2 <= s.len() {
            lemma_read_str_bounds(s, p + 2, (h % 64) * 256 + s[p + 1]);
        }
        lemma_take_bounds(s, p + 1, 4);
        match spec_take(s, p + 1, 4) {
            Ok((b, p2)) => {
                lemma_read_str_bounds(s, p2, be32(b));
            },
            _ => {},
        }
        lemma_take_bounds(s, p + 1, 2);
        lemma_take_bounds(s, p + 1, 8);
        lemma_take_bounds(s, p + 1, 3);
    }
}

pub proof fn lemma_zl_entry_bounds(s: Seq<u8>, pos: int)
    requires
        0 <= pos <= s.len(),
    ensures
        match spec_zl_entry(s, pos) {
            Ok((_, p)) => pos + 2 <= p <= s.len(),
            Err((_, p)) => pos <= p <= s.len(),
        },
{
    if pos < s.len() {
        let p = if s[pos] == 254 { pos + 5 } else { pos + 1 };
        if p <= s.len() {
            lemma_zl_payload_bounds(s, p);
        }
    }
}

pub proof fn lemma_zl_entries_bounds(s: Seq<u8>, pos: int, n: nat)
    requires
        0 <= pos <= s.len(),
    ensures
        match spec_zl_entries(s, pos, n) {
            Ok((_, p)) => pos <= p <= s.len(),
            Err((_, p)) => pos <= p <= s.len(),
        },
    decreases n,
{
    if n > 0 {
        lemma_zl_entry_bounds(s, pos);
        match spec_zl_entry(s, pos) {
            Ok((_, p)) => {
                lemma_zl_entries_bounds(s, p, (n - 1) as nat);
            },
            _ => {},
        }
    }
}

pub proof fn lemma_read_ziplist_bounds(s: Seq<u8>, pos: int)
    requires
        0 <= pos <= s.len(),
    ensures
        match spec_read_ziplist(s, pos) {
            Ok((_, p)) => pos + 1 <= p <= s.len(),
            Err((_, p)) => pos <= p <= s.len(),
        },
{
    lemma_read_length_bounds(s, pos);
    match spec_read_length(s, pos) {
        Ok((_, p)) => {
            lemma_take_bounds(s, p, 8);
            match spec_take(s, p, 8) {
                Ok((_, p1)) => {
                    lemma_take_bounds(s, p1, 2);
                    match spec_take(s, p1, 2) {
                        Ok((cnt, p2)) => {
                            lemma_zl_entries_bounds(s, p2, le16(cnt) as nat);
                        },
                        _ => {},
                    }
                },
                _ => {},
            }
        },
        _ => {},
    }
}

pub proof fn lemma_read_key_value_bounds(s: Seq<u8>, pos: int)
    requires
        0 <= pos <= s.len(),
    ensures
        match spec_read_key_value(s, pos) {
            Ok((_, p)) => pos + 2 <= p <= s.len(),
            Err((_, p)) => pos <= p <= s.len(),
        },
{
    if pos < s.len() {
        let klen = s[pos];
        lemma_take_bounds(s, pos + 1, klen as int);
        match spec_take(s, pos + 1, klen as int) {
            Ok((_, p)) => {
                lemma_read_scalar_bounds(s, p);
            },
            _ => {},
        }
    }
}

pub proof fn lemma_read_value_type_bounds(s: Seq<u8>, pos: int)
    requires
        0 <= pos <= s.len(),
    ensures
        match spec_read_value_type(s, pos) {
            Ok((_, p)) => pos + 2 <= p <= s.len(),
            Err((_, p)) => pos <= p <= s.len(),
        },
{
    if pos < s.len() {
        lemma_read_key_bounds(s, pos + 1);
        match spec_read_key(s, pos + 1) {
            Ok((_, p)) => {
                lemma_read_scalar_bounds(s, p);
                lemma_read_ziplist_bounds(s, p);
            },
            _ => {},
        }
    }
}

/// Decoding the header (section 4.4): auxiliary pairs until the
/// select-database sentinel, which is left unconsumed.  Any other byte here
/// is a malformed header.
pub open spec fn spec_parse_header(s: Seq<u8>, pos: int) -> Parsed<Seq<KeyValueRecordV>>
    decreases s.len() - pos,
        when 0 <= pos <= s.len()
        via spec_parse_header_dec
{
    if pos >= s.len() {
        Err((DecodeError::TruncatedInput, pos))
    } else {
        match spec_classify(s[pos]) {
            Opcode::SelectDb => Ok((Seq::empty(), pos)),
            Opcode::Aux => match spec_read_key_value(s, pos + 1) {
                Err(e) => Err(e),
                Ok((r, p)) => match spec_parse_header(s, p) {
                    Err(e) => Err(e),
                    Ok((rest, p2)) => Ok((seq![r] + rest, p2)),
                },
            },
            _ => Err((DecodeError::MalformedHeader, pos)),
        }
    }
}

#[via_fn]
proof fn spec_parse_header_dec(s: Seq<u8>, pos: int) {
    if pos < s.len() && spec_classify(s[pos]) == Opcode::Aux {
        lemma_read_key_value_bounds(s, pos + 1);
    }
}

/// A decoder part way through the header: `acc` holds the pairs decoded so
/// far, the next opcode stands at `pos`, and however the rest of the header
/// turns out, the whole header from `start` turns out accordingly.
#[verifier::opaque]
pub open spec fn header_loop_inv(s: Seq<u8>, start: int, acc: Seq<KeyValueRecordV>, pos: int) -> bool {
    &&& 0 <= pos <= s.len()
    &&& match spec_parse_header(s, pos) {
        Ok((rest, pe)) => spec_parse_header(s, start) == Ok::<_, (DecodeError, int)>(
            (acc + rest, pe),
        ),
        Err(e) => spec_parse_header(s, start) == Err::<(Seq<KeyValueRecordV>, int), _>(e),
    }
}

pub proof fn lemma_header_loop_init(s: Seq<u8>, start: int)
    requires
        0 <= start <= s.len(),
    ensures
        header_loop_inv(s, start, Seq::empty(), start),
{
    reveal(header_loop_inv);
    match spec_parse_header(s, start) {
        Ok((rest, _)) => {
            assert(Seq::<KeyValueRecordV>::empty() + rest =~= rest);
        },
        Err(_) => {},
    }
}

pub proof fn lemma_header_loop_aux(s: Seq<u8>, start: int, acc: Seq<KeyValueRecordV>, pos: int)
    requires
        header_loop_inv(s, start, acc, pos),
        pos < s.len(),
        spec_classify(s[pos]) == Opcode::Aux,
    ensures
        match spec_read_key_value(s, pos + 1) {
            Ok((r, p)) => header_loop_inv(s, start, acc.push(r), p) && pos + 2 <= p,
            Err((e, p)) => spec_parse_header(s, start) == Err::<(Seq<KeyValueRecordV>, int), _>(
                (e, p),
            ),
        },
{
    reveal(header_loop_inv);
    lemma_read_key_value_bounds(s, pos + 1);
    match spec_read_key_value(s, pos + 1) {
        Ok((r, p)) => {
            match spec_parse_header(s, p) {
                Ok((rest, _)) => {
                    assert(acc + (seq![r] + rest) =~= acc.push(r) + rest);
                },
                Err(_) => {},
            }
        },
        Err(_) => {},
    }
}

pub proof fn lemma_header_loop_stop(s: Seq<u8>, start: int, acc: Seq<KeyValueRecordV>, pos: int)
    requires
        header_loop_inv(s, start, acc, pos),
        pos < s.len(),
        spec_classify(s[pos]) == Opcode::SelectDb,
    ensures
        spec_parse_header(s, start) == Ok::<_, (DecodeError, int)>((acc, pos)),
{
    reveal(header_loop_inv);
    assert(acc + Seq::<KeyValueRecordV>::empty() =~= acc);
}

pub proof fn lemma_header_loop_fail(s: Seq<u8>, start: int, acc: Seq<KeyValueRecordV>, pos: int)
    requires
        header_loop_inv(s, start, acc, pos),
    ensures
        pos >= s.len() ==> spec_parse_header(s, start) == Err::<(Seq<KeyValueRecordV>, int), _>(
            (DecodeError::TruncatedInput, pos),
        ),
        (pos < s.len() && spec_classify(s[pos]) != Opcode::Aux && spec_classify(s[pos])
            != Opcode::SelectDb) ==> spec_parse_header(s, start) == Err::<
            (Seq<KeyValueRecordV>, int),
            _,
        >((DecodeError::MalformedHeader, pos)),
{
    reveal(header_loop_inv);
}

/// Decoding the records of one section (the `ReadingRecords` state of
/// section 4.5).  An expire-time opcode stores a pending expiry for exactly
/// the next record; a record takes the pending expiry and resets it to zero;
/// a select-database or end-of-file opcode stops without consuming itself.
pub open spec fn spec_db_records(s: Seq<u8>, pos: int, pending: u64) -> Parsed<
    (Seq<KeyValueRecordV>, Seq<u64>),
>
    decreases s.len() - pos,
        when 0 <= pos <= s.len()
        via spec_db_records_dec
{
    if pos >= s.len() {
        Err((DecodeError::TruncatedInput, pos))
    } else {
        match spec_classify(s[pos]) {
            Opcode::SelectDb => Ok(((Seq::empty(), Seq::empty()), pos)),
            Opcode::Eof => Ok(((Seq::empty(), Seq::empty()), pos)),
            Opcode::ExpireTimeMs => if pos + 9 <= s.len() {
                spec_db_records(s, pos + 9, le64(s.subrange(pos + 1, pos + 9)) as u64)
            } else {
                Err((DecodeError::TruncatedInput, pos + 1))
            },
            Opcode::ValueTag(_) => match spec_read_value_type(s, pos) {
                Err(e) => Err(e),
                Ok((r, p)) => match spec_db_records(s, p, 0) {
                    Err(e) => Err(e),
                    Ok(((rs, es), p2)) => Ok(((seq![r] + rs, seq![pending] + es), p2)),
                },
            },
            _ => Err((DecodeError::UnexpectedOpcode, pos)),
        }
    }
}

#[via_fn]
proof fn spec_db_records_dec(s: Seq<u8>, pos: int, pending: u64) {
    if pos < s.len() && spec_classify(s[pos]) matches Opcode::ValueTag(_) {
        lemma_read_value_type_bounds(s, pos);
    }
}

pub proof fn lemma_db_records_bounds(s: Seq<u8>, pos: int, pending: u64)
    requires
        0 <= pos <= s.len(),
    ensures
        match spec_db_records(s, pos, pending) {
            Ok((_, p)) => pos <= p <= s.len(),
            Err((_, p)) => pos <= p <= s.len(),
        },
    decreases s.len() - pos,
{
    if pos < s.len() {
        if spec_classify(s[pos]) == Opcode::ExpireTimeMs && pos + 9 <= s.len() {
            lemma_db_records_bounds(s, pos + 9, le64(s.subrange(pos + 1, pos + 9)) as u64);
        }
        if spec_classify(s[pos]) matches Opcode::ValueTag(_) {
            lemma_read_value_type_bounds(s, pos);
            match spec_read_value_type(s, pos) {
                Ok((_, p)) => {
                    lemma_db_records_bounds(s, p, 0);
                },
                _ => {},
            }
        }
    }
}

/// A decoder part way through a section's records: `acc_r` and `acc_e` hold
/// the records and expiries decoded so far, `pending` the expiry waiting for
/// the next record, and however the rest of the records turn out, the whole
/// run from `start` (begun with no pending expiry) turns out accordingly.
#[verifier::opaque]
pub open spec fn db_records_loop_inv(
    s: Seq<u8>,
    start: int,
    acc_r: Seq<KeyValueRecordV>,
    acc_e: Seq<u64>,
    pos: int,
    pending: u64,
) -> bool {
    &&& 0 <= pos <= s.len()
    &&& match spec_db_records(s, pos, pending) {
        Ok(((rs, es), pe)) => spec_db_records(s, start, 0) == Ok::<_, (DecodeError, int)>(
            ((acc_r + rs, acc_e + es), pe),
        ),
        Err(e) => spec_db_records(s, start, 0) == Err::<
            ((Seq<KeyValueRecordV>, Seq<u64>), int),
            _,
        >(e),
    }
}

pub proof fn lemma_db_loop_init(s: Seq<u8>, start: int)
    requires
        0 <= start <= s.len(),
    ensures
        db_records_loop_inv(s, start, Seq::empty(), Seq::empty(), start, 0),
{
    reveal(db_records_loop_inv);
    match spec_db_records(s, start, 0) {
        Ok(((rs, es), _)) => {
            assert(Seq::<KeyValueRecordV>::empty() + rs =~= rs);
            assert(Seq::<u64>::empty() + es =~= es);
        },
        Err(_) => {},
    }
}

pub proof fn lemma_db_loop_expire(
    s: Seq<u8>,
    start: int,
    acc_r: Seq<KeyValueRecordV>,
    acc_e: Seq<u64>,
    pos: int,
    pending: u64,
)
    requires
        db_records_loop_inv(s, start, acc_r, acc_e, pos, pending),
        pos < s.len(),
        spec_classify(s[pos]) == Opcode::ExpireTimeMs,
    ensures
        pos + 9 <= s.len() ==> db_records_loop_inv(
            s,
            start,
            acc_r,
            acc_e,
            pos + 9,
            le64(s.subrange(pos + 1, pos + 9)) as u64,
        ),
        pos + 9 > s.len() ==> spec_db_records(s, start, 0) == Err::<
            ((Seq<KeyValueRecordV>, Seq<u64>), int),
            _,
        >((DecodeError::TruncatedInput, pos + 1)),
{
    reveal(db_records_loop_inv);
}

#[verifier::rlimit(50)]
pub proof fn lemma_db_loop_record(
    s: Seq<u8>,
    start: int,
    acc_r: Seq<KeyValueRecordV>,
    acc_e: Seq<u64>,
    pos: int,
    pending: u64,
)
    requires
        db_records_loop_inv(s, start, acc_r, acc_e, pos, pending),
        pos < s.len(),
        spec_classify(s[pos]) matches Opcode::ValueTag(_),
    ensures
        match spec_read_value_type(s, pos) {
            Ok((r, p)) => db_records_loop_inv(s, start, acc_r.push(r), acc_e.push(pending), p, 0)
                && pos + 2 <= p,
            Err((e, p)) => spec_db_records(s, start, 0) == Err::<
                ((Seq<KeyValueRecordV>, Seq<u64>), int),
                _,
            >((e, p)),
        },
{
    reveal(db_records_loop_inv);
    lemma_read_value_type_bounds(s, pos);
    match spec_read_value_type(s, pos) {
        Ok((r, p)) => {
            match spec_db_records(s, p, 0) {
                Ok(((rs, es), _)) => {
                    assert(acc_r + (seq![r] + rs) =~= acc_r.push(r) + rs);
                    assert(acc_e + (seq![pending] + es) =~= acc_e.push(pending) + es);
                },
                Err(_) => {},
            }
        },
        Err(_) => {},
    }
}

pub proof fn lemma_db_loop_stop(
    s: Seq<u8>,
    start: int,
    acc_r: Seq<KeyValueRecordV>,
    acc_e: Seq<u64>,
    pos: int,
    pending: u64,
)
    requires
        db_records_loop_inv(s, start, acc_r, acc_e, pos, pending),
        pos < s.len(),
        spec_classify(s[pos]) == Opcode::SelectDb || spec_classify(s[pos]) == Opcode::Eof,
    ensures
        spec_db_records(s, start, 0) == Ok::<_, (DecodeError, int)>(((acc_r, acc_e), pos)),
{
    reveal(db_records_loop_inv);
    assert(acc_r + Seq::<KeyValueRecordV>::empty() =~= acc_r);
    assert(acc_e + Seq::<u64>::empty() =~= acc_e);
}

pub proof fn lemma_db_loop_fail(
    s: Seq<u8>,
    start: int,
    acc_r: Seq<KeyValueRecordV>,
    acc_e: Seq<u64>,
    pos: int,
    pending: u64,
)
    requires
        db_records_loop_inv(s, start, acc_r, acc_e, pos, pending),
    ensures
        pos >= s.len() ==> spec_db_records(s, start, 0) == Err::<
            ((Seq<KeyValueRecordV>, Seq<u64>), int),
            _,
        >((DecodeError::TruncatedInput, pos)),
        (pos < s.len() && (spec_classify(s[pos]) == Opcode::Aux || spec_classify(s[pos])
            == Opcode::ResizeDb || spec_classify(s[pos]) == Opcode::ExpireTimeSec || spec_classify(
            s[pos],
        ) matches Opcode::Reserved(_))) ==> spec_db_records(s, start, 0) == Err::<
            ((Seq<KeyValueRecordV>, Seq<u64>), int),
            _,
        >((DecodeError::UnexpectedOpcode, pos)),
{
    reveal(db_records_loop_inv);
}

/// Decoding one database section (section 4.5).  A leading byte other than
/// the select-database opcode means "no more sections", which is not an
/// error.  The declared hash-table size must equal the number of records
/// found before the closing sentinel.
pub open spec fn spec_parse_db(s: Seq<u8>, pos: int) -> Parsed<Option<DatabaseV>> {
    if pos >= s.len() || pos < 0 {
        Err((DecodeError::TruncatedInput, pos))
    } else if s[pos] != OP_SELECT_DB {
        Ok((None, pos))
    } else if pos + 2 > s.len() {
        Err((DecodeError::TruncatedInput, pos + 1))
    } else if pos + 3 > s.len() {
        Err((DecodeError::TruncatedInput, pos + 2))
    } else if s[pos + 2] != OP_RESIZE_DB {
        Err((DecodeError::UnexpectedOpcode, pos + 3))
    } else {
        let id = s[pos + 1];
        match spec_read_length(s, pos + 3) {
            Err(e) => Err(e),
            Ok((Length::Raw(hash_size), p)) => match spec_read_length(s, p) {
                Err(e) => Err(e),
                Ok((Length::Raw(_), p2)) => match spec_db_records(s, p2, 0) {
                    Err(e) => Err(e),
                    Ok(((rs, es), p3)) => if rs.len() == hash_size {
                        Ok((Some(DatabaseV { id, entries: rs, expiries: es }), p3))
                    } else {
                        Err((DecodeError::RecordCountMismatch, p3))
                    },
                },
                Ok((_, p2)) => Err((DecodeError::UnsupportedEncoding, p2)),
            },
            Ok((_, p)) => Err((DecodeError::UnsupportedEncoding, p)),
        }
    }
}

pub proof fn lemma_parse_db_bounds(s: Seq<u8>, pos: int)
    requires
        0 <= pos <= s.len(),
    ensures
        match spec_parse_db(s, pos) {
            Ok((None, p)) => p == pos,
            Ok((Some(_), p)) => pos + 3 <= p <= s.len(),
            Err((_, p)) => pos <= p <= s.len(),
        },
{
    if pos + 3 <= s.len() && s[pos] == OP_SELECT_DB && s[pos + 2] == OP_RESIZE_DB {
        lemma_read_length_bounds(s, pos + 3);
        match spec_read_length(s, pos + 3) {
            Ok((Length::Raw(_), p)) => {
                lemma_read_length_bounds(s, p);
                match spec_read_length(s, p) {
                    Ok((Length::Raw(_), p2)) => {
                        lemma_db_records_bounds(s, p2, 0);
                    },
                    _ => {},
                }
            },
            _ => {},
        }
    }
}

/// A decoder that has consumed a section's opening opcodes and resize
/// directive and stands at the first record: however the run of records from
/// `start` turns out, the whole section from `pos0` turns out accordingly,
/// with the declared `hash_size` checked against the records found.
#[verifier::opaque]
pub open spec fn db_section_inv(s: Seq<u8>, pos0: int, start: int, hash_size: u32) -> bool {
    match spec_db_records(s, start, 0) {
        Err(e) => spec_parse_db(s, pos0) == Err::<(Option<DatabaseV>, int), _>(e),
        Ok(((rs, es), pe)) => spec_parse_db(s, pos0) == (if rs.len() == hash_size {
            Ok::<_, (DecodeError, int)>(
                (Some(DatabaseV { id: s[pos0 + 1], entries: rs, expiries: es }), pe),
            )
        } else {
            Err((DecodeError::RecordCountMismatch, pe))
        }),
    }
}

pub proof fn lemma_db_section_inv_intro(s: Seq<u8>, pos0: int, hash_size: u32, p: int, start: int)
    requires
        0 <= pos0,
        pos0 + 3 <= s.len(),
        s[pos0] == OP_SELECT_DB,
        s[pos0 + 2] == OP_RESIZE_DB,
        spec_read_length(s, pos0 + 3) matches Ok(lr) && lr.0 == Length::Raw(hash_size) && lr.1
            == p,
        spec_read_length(s, p) matches Ok(lr2) && lr2.0 matches Length::Raw(_) && lr2.1 == start,
    ensures
        db_section_inv(s, pos0, start, hash_size),
{
    reveal(db_section_inv);
}

pub proof fn lemma_db_section_err(s: Seq<u8>, pos0: int, start: int, hash_size: u32)
    requires
        db_section_inv(s, pos0, start, hash_size),
        spec_db_records(s, start, 0) is Err,
    ensures
        spec_parse_db(s, pos0) == Err::<(Option<DatabaseV>, int), (DecodeError, int)>(
            spec_db_records(s, start, 0)->Err_0,
        ),
{
    reveal(db_section_inv);
}

pub proof fn lemma_db_section_done(
    s: Seq<u8>,
    pos0: int,
    start: int,
    hash_size: u32,
    rs: Seq<KeyValueRecordV>,
    es: Seq<u64>,
    pe: int,
)
    requires
        db_section_inv(s, pos0, start, hash_size),
        spec_db_records(s, start, 0) == Ok::<_, (DecodeError, int)>(((rs, es), pe)),
    ensures
        rs.len() == hash_size ==> spec_parse_db(s, pos0) == Ok::<_, (DecodeError, int)>(
            (Some(DatabaseV { id: s[pos0 + 1], entries: rs, expiries: es }), pe),
        ),
        rs.len() != hash_size ==> spec_parse_db(s, pos0) == Err::<(Option<DatabaseV>, int), _>(
            (DecodeError::RecordCountMismatch, pe),
        ),
{
    reveal(db_section_inv);
}

/// Decoding database sections until one signals "no more sections".
pub open spec fn spec_parse_dbs(s: Seq<u8>, pos: int) -> Parsed<Seq<DatabaseV>>
    decreases s.len() - pos,
        when 0 <= pos <= s.len()
        via spec_parse_dbs_dec
{
    match spec_parse_db(s, pos) {
        Err(e) => Err(e),
        Ok((None, p)) => Ok((Seq::empty(), p)),
        Ok((Some(d), p)) => match spec_parse_dbs(s, p) {
            Err(e) => Err(e),
            Ok((ds, p2)) => Ok((seq![d] + ds, p2)),
        },
    }
}

#[via_fn]
proof fn spec_parse_dbs_dec(s: Seq<u8>, pos: int) {
    lemma_parse_db_bounds(s, pos);
}

/// A decoder part way through the database sections: `acc` holds the
/// sections decoded so far, and however the remaining sections turn out, the
/// whole run from `start` turns out accordingly.
#[verifier::opaque]
pub open spec fn dbs_loop_inv(s: Seq<u8>, start: int, acc: Seq<DatabaseV>, pos: int) -> bool {
    &&& 0 <= pos <= s.len()
    &&& match spec_parse_dbs(s, pos) {
        Ok((rest, pe)) => spec_parse_dbs(s, start) == Ok::<_, (DecodeError, int)>(
            (acc + rest, pe),
        ),
        Err(e) => spec_parse_dbs(s, start) == Err::<(Seq<DatabaseV>, int), _>(e),
    }
}

pub proof fn lemma_dbs_loop_init(s: Seq<u8>, start: int)
    requires
        0 <= start <= s.len(),
    ensures
        dbs_loop_inv(s, start, Seq::empty(), start),
{
    reveal(dbs_loop_inv);
    match spec_parse_dbs(s, start) {
        Ok((rest, _)) => {
            assert(Seq::<DatabaseV>::empty() + rest =~= rest);
        },
        Err(_) => {},
    }
}

pub proof fn lemma_dbs_loop_step(s: Seq<u8>, start: int, acc: Seq<DatabaseV>, pos: int)
    requires
        dbs_loop_inv(s, start, acc, pos),
    ensures
        match spec_parse_db(s, pos) {
            Ok((Some(d), p)) => dbs_loop_inv(s, start, acc.push(d), p) && pos + 3 <= p,
            Ok((None, p)) => spec_parse_dbs(s, start) == Ok::<_, (DecodeError, int)>((acc, pos)),
            Err((e, p)) => spec_parse_dbs(s, start) == Err::<(Seq<DatabaseV>, int), _>((e, p)),
        },
{
    reveal(dbs_loop_inv);
    lemma_parse_db_bounds(s, pos);
    match spec_parse_db(s, pos) {
        Ok((Some(d), p)) => {
            match spec_parse_dbs(s, p) {
                Ok((rest, _)) => {
                    assert(acc + (seq![d] + rest) =~= acc.push(d) + rest);
                },
                Err(_) => {},
            }
        },
        Ok((None, p)) => {
            assert(acc + Seq::<DatabaseV>::empty() =~= acc);
        },
        Err(_) => {},
    }
}

/// Decoding a whole snapshot (section 4.6): a nine-byte magic-and-version
/// preamble whose content is ignored, the header, then database sections
/// until one signals the end.  Bytes after the last section are ignored.
pub open spec fn spec_decode_snapshot(s: Seq<u8>) -> Result<SnapshotV, (DecodeError, int)> {
    if s.len() < 9 {
        Err((DecodeError::TruncatedInput, 0))
    } else {
        match spec_parse_header(s, 9) {
            Err(e) => Err(e),
            Ok((h, p)) => match spec_parse_dbs(s, p) {
                Err(e) => Err(e),
                Ok((ds, _)) => Ok(SnapshotV { header: h, dbs: ds }),
            },
        }
    }
}

/// A decoder that has consumed the preamble and the header: however the
/// database sections turn out, the whole snapshot turns out accordingly.
#[verifier::opaque]
pub open spec fn snapshot_inv(s: Seq<u8>, start: int, h: Seq<KeyValueRecordV>) -> bool {
    match spec_parse_dbs(s, start) {
        Err(e) => spec_decode_snapshot(s) == Err::<SnapshotV, _>(e),
        Ok((ds, _)) => spec_decode_snapshot(s) == Ok::<_, (DecodeError, int)>(
            SnapshotV { header: h, dbs: ds },
        ),
    }
}

pub proof fn lemma_snapshot_inv_intro(s: Seq<u8>, start: int, h: Seq<KeyValueRecordV>)
    requires
        s.len() >= 9,
        spec_parse_header(s, 9) matches Ok(hr) && hr.0 == h && hr.1 == start,
    ensures
        snapshot_inv(s, start, h),
{
    reveal(snapshot_inv);
}

pub proof fn lemma_snapshot_err(s: Seq<u8>, start: int, h: Seq<KeyValueRecordV>)
    requires
        snapshot_inv(s, start, h),
        spec_parse_dbs(s, start) is Err,
    ensures
        spec_decode_snapshot(s) == Err::<SnapshotV, (DecodeError, int)>(
            spec_parse_dbs(s, start)->Err_0,
        ),
{
    reveal(snapshot_inv);
}

pub proof fn lemma_snapshot_done(s: Seq<u8>, start: int, h: Seq<KeyValueRecordV>, ds: Seq<DatabaseV>, pe: int)
    requires
        snapshot_inv(s, start, h),
        spec_parse_dbs(s, start) == Ok::<_, (DecodeError, int)>((ds, pe)),
    ensures
        spec_decode_snapshot(s) == Ok::<_, (DecodeError, int)>(SnapshotV { header: h, dbs: ds }),
{
    reveal(snapshot_inv);
}

} // verus!
