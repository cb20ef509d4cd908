//! Format-wide laws: properties of the decoding specification that hold for
//! every input, each proved once and for all.

use vstd::prelude::*;

use crate::errors::DecodeError;
use crate::format::{
    spec_classify, spec_db_records, spec_parse_db, spec_parse_header, spec_read_length,
    spec_read_scalar, spec_read_value_type, spec_read_ziplist, spec_take, spec_zl_entries,
    Opcode, OP_EOF, OP_RESIZE_DB, OP_SELECT_DB,
};
use crate::ints::le16;
use crate::model::{DatabaseV, KeyValueRecordV, Length, ZiplistEntryV};

verus! {

/// Law: each length-field mode has a fixed width.  A six-bit field occupies
/// one byte, a fourteen-bit field two, and a wide 32-bit field six: the mode
/// byte, the discriminator byte, and four big-endian bytes.  An
/// encoded-integer mode consumes the mode byte alone.
pub proof fn lemma_length_field_widths(s: Seq<u8>, pos: int)
    requires
        0 <= pos < s.len(),
    ensures
        spec_read_length(s, pos) matches Ok(lp) ==> {
            &&& s[pos] / 64 == 0 ==> lp.0 is Raw && lp.1 == pos + 1
            &&& s[pos] / 64 == 1 ==> lp.0 is Raw && lp.1 == pos + 2
            &&& s[pos] / 64 == 2 ==> lp.0 is FixedWidth && lp.1 == pos + 6
            &&& s[pos] / 64 == 3 ==> lp.0 is Encoded && lp.1 == pos + 1
        },
{
}

/// Law: a header that opens with the select-database sentinel decodes to an
/// empty record sequence, not an error, and consumes nothing.
pub proof fn lemma_empty_header(s: Seq<u8>, pos: int)
    requires
        0 <= pos < s.len(),
        s[pos] == OP_SELECT_DB,
    ensures
        spec_parse_header(s, pos) == Ok::<_, (DecodeError, int)>(
            (Seq::<KeyValueRecordV>::empty(), pos),
        ),
{
}

/// Law: a section whose records decode cleanly but whose count differs from
/// the declared hash-table size fails with `RecordCountMismatch`.
pub proof fn lemma_record_count_mismatch(
    s: Seq<u8>,
    pos: int,
    h: u32,
    p: int,
    p2: int,
    rs: Seq<KeyValueRecordV>,
    es: Seq<u64>,
    pe: int,
)
    requires
        0 <= pos,
        pos + 3 <= s.len(),
        s[pos] == OP_SELECT_DB,
        s[pos + 2] == OP_RESIZE_DB,
        spec_read_length(s, pos + 3) matches Ok(lr) && lr.0 == Length::Raw(h) && lr.1 == p,
        spec_read_length(s, p) matches Ok(lr2) && lr2.0 matches Length::Raw(_) && lr2.1 == p2,
        spec_db_records(s, p2, 0) == Ok::<_, (DecodeError, int)>(((rs, es), pe)),
        rs.len() != h,
    ensures
        spec_parse_db(s, pos) == Err::<(Option<DatabaseV>, int), _>(
            (DecodeError::RecordCountMismatch, pe),
        ),
{
}

/// Law: a ziplist whose entries decode cleanly but whose trailing sentinel
/// is missing — the input ends, or the next byte is not 0xFF — fails; the
/// entry list is never silently truncated into a result.
pub proof fn lemma_ziplist_sentinel_required(
    s: Seq<u8>,
    pos: int,
    p: int,
    p1: int,
    p2: int,
    cnt: Seq<u8>,
    es: Seq<ZiplistEntryV>,
    pe: int,
)
    requires
        spec_read_length(s, pos) matches Ok(lr) && lr.1 == p,
        spec_take(s, p, 8) matches Ok(t8) && t8.1 == p1,
        spec_take(s, p1, 2) matches Ok(t2) && t2.0 == cnt && t2.1 == p2,
        spec_zl_entries(s, p2, le16(cnt) as nat) == Ok::<_, (DecodeError, int)>((es, pe)),
        pe >= s.len() || s[pe] != OP_EOF,
    ensures
        pe >= s.len() ==> spec_read_ziplist(s, pos) == Err::<(Seq<ZiplistEntryV>, int), _>(
            (DecodeError::TruncatedInput, pe),
        ),
        pe < s.len() ==> spec_read_ziplist(s, pos) == Err::<(Seq<ZiplistEntryV>, int), _>(
            (DecodeError::UnexpectedOpcode, pe + 1),
        ),
{
}

/// Law: an expire-time opcode only replaces the pending expiry; decoding the
/// records from just past its nine bytes with that expiry pending is exactly
/// decoding from the opcode.
pub proof fn lemma_expire_sets_pending(s: Seq<u8>, pos: int, pending: u64)
    requires
        0 <= pos < s.len(),
        spec_classify(s[pos]) == Opcode::ExpireTimeMs,
        pos + 9 <= s.len(),
    ensures
        spec_db_records(s, pos, pending) == spec_db_records(
            s,
            pos + 9,
            crate::ints::le64(s.subrange(pos + 1, pos + 9)) as u64,
        ),
{
}

/// Law: a record takes the pending expiry, and only the pending expiry, and
/// the records after it continue with the pending expiry reset to zero.
#[verifier::rlimit(50)]
pub proof fn lemma_record_takes_pending(
    s: Seq<u8>,
    pos: int,
    pending: u64,
    r: KeyValueRecordV,
    p: int,
    rs: Seq<KeyValueRecordV>,
    es: Seq<u64>,
    pe: int,
)
    requires
        0 <= pos < s.len(),
        spec_classify(s[pos]) matches Opcode::ValueTag(_),
        spec_read_value_type(s, pos) == Ok::<_, (DecodeError, int)>((r, p)),
        spec_db_records(s, p, 0) == Ok::<_, (DecodeError, int)>(((rs, es), pe)),
    ensures
        spec_db_records(s, pos, pending) == Ok::<_, (DecodeError, int)>(
            ((seq![r] + rs, seq![pending] + es), pe),
        ),
{
    crate::format::lemma_read_value_type_bounds(s, pos);
}

/// Law: a length field selecting the encoded special-integer mode with the
/// compressed sub-code (or any sub-code past the 32-bit one) fails with
/// `UnsupportedEncoding` and reads nothing past the mode byte.
pub proof fn lemma_compressed_encoding_rejected(s: Seq<u8>, pos: int)
    requires
        0 <= pos < s.len(),
        s[pos] / 64 == 3,
        s[pos] % 64 >= 3,
    ensures
        spec_read_scalar(s, pos) == Err::<(crate::model::ScalarValueV, int), _>(
            (DecodeError::UnsupportedEncoding, pos + 1),
        ),
{
}

} // verus!
