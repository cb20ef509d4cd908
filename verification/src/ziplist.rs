//! The ziplist decoder: a compact sequential list encoding used as the
//! backing representation of the aggregate value type.

use vstd::prelude::*;

use crate::cursor::ByteCursor;
use crate::decoders::{read_length, read_str};
use crate::errors::DecodeError;
use crate::format::{
    lemma_zl_blob_done, lemma_zl_blob_err, lemma_zl_blob_inv_intro, lemma_zl_loop_exit,
    lemma_zl_loop_init, lemma_zl_loop_step, spec_read_ziplist, spec_zl_entry, spec_zl_payload,
    zl_blob_inv, zl_entries_loop_inv, OP_EOF,
};
use crate::ints::{
    i16_from_u16, i32_from_u32, i64_from_u64, le32, u16_from_le, u32_from_be, u32_from_le,
    u64_from_le,
};
use crate::model::{entries_view, lemma_entries_view_push, ZiplistEntry, ZiplistEntryV};

verus! {

/// Decode the payload of one ziplist entry: a header byte selecting a
/// string of 6-bit, 14-bit or 32-bit length, or a signed little-endian
/// integer of 16, 32, 64 or zero-padded 24 bits.
#[verifier::rlimit(50)]
fn parse_zl_payload(cur: &mut ByteCursor) -> (r: Result<ZiplistEntry, DecodeError>)
    requires
        old(cur).wf(),
    ensures
        final(cur).wf(),
        final(cur).bytes() == old(cur).bytes(),
        match spec_zl_payload(old(cur).bytes(), old(cur).pos as int) {
            Ok((v, p)) => r matches Ok(e) && e@ == v && final(cur).pos == p,
            Err((e, p)) => r == Err::<ZiplistEntry, DecodeError>(e) && final(cur).pos == p,
        },
{
    let h = match cur.next_byte() {
        Ok(b) => b,
        Err(e) => {
            return Err(e);
        },
    };
    let mode = h / 64;
    if mode == 0 {
        match read_str(cur, (h % 64) as usize) {
            Ok(s) => Ok(ZiplistEntry::Str(s)),
            Err(e) => Err(e),
        }
    } else if mode == 1 {
        let b2 = match cur.next_byte() {
            Ok(b) => b,
            Err(e) => {
                return Err(e);
            },
        };
        let n: usize = (h % 64) as usize * 256 + b2 as usize;
        match read_str(cur, n) {
            Ok(s) => Ok(ZiplistEntry::Str(s)),
            Err(e) => Err(e),
        }
    } else if mode == 2 {
        let lb = match cur.take(4) {
            Ok(v) => v,
            Err(e) => {
                return Err(e);
            },
        };
        let n = u32_from_be(&lb);
        match read_str(cur, n as usize) {
            Ok(s) => Ok(ZiplistEntry::Str(s)),
            Err(e) => Err(e),
        }
    } else {
        let sub = (h % 64) / 16;
        if sub == 0 {
            match cur.take(2) {
                Ok(b) => Ok(ZiplistEntry::Int16(i16_from_u16(u16_from_le(&b)))),
                Err(e) => Err(e),
            }
        } else if sub == 1 {
            match cur.take(4) {
                Ok(b) => Ok(ZiplistEntry::Int32(i32_from_u32(u32_from_le(&b)))),
                Err(e) => Err(e),
            }
        } else if sub == 2 {
            match cur.take(8) {
                Ok(b) => Ok(ZiplistEntry::Int64(i64_from_u64(u64_from_le(&b)))),
                Err(e) => Err(e),
            }
        } else {
            // The 24-bit form: three bytes, zero-padded at the low byte.
            match cur.take(3) {
                Ok(b) => {
                    let u: u32 = 0x100 * (b[0] as u32) + 0x1_0000 * (b[1] as u32) + 0x100_0000 * (
                    b[2] as u32);
                    proof {
                        assert(u == le32(seq![0u8, b@[0], b@[1], b@[2]]));
                    }
                    Ok(ZiplistEntry::Int32(i32_from_u32(u)))
                },
                Err(e) => Err(e),
            }
        }
    }
}

/// Decode one ziplist entry: a discarded previous-entry-length prefix, then
/// the payload.
pub fn parse_zl_entry(cur: &mut ByteCursor) -> (r: Result<ZiplistEntry, DecodeError>)
    requires
        old(cur).wf(),
    ensures
        final(cur).wf(),
        final(cur).bytes() == old(cur).bytes(),
        match spec_zl_entry(old(cur).bytes(), old(cur).pos as int) {
            Ok((v, p)) => r matches Ok(e) && e@ == v && final(cur).pos == p,
            Err((e, p)) => r == Err::<ZiplistEntry, DecodeError>(e) && final(cur).pos == p,
        },
{
    let prev = match cur.next_byte() {
        Ok(b) => b,
        Err(e) => {
            return Err(e);
        },
    };
    if prev == 254 {
        // A predecessor longer than 253 bytes stores its length in four more
        // bytes; the whole prefix is structural padding and is discarded.
        match cur.take(4) {
            Ok(_) => (),
            Err(e) => {
                return Err(e);
            },
        };
    }
    parse_zl_payload(cur)
}

/// Decode a whole ziplist blob: a length field, eight discarded bytes of
/// skip-ahead bookkeeping, a two-byte little-endian entry count that is
/// authoritative, that many entries, then the end-of-ziplist sentinel.
#[verifier::rlimit(100)]
pub fn parse_ziplist_encoding(cur: &mut ByteCursor) -> (r: Result<Vec<ZiplistEntry>, DecodeError>)
    requires
        old(cur).wf(),
    ensures
        final(cur).wf(),
        final(cur).bytes() == old(cur).bytes(),
        match spec_read_ziplist(old(cur).bytes(), old(cur).pos as int) {
            Ok((es, p)) => r matches Ok(v) && entries_view(v@) == es && final(cur).pos == p,
            Err((e, p)) => r == Err::<Vec<ZiplistEntry>, DecodeError>(e) && final(cur).pos == p,
        },
{
    let ghost s = old(cur).bytes();
    let ghost pos0 = old(cur).pos as int;
    match read_length(cur) {
        Ok(_) => (),
        Err(e) => {
            return Err(e);
        },
    };
    let ghost p_len = cur.pos as int;
    // Total byte count and tail offset: the on-disk format keeps them for
    // skip-ahead; they are not needed for semantic decoding.
    match cur.skip(8) {
        Ok(_) => (),
        Err(e) => {
            return Err(e);
        },
    };
    let ghost p_skip = cur.pos as int;
    let cb = match cur.take(2) {
        Ok(v) => v,
        Err(e) => {
            return Err(e);
        },
    };
    let count = u16_from_le(&cb);
    let ghost entries_start = cur.pos as int;
    proof {
        lemma_zl_blob_inv_intro(s, pos0, p_len, p_skip, entries_start, cb@);
    }
    let mut out: Vec<ZiplistEntry> = Vec::new();
    let mut i: u16 = 0;
    proof {
        assert(entries_view(out@) =~= Seq::<ZiplistEntryV>::empty());
        lemma_zl_loop_init(s, entries_start, count as nat);
    }
    while i < count
        invariant
            cur.wf(),
            cur.bytes() == s,
            s == old(cur).bytes(),
            pos0 == old(cur).pos as int,
            i <= count,
            zl_blob_inv(s, pos0, entries_start, count as nat),
            zl_entries_loop_inv(
                s,
                entries_start,
                count as nat,
                entries_view(out@),
                cur.pos as int,
                i as nat,
            ),
        decreases count - i,
    {
        let ghost pos_before = cur.pos as int;
        proof {
            lemma_zl_loop_step(s, entries_start, count as nat, entries_view(out@), pos_before,
                i as nat);
        }
        match parse_zl_entry(cur) {
            Ok(entry) => {
                proof {
                    lemma_entries_view_push(out@, entry);
                }
                out.push(entry);
                i = i + 1;
            },
            Err(e) => {
                proof {
                    lemma_zl_blob_err(s, pos0, entries_start, count as nat);
                }
                return Err(e);
            },
        }
    }
    proof {
        lemma_zl_loop_exit(s, entries_start, count as nat, entries_view(out@), cur.pos as int);
        lemma_zl_blob_done(s, pos0, entries_start, count as nat, entries_view(out@),
            cur.pos as int);
    }
    let b = match cur.next_byte() {
        Ok(b) => b,
        Err(e) => {
            return Err(e);
        },
    };
    if b == OP_EOF {
        Ok(out)
    } else {
        Err(DecodeError::UnexpectedOpcode)
    }
}

} // verus!
