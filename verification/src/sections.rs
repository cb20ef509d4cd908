//! The header and database-section decoders: the two loops that walk
//! opcodes and delegate to the record decoders.

use vstd::prelude::*;

use crate::cursor::ByteCursor;
use crate::decoders::read_length;
use crate::errors::DecodeError;
use crate::format::{
    classify, db_records_loop_inv, db_section_inv, header_loop_inv, lemma_db_loop_expire,
    lemma_db_loop_fail, lemma_db_loop_init, lemma_db_loop_record, lemma_db_loop_stop,
    lemma_db_section_done, lemma_db_section_err, lemma_db_section_inv_intro,
    lemma_header_loop_aux, lemma_header_loop_fail, lemma_header_loop_init, lemma_header_loop_stop,
    spec_db_records, spec_parse_db, spec_parse_header, Opcode, OP_RESIZE_DB,
};
use crate::ints::u64_from_le;
use crate::model::{
    lemma_records_view_push, records_view, AuxHeader, Database, KeyValueRecord, Length,
};
use crate::records::{read_key_value, read_value_type};

verus! {

impl AuxHeader {
    /// Decode the header: auxiliary key-value pairs until the
    /// select-database sentinel, which is left for the caller to act on.
    pub fn parse(cur: &mut ByteCursor) -> (r: Result<AuxHeader, DecodeError>)
        requires
            old(cur).wf(),
        ensures
            final(cur).wf(),
            final(cur).bytes() == old(cur).bytes(),
            match spec_parse_header(old(cur).bytes(), old(cur).pos as int) {
                Ok((h, p)) => r matches Ok(hdr) && hdr@ == h && final(cur).pos == p,
                Err((e, p)) => r == Err::<AuxHeader, DecodeError>(e) && final(cur).pos == p,
            },
    {
        let ghost s = old(cur).bytes();
        let ghost pos0 = old(cur).pos as int;
        let mut entries: Vec<KeyValueRecord> = Vec::new();
        proof {
            assert(records_view(entries@) =~= Seq::empty());
            lemma_header_loop_init(s, pos0);
        }
        loop
            invariant_except_break
                cur.wf(),
                cur.bytes() == s,
                s == old(cur).bytes(),
                pos0 == old(cur).pos as int,
                header_loop_inv(s, pos0, records_view(entries@), cur.pos as int),
            ensures
                cur.wf(),
                cur.bytes() == s,
                spec_parse_header(s, pos0) == Ok::<_, (DecodeError, int)>(
                    (records_view(entries@), cur.pos as int),
                ),
            decreases s.len() - cur.pos,
        {
            let b = match cur.peek() {
                Ok(b) => b,
                Err(e) => {
                    proof {
                        lemma_header_loop_fail(s, pos0, records_view(entries@), cur.pos as int);
                    }
                    return Err(e);
                },
            };
            match classify(b) {
                Opcode::SelectDb => {
                    proof {
                        lemma_header_loop_stop(s, pos0, records_view(entries@), cur.pos as int);
                    }
                    break;
                },
                Opcode::Aux => {
                    let ghost pos_before = cur.pos as int;
                    proof {
                        lemma_header_loop_aux(s, pos0, records_view(entries@), pos_before);
                    }
                    let _ = match cur.next_byte() {
                        Ok(b) => b,
                        Err(e) => {
                            return Err(e);
                        },
                    };
                    match read_key_value(cur) {
                        Ok(pair) => {
                            proof {
                                lemma_records_view_push(entries@, pair);
                            }
                            entries.push(pair);
                        },
                        Err(e) => {
                            return Err(e);
                        },
                    }
                },
                _ => {
                    proof {
                        lemma_header_loop_fail(s, pos0, records_view(entries@), cur.pos as int);
                    }
                    return Err(DecodeError::MalformedHeader);
                },
            }
        }
        Ok(AuxHeader { entries })
    }
}

impl Database {
    /// Decode one database section, or report `None` when the next byte does
    /// not open one.  The declared hash-table size must equal the number of
    /// records found.
    pub fn parse(cur: &mut ByteCursor) -> (r: Result<Option<Database>, DecodeError>)
        requires
            old(cur).wf(),
        ensures
            final(cur).wf(),
            final(cur).bytes() == old(cur).bytes(),
            match spec_parse_db(old(cur).bytes(), old(cur).pos as int) {
                Ok((None, p)) => r matches Ok(o) && o is None && final(cur).pos == p,
                Ok((Some(dv), p)) => r matches Ok(o) && o matches Some(d) && d@ == dv
                    && final(cur).pos == p,
                Err((e, p)) => r == Err::<Option<Database>, DecodeError>(e) && final(cur).pos
                    == p,
            },
    {
        let ghost s = old(cur).bytes();
        let ghost pos0 = old(cur).pos as int;
        let b = match cur.peek() {
            Ok(b) => b,
            Err(e) => {
                return Err(e);
            },
        };
        match classify(b) {
            Opcode::SelectDb => (),
            _ => {
                return Ok(None);
            },
        }
        let _ = match cur.next_byte() {
            Ok(b) => b,
            Err(e) => {
                return Err(e);
            },
        };
        let id = match cur.next_byte() {
            Ok(b) => b,
            Err(e) => {
                return Err(e);
            },
        };
        let op = match cur.next_byte() {
            Ok(b) => b,
            Err(e) => {
                return Err(e);
            },
        };
        if op != OP_RESIZE_DB {
            return Err(DecodeError::UnexpectedOpcode);
        }
        let hash_size: u32 = match read_length(cur) {
            Ok(Length::Raw(n)) => n,
            Ok(_) => {
                return Err(DecodeError::UnsupportedEncoding);
            },
            Err(e) => {
                return Err(e);
            },
        };
        let ghost p_hash = cur.pos as int;
        // The declared expiry-table size is read and not otherwise used.
        match read_length(cur) {
            Ok(Length::Raw(_)) => (),
            Ok(_) => {
                return Err(DecodeError::UnsupportedEncoding);
            },
            Err(e) => {
                return Err(e);
            },
        };
        let ghost start = cur.pos as int;
        proof {
            lemma_db_section_inv_intro(s, pos0, hash_size, p_hash, start);
            assert(records_view(Seq::empty()) =~= Seq::empty());
            lemma_db_loop_init(s, start);
        }
        let mut entries: Vec<KeyValueRecord> = Vec::new();
        let mut expiries: Vec<u64> = Vec::new();
        let mut last_expiry: u64 = 0;
        proof {
            assert(records_view(entries@) =~= Seq::empty());
        }
        loop
            invariant_except_break
                cur.wf(),
                cur.bytes() == s,
                s == old(cur).bytes(),
                pos0 == old(cur).pos as int,
                db_section_inv(s, pos0, start, hash_size),
                db_records_loop_inv(
                    s,
                    start,
                    records_view(entries@),
                    expiries@,
                    cur.pos as int,
                    last_expiry,
                ),
            ensures
                cur.wf(),
                cur.bytes() == s,
                db_section_inv(s, pos0, start, hash_size),
                spec_db_records(s, start, 0) == Ok::<_, (DecodeError, int)>(
                    ((records_view(entries@), expiries@), cur.pos as int),
                ),
            decreases s.len() - cur.pos,
        {
            let b = match cur.peek() {
                Ok(b) => b,
                Err(e) => {
                    proof {
                        lemma_db_loop_fail(s, start, records_view(entries@), expiries@,
                            cur.pos as int, last_expiry);
                        lemma_db_section_err(s, pos0, start, hash_size);
                    }
                    return Err(e);
                },
            };
            match classify(b) {
                Opcode::SelectDb => {
                    proof {
                        lemma_db_loop_stop(s, start, records_view(entries@), expiries@,
                            cur.pos as int, last_expiry);
                    }
                    break;
                },
                Opcode::Eof => {
                    proof {
                        lemma_db_loop_stop(s, start, records_view(entries@), expiries@,
                            cur.pos as int, last_expiry);
                    }
                    break;
                },
                Opcode::ExpireTimeMs => {
                    let ghost pos_before = cur.pos as int;
                    proof {
                        lemma_db_loop_expire(s, start, records_view(entries@), expiries@,
                            pos_before, last_expiry);
                    }
                    let _ = match cur.next_byte() {
                        Ok(b) => b,
                        Err(e) => {
                            return Err(e);
                        },
                    };
                    let stamp = match cur.take(8) {
                        Ok(v) => v,
                        Err(e) => {
                            proof {
                                lemma_db_section_err(s, pos0, start, hash_size);
                            }
                            return Err(e);
                        },
                    };
                    last_expiry = u64_from_le(&stamp);
                },
                Opcode::ValueTag(_) => {
                    let ghost pos_before = cur.pos as int;
                    proof {
                        lemma_db_loop_record(s, start, records_view(entries@), expiries@,
                            pos_before, last_expiry);
                    }
                    match read_value_type(cur) {
                        Ok(rec) => {
                            proof {
                                lemma_records_view_push(entries@, rec);
                            }
                            entries.push(rec);
                            expiries.push(last_expiry);
                            last_expiry = 0;
                        },
                        Err(e) => {
                            proof {
                                lemma_db_section_err(s, pos0, start, hash_size);
                            }
                            return Err(e);
                        },
                    }
                },
                _ => {
                    proof {
                        lemma_db_loop_fail(s, start, records_view(entries@), expiries@,
                            cur.pos as int, last_expiry);
                        lemma_db_section_err(s, pos0, start, hash_size);
                    }
                    return Err(DecodeError::UnexpectedOpcode);
                },
            }
        }
        proof {
            lemma_db_section_done(s, pos0, start, hash_size, records_view(entries@), expiries@,
                cur.pos as int);
        }
        if entries.len() == hash_size as usize {
            Ok(Some(Database { id, entries, expiries }))
        } else {
            Err(DecodeError::RecordCountMismatch)
        }
    }
}

} // verus!
