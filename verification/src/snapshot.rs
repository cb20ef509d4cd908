//! The snapshot assembler: the whole-input decode, from the magic preamble
//! to the last database section.

use vstd::prelude::*;

use crate::cursor::ByteCursor;
use crate::errors::DecodeError;
use crate::format::{
    dbs_loop_inv, lemma_dbs_loop_init, lemma_dbs_loop_step, lemma_snapshot_done,
    lemma_snapshot_err, lemma_snapshot_inv_intro, snapshot_inv, spec_decode_snapshot,
    spec_parse_dbs,
};
use crate::model::{dbs_view, lemma_dbs_view_push, AuxHeader, Database, Snapshot};

verus! {

/// Decode a whole snapshot: skip the nine-byte magic-and-version preamble
/// (its content is not validated, only its length), decode the header, then
/// database sections until one signals the end.  Any failure of a
/// sub-decoder aborts the whole decode and is propagated unchanged; no
/// partial snapshot is returned.
#[verifier::rlimit(100)]
pub fn decode_snapshot(data: Vec<u8>) -> (r: Result<Snapshot, DecodeError>)
    ensures
        match spec_decode_snapshot(data@) {
            Ok(sv) => r matches Ok(snap) && snap@ == sv,
            Err((e, _)) => r == Err::<Snapshot, DecodeError>(e),
        },
{
    let ghost s = data@;
    let mut cur = ByteCursor::new(data);
    match cur.skip(9) {
        Ok(_) => (),
        Err(e) => {
            return Err(e);
        },
    };
    let header = match AuxHeader::parse(&mut cur) {
        Ok(h) => h,
        Err(e) => {
            return Err(e);
        },
    };
    let ghost start = cur.pos as int;
    proof {
        lemma_snapshot_inv_intro(s, start, header@);
        lemma_dbs_loop_init(s, start);
        assert(dbs_view(Seq::empty()) =~= Seq::empty());
    }
    let mut dbs: Vec<Database> = Vec::new();
    proof {
        assert(dbs_view(dbs@) =~= Seq::empty());
    }
    loop
        invariant_except_break
            cur.wf(),
            cur.bytes() == s,
            s == data@,
            snapshot_inv(s, start, header@),
            dbs_loop_inv(s, start, dbs_view(dbs@), cur.pos as int),
        ensures
            spec_parse_dbs(s, start) == Ok::<_, (DecodeError, int)>(
                (dbs_view(dbs@), cur.pos as int),
            ),
            snapshot_inv(s, start, header@),
        decreases s.len() - cur.pos,
    {
        proof {
            lemma_dbs_loop_step(s, start, dbs_view(dbs@), cur.pos as int);
        }
        match Database::parse(&mut cur) {
            Ok(Some(d)) => {
                proof {
                    lemma_dbs_view_push(dbs@, d);
                }
                dbs.push(d);
            },
            Ok(None) => {
                break;
            },
            Err(e) => {
                proof {
                    lemma_snapshot_err(s, start, header@);
                }
                return Err(e);
            },
        }
    }
    proof {
        lemma_snapshot_done(s, start, header@, dbs_view(dbs@), cur.pos as int);
    }
    Ok(Snapshot { header, dbs })
}

} // verus!
