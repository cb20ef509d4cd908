//! Scanning a table dump for the records of living people: lines after a
//! "COPY" marker and before the end-of-block marker are tab-separated rows,
//! and a row whose status field reads "alive" contributes its SSN field.

use vstd::prelude::*;
use vstd::slice::slice_subrange;

use crate::buf::bytes_eq;
use crate::chat::{spec_starts_with, starts_with};

verus! {

/// The index of the first occurrence of `sep`, or the length when there is
/// none.
pub open spec fn first_byte(s: Seq<u8>, sep: u8) -> int
    decreases s.len(),
{
    if s.len() == 0 {
        0
    } else if s[0] == sep {
        0
    } else {
        1 + first_byte(s.subrange(1, s.len() as int), sep)
    }
}

pub proof fn lemma_first_byte_bounds(s: Seq<u8>, sep: u8)
    ensures
        0 <= first_byte(s, sep) <= s.len(),
    decreases s.len(),
{
    if s.len() > 0 && s[0] != sep {
        lemma_first_byte_bounds(s.subrange(1, s.len() as int), sep);
    }
}

pub proof fn lemma_first_byte_at(s: Seq<u8>, sep: u8, k: int)
    requires
        0 <= k <= s.len(),
        forall|j: int| 0 <= j < k ==> s[j] != sep,
        k == s.len() || s[k] == sep,
    ensures
        first_byte(s, sep) == k,
    decreases s.len(),
{
    if s.len() > 0 && s[0] != sep {
        let t = s.subrange(1, s.len() as int);
        assert forall|j: int| 0 <= j < k - 1 implies t[j] != sep by {
            assert(t[j] == s[j + 1]);
        }
        lemma_first_byte_at(t, sep, k - 1);
    }
}

/// A line with a trailing carriage return stripped.
pub open spec fn strip_cr(l: Seq<u8>) -> Seq<u8> {
    if l.len() > 0 && l[l.len() - 1] == 13 {
        l.subrange(0, l.len() - 1)
    } else {
        l
    }
}

/// The lines of a byte text: split at newlines, each newline-terminated
/// line stripped of a trailing carriage return, a final unterminated line
/// kept as it stands, and no final empty line.
pub open spec fn lines_of(s: Seq<u8>) -> Seq<Seq<u8>>
    decreases s.len(),
        via lines_of_dec
{
    if s.len() == 0 {
        Seq::empty()
    } else {
        let d = first_byte(s, 10);
        if d == s.len() {
            seq![s]
        } else {
            seq![strip_cr(s.subrange(0, d))] + lines_of(s.subrange(d + 1, s.len() as int))
        }
    }
}

#[via_fn]
proof fn lines_of_dec(s: Seq<u8>) {
    lemma_first_byte_bounds(s, 10);
}

/// The tab-separated fields of a row, empty fields kept.
pub open spec fn fields_of(s: Seq<u8>) -> Seq<Seq<u8>>
    decreases s.len(),
        via fields_of_dec
{
    let d = first_byte(s, 9);
    if d == s.len() {
        seq![s]
    } else {
        seq![s.subrange(0, d)] + fields_of(s.subrange(d + 1, s.len() as int))
    }
}

#[via_fn]
proof fn fields_of_dec(s: Seq<u8>) {
    lemma_first_byte_bounds(s, 9);
}

/// The bytes of the "COPY" block marker.
pub open spec fn copy_marker() -> Seq<u8> {
    seq![67u8, 79u8, 80u8, 89u8]
}

/// The bytes of the end-of-block marker, a backslash and a dot.
pub open spec fn end_marker() -> Seq<u8> {
    seq![92u8, 46u8]
}

/// The bytes of the "alive" status value.
pub open spec fn alive_marker() -> Seq<u8> {
    seq![97u8, 108u8, 105u8, 118u8, 101u8]
}

/// The SSN fields of the living, scanned line by line: a "COPY" line opens
/// (or re-opens) the block, lines before the block are skipped, the end
/// marker closes the scan, and any other line inside the block must have at
/// least eight fields — its fourth is the SSN, its eighth the status.
pub open spec fn spec_scan(lines: Seq<Seq<u8>>, seen: bool) -> Option<Seq<Seq<u8>>>
    decreases lines.len(),
{
    if lines.len() == 0 {
        Some(Seq::empty())
    } else {
        let l = lines[0];
        let rest = lines.subrange(1, lines.len() as int);
        if spec_starts_with(l, copy_marker()) {
            spec_scan(rest, true)
        } else if !seen {
            spec_scan(rest, seen)
        } else if spec_starts_with(l, end_marker()) {
            Some(Seq::empty())
        } else {
            let fields = fields_of(l);
            if fields.len() < 8 {
                None
            } else {
                match spec_scan(rest, seen) {
                    None => None,
                    Some(acc) => if fields[7] == alive_marker() {
                        Some(seq![fields[3]] + acc)
                    } else {
                        Some(acc)
                    },
                }
            }
        }
    }
}

/// The SSNs of the living in a whole dump.
pub open spec fn spec_alive_ssns(s: Seq<u8>) -> Option<Seq<Seq<u8>>> {
    spec_scan(lines_of(s), false)
}

/// The views of a sequence of byte buffers.
pub open spec fn rows_view(v: Seq<Vec<u8>>) -> Seq<Seq<u8>> {
    v.map_values(|r: Vec<u8>| r@)
}

/// Split a text into its lines.
fn split_lines(s: &[u8]) -> (out: Vec<Vec<u8>>)
    ensures
        rows_view(out@) == lines_of(s@),
{
    let n = s.len();
    let mut out: Vec<Vec<u8>> = Vec::new();
    let mut seg_start: usize = 0;
    proof {
        assert(rows_view(out@) =~= Seq::<Seq<u8>>::empty());
        assert(Seq::<Seq<u8>>::empty() + lines_of(s@) =~= lines_of(s@));
        assert(s@.subrange(0, n as int) =~= s@);
    }
    while seg_start < n
        invariant
            seg_start <= n,
            n == s@.len(),
            lines_of(s@) == rows_view(out@) + lines_of(s@.subrange(seg_start as int, n as int)),
        decreases n - seg_start,
    {
        let ghost rem = s@.subrange(seg_start as int, n as int);
        let mut j: usize = seg_start;
        while j < n && s[j] != 10
            invariant
                seg_start <= j <= n,
                n == s@.len(),
                forall|k: int| seg_start <= k < j ==> s@[k] != 10,
            decreases n - j,
        {
            j = j + 1;
        }
        proof {
            assert forall|k: int| 0 <= k < j - seg_start implies rem[k] != 10 by {
                assert(rem[k] == s@[seg_start + k]);
            }
            if j < n {
                assert(rem[j - seg_start] == s@[j as int]);
            }
            lemma_first_byte_at(rem, 10, j - seg_start);
            assert(rem.subrange(0, j - seg_start) =~= s@.subrange(seg_start as int, j as int));
        }
        let line = if j == n {
            slice_to_vec_bytes(slice_subrange(s, seg_start, j))
        } else if j > seg_start && s[j - 1] == 13 {
            slice_to_vec_bytes(slice_subrange(s, seg_start, j - 1))
        } else {
            slice_to_vec_bytes(slice_subrange(s, seg_start, j))
        };
        proof {
            if j < n {
                assert(strip_cr(rem.subrange(0, j - seg_start)) =~= line@);
                assert(rem.subrange(j - seg_start + 1, rem.len() as int) =~= s@.subrange(
                    j + 1,
                    n as int,
                ));
            }
            assert(rows_view(out@.push(line)) =~= rows_view(out@).push(line@));
            match lines_of(s@.subrange(j + 1, n as int)) {
                rest => {
                    assert(rows_view(out@) + (seq![line@] + rest) =~= rows_view(out@).push(line@)
                        + rest);
                },
            }
            assert(rows_view(out@) + seq![line@] =~= rows_view(out@).push(line@));
        }
        out.push(line);
        if j == n {
            proof {
                assert(lines_of(s@) == rows_view(out@) + lines_of(
                    s@.subrange(n as int, n as int),
                ));
            }
            seg_start = n;
        } else {
            seg_start = j + 1;
        }
    }
    proof {
        assert(s@.subrange(n as int, n as int) =~= Seq::<u8>::empty());
        assert(rows_view(out@) + Seq::<Seq<u8>>::empty() =~= rows_view(out@));
    }
    out
}

/// Copy a byte slice into an owned buffer.
fn slice_to_vec_bytes(s: &[u8]) -> (out: Vec<u8>)
    ensures
        out@ == s@,
{
    let mut out: Vec<u8> = Vec::new();
    crate::buf::push_all(&mut out, s);
    proof {
        assert(Seq::<u8>::empty() + s@ =~= s@);
    }
    out
}

/// Split a row into its tab-separated fields.
fn split_fields(s: &[u8]) -> (out: Vec<Vec<u8>>)
    ensures
        rows_view(out@) == fields_of(s@),
{
    let n = s.len();
    let mut out: Vec<Vec<u8>> = Vec::new();
    let mut seg_start: usize = 0;
    proof {
        assert(rows_view(out@) =~= Seq::<Seq<u8>>::empty());
        assert(Seq::<Seq<u8>>::empty() + fields_of(s@) =~= fields_of(s@));
        assert(s@.subrange(0, n as int) =~= s@);
    }
    loop
        invariant_except_break
            seg_start <= n,
            n == s@.len(),
            fields_of(s@) == rows_view(out@) + fields_of(s@.subrange(seg_start as int, n as int)),
        ensures
            rows_view(out@) == fields_of(s@),
        decreases n - seg_start,
    {
        let ghost rem = s@.subrange(seg_start as int, n as int);
        let mut j: usize = seg_start;
        while j < n && s[j] != 9
            invariant
                seg_start <= j <= n,
                n == s@.len(),
                forall|k: int| seg_start <= k < j ==> s@[k] != 9,
            decreases n - j,
        {
            j = j + 1;
        }
        proof {
            assert forall|k: int| 0 <= k < j - seg_start implies rem[k] != 9 by {
                assert(rem[k] == s@[seg_start + k]);
            }
            if j < n {
                assert(rem[j - seg_start] == s@[j as int]);
            }
            lemma_first_byte_at(rem, 9, j - seg_start);
            assert(rem.subrange(0, j - seg_start) =~= s@.subrange(seg_start as int, j as int));
        }
        let field = slice_to_vec_bytes(slice_subrange(s, seg_start, j));
        proof {
            assert(rows_view(out@.push(field)) =~= rows_view(out@).push(field@));
            if j < n {
                assert(rem.subrange(j - seg_start + 1, rem.len() as int) =~= s@.subrange(
                    j + 1,
                    n as int,
                ));
                assert(rows_view(out@) + (seq![field@] + fields_of(s@.subrange(j + 1, n as int)))
                    =~= rows_view(out@).push(field@) + fields_of(s@.subrange(j + 1, n as int)));
            } else {
                assert(rows_view(out@) + seq![field@] =~= rows_view(out@).push(field@));
            }
        }
        out.push(field);
        if j == n {
            break;
        }
        seg_start = j + 1;
    }
    out
}

/// Scan a dump for the SSNs of the living.  Nothing is returned when a row
/// inside the block has fewer than eight fields.
pub fn alive_ssns(dump: &[u8]) -> (r: Option<Vec<Vec<u8>>>)
    ensures
        match spec_alive_ssns(dump@) {
            Some(ssns) => r matches Some(v) && rows_view(v@) == ssns,
            None => r is None,
        },
{
    let lines = split_lines(dump);
    let ghost lv = rows_view(lines@);
    let n = lines.len();
    let mut out: Vec<Vec<u8>> = Vec::new();
    let mut seen: bool = false;
    let mut i: usize = 0;
    let copy_m: [u8; 4] = [67, 79, 80, 89];
    let end_m: [u8; 2] = [92, 46];
    let alive_m: [u8; 5] = [97, 108, 105, 118, 101];
    proof {
        assert(copy_m@ =~= copy_marker());
        assert(end_m@ =~= end_marker());
        assert(alive_m@ =~= alive_marker());
        assert(rows_view(out@) =~= Seq::<Seq<u8>>::empty());
        assert(lv.subrange(0, n as int) =~= lv);
    }
    loop
        invariant_except_break
            i <= n,
            n == lv.len(),
            lv == rows_view(lines@),
            lv == lines_of(dump@),
            copy_m@ == copy_marker(),
            end_m@ == end_marker(),
            alive_m@ == alive_marker(),
            match spec_scan(lv.subrange(i as int, n as int), seen) {
                Some(tail) => spec_scan(lv, false) == Some(rows_view(out@) + tail),
                None => spec_scan(lv, false) is None,
            },
        ensures
            spec_scan(lv, false) == Some(rows_view(out@)),
            lv == rows_view(lines@),
        decreases n - i,
    {
        if i >= n {
            proof {
                assert(lv.subrange(n as int, n as int) =~= Seq::<Seq<u8>>::empty());
                assert(rows_view(out@) + Seq::<Seq<u8>>::empty() =~= rows_view(out@));
            }
            break;
        }
        let line = &lines[i];
        let ghost rem = lv.subrange(i as int, n as int);
        proof {
            assert(rem[0] == lv[i as int]);
            assert(rem.subrange(1, rem.len() as int) =~= lv.subrange(i + 1, n as int));
        }
        if starts_with(line.as_slice(), copy_m.as_slice()) {
            seen = true;
            i = i + 1;
        } else if !seen {
            i = i + 1;
        } else if starts_with(line.as_slice(), end_m.as_slice()) {
            proof {
                assert(rows_view(out@) + Seq::<Seq<u8>>::empty() =~= rows_view(out@));
            }
            break;
        } else {
            let fields = split_fields(line.as_slice());
            if fields.len() < 8 {
                return None;
            }
            proof {
                assert(rows_view(fields@)[7] == fields@[7]@);
                assert(rows_view(fields@)[3] == fields@[3]@);
            }
            if bytes_eq(&fields[7], &slice_to_vec_bytes(alive_m.as_slice())) {
                let ssn = slice_to_vec_bytes(fields[3].as_slice());
                proof {
                    assert(rows_view(out@.push(ssn)) =~= rows_view(out@).push(ssn@));
                    match spec_scan(lv.subrange(i + 1, n as int), seen) {
                        Some(acc) => {
                            assert(rows_view(out@) + (seq![ssn@] + acc) =~= rows_view(
                                out@,
                            ).push(ssn@) + acc);
                        },
                        None => {},
                    }
                }
                out.push(ssn);
            }
            i = i + 1;
        }
    }
    Some(out)
}

} // verus!
