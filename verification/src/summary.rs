//! The summary a caller derives from a decoded snapshot: the section count,
//! the string value stored under an emoji-bearing key, the non-zero expiry
//! observed across all sections, and the coarse kind of a named key.
//!
//! Each derivation walks the records in order and lets the last match win,
//! which also covers the expected case of at most one match.

use vstd::prelude::*;

use crate::model::{DatabaseV, KeyValueRecordV, RecordValue, RecordValueV, Snapshot};
use crate::trusted::{contains_emoji, has_emoji};

verus! {

/// The coarse kind of a record's payload.
pub open spec fn spec_kind(v: RecordValueV) -> Seq<char> {
    match v {
        RecordValueV::Str(_) => "string"@,
        RecordValueV::List(_) => "hash"@,
        _ => "number"@,
    }
}

/// One record's effect on the emoji-value accumulator: a string value under
/// an emoji-bearing key replaces it.
pub open spec fn emoji_step(acc: Seq<char>, r: KeyValueRecordV) -> Seq<char> {
    if has_emoji(r.key) && r.val is Str {
        r.val->Str_0
    } else {
        acc
    }
}

/// The emoji-value accumulator after a run of records.
pub open spec fn emoji_entries(rs: Seq<KeyValueRecordV>, acc: Seq<char>) -> Seq<char>
    decreases rs.len(),
{
    if rs.len() == 0 {
        acc
    } else {
        emoji_entries(rs.subrange(1, rs.len() as int), emoji_step(acc, rs[0]))
    }
}

/// The emoji-value accumulator after every section.
pub open spec fn emoji_dbs(ds: Seq<DatabaseV>, acc: Seq<char>) -> Seq<char>
    decreases ds.len(),
{
    if ds.len() == 0 {
        acc
    } else {
        emoji_dbs(ds.subrange(1, ds.len() as int), emoji_entries(ds[0].entries, acc))
    }
}

/// One expiry's effect on the accumulator: a non-zero stamp replaces it.
pub open spec fn expiry_step(acc: u64, e: u64) -> u64 {
    if e != 0 {
        e
    } else {
        acc
    }
}

/// The expiry accumulator after a run of stamps.
pub open spec fn expiry_list(es: Seq<u64>, acc: u64) -> u64
    decreases es.len(),
{
    if es.len() == 0 {
        acc
    } else {
        expiry_list(es.subrange(1, es.len() as int), expiry_step(acc, es[0]))
    }
}

/// The expiry accumulator after every section.
pub open spec fn expiry_dbs(ds: Seq<DatabaseV>, acc: u64) -> u64
    decreases ds.len(),
{
    if ds.len() == 0 {
        acc
    } else {
        expiry_dbs(ds.subrange(1, ds.len() as int), expiry_list(ds[0].expiries, acc))
    }
}

/// One record's effect on the kind accumulator: a record under the asked-for
/// key replaces it with the payload's kind.
pub open spec fn kind_step(acc: Option<Seq<char>>, r: KeyValueRecordV, key: Seq<char>) -> Option<
    Seq<char>,
> {
    if r.key == key {
        Some(spec_kind(r.val))
    } else {
        acc
    }
}

/// The kind accumulator after a run of records.
pub open spec fn kind_entries(
    rs: Seq<KeyValueRecordV>,
    key: Seq<char>,
    acc: Option<Seq<char>>,
) -> Option<Seq<char>>
    decreases rs.len(),
{
    if rs.len() == 0 {
        acc
    } else {
        kind_entries(rs.subrange(1, rs.len() as int), key, kind_step(acc, rs[0], key))
    }
}

/// The kind accumulator after every section.
pub open spec fn kind_dbs(ds: Seq<DatabaseV>, key: Seq<char>, acc: Option<Seq<char>>) -> Option<
    Seq<char>,
>
    decreases ds.len(),
{
    if ds.len() == 0 {
        acc
    } else {
        kind_dbs(ds.subrange(1, ds.len() as int), key, kind_entries(ds[0].entries, key, acc))
    }
}

/// The string value stored under the last key that contains an emoji
/// character, or `"???"` where no section has one.
pub fn emoji_key_value(snap: &Snapshot) -> (r: String)
    ensures
        r@ == emoji_dbs(snap@.dbs, "???"@),
{
    let ghost ds = snap@.dbs;
    let mut acc: String = "???".to_owned();
    let n = snap.dbs.len();
    let mut di: usize = 0;
    proof {
        assert(ds.subrange(0, n as int) =~= ds);
    }
    while di < n
        invariant
            di <= n,
            n == snap.dbs.len(),
            ds == snap@.dbs,
            emoji_dbs(ds, "???"@) == emoji_dbs(ds.subrange(di as int, n as int), acc@),
        decreases n - di,
    {
        let db = &snap.dbs[di];
        let ghost rs = db@.entries;
        let ghost acc0 = acc@;
        let m = db.entries.len();
        let mut ei: usize = 0;
        proof {
            assert(rs.subrange(0, m as int) =~= rs);
        }
        while ei < m
            invariant
                ei <= m,
                m == db.entries.len(),
                rs == db@.entries,
                emoji_entries(rs, acc0) == emoji_entries(rs.subrange(ei as int, m as int), acc@),
            decreases m - ei,
        {
            let entry = &db.entries[ei];
            proof {
                assert(rs.subrange(ei as int, m as int).subrange(
                    1,
                    rs.subrange(ei as int, m as int).len() as int,
                ) =~= rs.subrange(ei + 1, m as int));
                assert(rs.subrange(ei as int, m as int)[0] == entry@);
            }
            if contains_emoji(entry.key.as_str()) {
                match &entry.val {
                    RecordValue::Str(v) => {
                        acc = v.clone();
                    },
                    _ => (),
                }
            }
            ei = ei + 1;
        }
        proof {
            assert(ds.subrange(di as int, n as int).subrange(
                1,
                ds.subrange(di as int, n as int).len() as int,
            ) =~= ds.subrange(di + 1, n as int));
            assert(ds.subrange(di as int, n as int)[0] == db@);
            assert(rs.subrange(m as int, m as int) =~= Seq::<KeyValueRecordV>::empty());
        }
        di = di + 1;
    }
    proof {
        assert(ds.subrange(n as int, n as int) =~= Seq::<DatabaseV>::empty());
    }
    acc
}

/// The last non-zero expiry stamp observed across all sections, or 0 where
/// every record is persistent.
pub fn observed_expiry_millis(snap: &Snapshot) -> (r: u64)
    ensures
        r == expiry_dbs(snap@.dbs, 0),
{
    let ghost ds = snap@.dbs;
    let mut acc: u64 = 0;
    let n = snap.dbs.len();
    let mut di: usize = 0;
    proof {
        assert(ds.subrange(0, n as int) =~= ds);
    }
    while di < n
        invariant
            di <= n,
            n == snap.dbs.len(),
            ds == snap@.dbs,
            expiry_dbs(ds, 0) == expiry_dbs(ds.subrange(di as int, n as int), acc),
        decreases n - di,
    {
        let db = &snap.dbs[di];
        let ghost es = db@.expiries;
        let ghost acc0 = acc;
        let m = db.expiries.len();
        let mut ei: usize = 0;
        proof {
            assert(es.subrange(0, m as int) =~= es);
        }
        while ei < m
            invariant
                ei <= m,
                m == db.expiries.len(),
                es == db@.expiries,
                expiry_list(es, acc0) == expiry_list(es.subrange(ei as int, m as int), acc),
            decreases m - ei,
        {
            let e = db.expiries[ei];
            proof {
                assert(es.subrange(ei as int, m as int).subrange(
                    1,
                    es.subrange(ei as int, m as int).len() as int,
                ) =~= es.subrange(ei + 1, m as int));
                assert(es.subrange(ei as int, m as int)[0] == e);
            }
            if e != 0 {
                acc = e;
            }
            ei = ei + 1;
        }
        proof {
            assert(ds.subrange(di as int, n as int).subrange(
                1,
                ds.subrange(di as int, n as int).len() as int,
            ) =~= ds.subrange(di + 1, n as int));
            assert(ds.subrange(di as int, n as int)[0] == db@);
            assert(es.subrange(m as int, m as int) =~= Seq::<u64>::empty());
        }
        di = di + 1;
    }
    proof {
        assert(ds.subrange(n as int, n as int) =~= Seq::<DatabaseV>::empty());
    }
    acc
}

/// The coarse kind — "string", "number" or "hash" — of the payload stored
/// under the named key, or nothing where no section has that key.
pub fn kind_of_key(snap: &Snapshot, key: &String) -> (r: Option<String>)
    ensures
        match kind_dbs(snap@.dbs, key@, None) {
            Some(k) => r matches Some(ks) && ks@ == k,
            None => r is None,
        },
{
    let ghost ds = snap@.dbs;
    let mut acc: Option<String> = None;
    let n = snap.dbs.len();
    let mut di: usize = 0;
    proof {
        assert(ds.subrange(0, n as int) =~= ds);
    }
    while di < n
        invariant
            di <= n,
            n == snap.dbs.len(),
            ds == snap@.dbs,
            match kind_dbs(ds.subrange(di as int, n as int), key@, spec_acc_view(acc)) {
                Some(k) => kind_dbs(ds, key@, None) == Some(k),
                None => kind_dbs(ds, key@, None) == None::<Seq<char>>,
            },
            match spec_acc_view(acc) {
                Some(k) => acc matches Some(ks) && ks@ == k,
                None => acc is None,
            },
        decreases n - di,
    {
        let db = &snap.dbs[di];
        let ghost rs = db@.entries;
        let ghost acc0 = spec_acc_view(acc);
        let m = db.entries.len();
        let mut ei: usize = 0;
        proof {
            assert(rs.subrange(0, m as int) =~= rs);
        }
        while ei < m
            invariant
                ei <= m,
                m == db.entries.len(),
                rs == db@.entries,
                kind_entries(rs, key@, acc0) == kind_entries(
                    rs.subrange(ei as int, m as int),
                    key@,
                    spec_acc_view(acc),
                ),
                match spec_acc_view(acc) {
                    Some(k) => acc matches Some(ks) && ks@ == k,
                    None => acc is None,
                },
            decreases m - ei,
        {
            let entry = &db.entries[ei];
            proof {
                assert(rs.subrange(ei as int, m as int).subrange(
                    1,
                    rs.subrange(ei as int, m as int).len() as int,
                ) =~= rs.subrange(ei + 1, m as int));
                assert(rs.subrange(ei as int, m as int)[0] == entry@);
            }
            if entry.key.eq(key) {
                let kind: String = match &entry.val {
                    RecordValue::Str(_) => "string".to_owned(),
                    RecordValue::List(_) => "hash".to_owned(),
                    _ => "number".to_owned(),
                };
                acc = Some(kind);
            }
            ei = ei + 1;
        }
        proof {
            assert(ds.subrange(di as int, n as int).subrange(
                1,
                ds.subrange(di as int, n as int).len() as int,
            ) =~= ds.subrange(di + 1, n as int));
            assert(ds.subrange(di as int, n as int)[0] == db@);
            assert(rs.subrange(m as int, m as int) =~= Seq::<KeyValueRecordV>::empty());
        }
        di = di + 1;
    }
    proof {
        assert(ds.subrange(n as int, n as int) =~= Seq::<DatabaseV>::empty());
    }
    acc
}

/// The view of an optional string.
pub open spec fn spec_acc_view(acc: Option<String>) -> Option<Seq<char>> {
    match acc {
        Some(s) => Some(s@),
        None => None,
    }
}

} // verus!
