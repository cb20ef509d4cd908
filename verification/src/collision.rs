//! Building a pair of distinct files with the same MD5 digest: two colliding
//! prefix blocks, given as hex, each extended with the same suffix.

use vstd::prelude::*;

use crate::buf::{bytes_eq, push_all};
use crate::hex::spec_decode_hex;
use crate::trusted::{md5_digest, md5_of};

verus! {

/// What the collision builder yields: the two hex blocks decoded and
/// extended with the suffix, provided both decode, differ, and collide
/// under MD5.
pub open spec fn spec_collision(ha: Seq<char>, hb: Seq<char>, suffix: Seq<u8>) -> Option<
    (Seq<u8>, Seq<u8>),
> {
    match (spec_decode_hex(ha), spec_decode_hex(hb)) {
        (Some(a), Some(b)) => {
            let fa = a + suffix;
            let fb = b + suffix;
            if fa != fb && md5_digest(fa) == md5_digest(fb) {
                Some((fa, fb))
            } else {
                None
            }
        },
        _ => None,
    }
}

/// Decode the two hex blocks, extend each with the suffix, and return the
/// pair when the two files differ yet share an MD5 digest.
pub fn collision_pair(hex_a: &str, hex_b: &str, suffix: &[u8]) -> (r: Option<(Vec<u8>, Vec<u8>)>)
    ensures
        match spec_collision(hex_a@, hex_b@, suffix@) {
            Some((fa, fb)) => r matches Some(p) && p.0@ == fa && p.1@ == fb,
            None => r is None,
        },
{
    let a = match crate::hex::decode_hex(hex_a) {
        Some(v) => v,
        None => {
            return None;
        },
    };
    let b = match crate::hex::decode_hex(hex_b) {
        Some(v) => v,
        None => {
            return None;
        },
    };
    let mut fa = a;
    push_all(&mut fa, suffix);
    let mut fb = b;
    push_all(&mut fb, suffix);
    if bytes_eq(&fa, &fb) {
        return None;
    }
    let da = md5_of(&fa);
    let db = md5_of(&fb);
    if bytes_eq(&da, &db) {
        Some((fa, fb))
    } else {
        None
    }
}

} // verus!
