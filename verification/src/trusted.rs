//! The trusted boundary: every call into an outside crate (or into a part of
//! std that vstd gives no specification) is made here, behind a wrapper whose
//! contract Verus believes.  Everything else in the library is verified
//! against these contracts.

use vstd::prelude::*;

verus! {

/// Relies on `String::from_utf8`: it succeeds exactly on valid UTF-8 input,
/// and the string it returns decodes those bytes.
#[verifier::external_body]
pub fn string_from_utf8(bytes: Vec<u8>) -> (r: Option<String>)
    ensures
        r is Some <==> vstd::utf8::valid_utf8(bytes@),
        r matches Some(s) ==> s@ == vstd::utf8::decode_utf8(bytes@),
{
    String::from_utf8(bytes).ok()
}

/// Whether a character sequence contains an emoji, as the `\p{Emoji}`
/// Unicode property class of the regex crate defines it.  The answer depends
/// on the characters alone.
pub uninterp spec fn has_emoji(s: Seq<char>) -> bool;

/// Relies on `regex::Regex::is_match` with the pattern `\p{Emoji}`: a match
/// is found exactly when the text contains an emoji character.  The pattern
/// is a fixed valid expression, so compiling it cannot fail.
#[verifier::external_body]
pub fn contains_emoji(s: &str) -> (r: bool)
    ensures
        r == has_emoji(s@),
{
    regex::Regex::new(r"\p{Emoji}").unwrap().is_match(s)
}

/// The solution phrase quoted inside a congratulation message, when the
/// message has the shape the challenge uses; the answer depends on the
/// characters alone.
pub uninterp spec fn quoted_solution(s: Seq<char>) -> Option<Seq<char>>;

/// Relies on `regex::Regex::captures` with a fixed pattern: the first capture
/// group holds the text between the quotes of a congratulation message, and
/// no capture exists when the message does not have that shape.  The pattern
/// is a fixed valid expression, so compiling it cannot fail.
#[verifier::external_body]
pub fn capture_solution(s: &str) -> (r: Option<String>)
    ensures
        r is Some <==> quoted_solution(s@) is Some,
        r matches Some(sec) ==> quoted_solution(s@) == Some(sec@),
{
    let re = regex::Regex::new(
        r#"congratulations! the solution to this challenge is "(.*)""#,
    ).unwrap();
    re.captures(s).map(|c| c[1].to_string())
}

/// The MD5 digest of a byte sequence: sixteen bytes that depend on the input
/// alone.
pub uninterp spec fn md5_digest(data: Seq<u8>) -> Seq<u8>;

/// Relies on `md5::compute`: the digest is a function of the input bytes
/// alone and is sixteen bytes long.
#[verifier::external_body]
pub fn md5_of(data: &Vec<u8>) -> (r: Vec<u8>)
    ensures
        r@ == md5_digest(data@),
        r@.len() == 16,
{
    md5::compute(data.as_slice()).to_vec()
}

} // verus!
