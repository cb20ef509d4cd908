//! Decisions of the timed chat session: classifying a server message and
//! picking the interval closest to a measured delay.

use vstd::prelude::*;

verus! {

/// What a server message asks the session to do.
#[derive(Clone, Copy, PartialEq, Eq, Debug, Structural)]
pub enum ChatAction {
    /// An acknowledgement: nothing to do.
    Acknowledged,
    /// A ping: reply with the interval closest to the measured delay.
    ReplyWithInterval,
    /// A greeting: log it.
    Greeting,
    /// The winning message: extract the quoted solution.
    Win,
    /// Anything else: log it.
    Unknown,
}

/// Whether `p` is a prefix of `s`.
pub open spec fn spec_starts_with(s: Seq<u8>, p: Seq<u8>) -> bool {
    p.len() <= s.len() && s.subrange(0, p.len() as int) == p
}

/// How a message text is classified.
pub open spec fn spec_classify_message(s: Seq<u8>) -> ChatAction {
    if s == "good!"@.map_values(|c: char| c as u8) {
        ChatAction::Acknowledged
    } else if s == "ping!"@.map_values(|c: char| c as u8) {
        ChatAction::ReplyWithInterval
    } else if spec_starts_with(s, "hello"@.map_values(|c: char| c as u8)) {
        ChatAction::Greeting
    } else if spec_starts_with(s, "congratulations"@.map_values(|c: char| c as u8)) {
        ChatAction::Win
    } else {
        ChatAction::Unknown
    }
}

/// Whether `p` is a prefix of `s`, executable form.
pub fn starts_with(s: &[u8], p: &[u8]) -> (r: bool)
    ensures
        r == spec_starts_with(s@, p@),
{
    if p.len() > s.len() {
        proof {
            assert(!spec_starts_with(s@, p@));
        }
        return false;
    }
    let mut i: usize = 0;
    while i < p.len()
        invariant
            i <= p@.len() <= s@.len(),
            forall|j: int| 0 <= j < i ==> s@[j] == p@[j],
        decreases p@.len() - i,
    {
        if s[i] != p[i] {
            proof {
                assert(s@.subrange(0, p@.len() as int)[i as int] != p@[i as int]);
            }
            return false;
        }
        i = i + 1;
    }
    proof {
        assert(s@.subrange(0, p@.len() as int) =~= p@);
    }
    true
}

/// Whether two byte strings are equal.
fn bytes_equal(s: &[u8], p: &[u8]) -> (r: bool)
    ensures
        r == (s@ == p@),
{
    if s.len() != p.len() {
        proof {
            assert(s@.len() != p@.len());
        }
        return false;
    }
    let r = starts_with(s, p);
    proof {
        assert(s@.subrange(0, p@.len() as int) =~= s@);
    }
    r
}

/// Classify one server message, given as its UTF-8 bytes.
pub fn classify_message(text: &[u8]) -> (r: ChatAction)
    ensures
        r == spec_classify_message(text@),
{
    let good: [u8; 5] = [103, 111, 111, 100, 33];
    let ping: [u8; 5] = [112, 105, 110, 103, 33];
    let hello: [u8; 5] = [104, 101, 108, 108, 111];
    let congrats: [u8; 15] = [99, 111, 110, 103, 114, 97, 116, 117, 108, 97, 116, 105, 111, 110, 115];
    proof {
        reveal_strlit("good!");
        reveal_strlit("ping!");
        reveal_strlit("hello");
        reveal_strlit("congratulations");
        assert(good@ =~= "good!"@.map_values(|c: char| c as u8));
        assert(ping@ =~= "ping!"@.map_values(|c: char| c as u8));
        assert(hello@ =~= "hello"@.map_values(|c: char| c as u8));
        assert(congrats@ =~= "congratulations"@.map_values(|c: char| c as u8));
    }
    if bytes_equal(text, good.as_slice()) {
        ChatAction::Acknowledged
    } else if bytes_equal(text, ping.as_slice()) {
        ChatAction::ReplyWithInterval
    } else if starts_with(text, hello.as_slice()) {
        ChatAction::Greeting
    } else if starts_with(text, congrats.as_slice()) {
        ChatAction::Win
    } else {
        ChatAction::Unknown
    }
}

/// The absolute distance between two non-negative values.
pub open spec fn spec_dist(a: int, b: int) -> int {
    if a >= b {
        a - b
    } else {
        b - a
    }
}

/// The fold the closest-interval search performs: starting from the first
/// interval and a tolerance equal to the delay itself, each interval
/// strictly closer than the tolerance so far becomes the answer.
pub open spec fn spec_closes_fold(vs: Seq<i32>, millis: int, result: int, delta: int) -> int
    decreases vs.len(),
{
    if vs.len() == 0 {
        result
    } else {
        if spec_dist(vs[0] as int, millis) < delta {
            spec_closes_fold(
                vs.subrange(1, vs.len() as int),
                millis,
                vs[0] as int,
                spec_dist(vs[0] as int, millis),
            )
        } else {
            spec_closes_fold(vs.subrange(1, vs.len() as int), millis, result, delta)
        }
    }
}

/// The interval closest to the measured delay, by the session's own rule:
/// the first interval stands until another is strictly closer than every
/// tolerance seen so far, the initial tolerance being the delay itself.
pub fn closes_to(millis: i32, values: &[i32]) -> (r: i32)
    requires
        values@.len() > 0,
        millis >= 0,
        forall|i: int| 0 <= i < values@.len() ==> values@[i] >= 0,
    ensures
        r == spec_closes_fold(values@, millis as int, values@[0] as int, millis as int),
{
    let ghost vs = values@;
    let mut delta: i32 = millis;
    let mut result: i32 = values[0];
    let n = values.len();
    let mut i: usize = 0;
    proof {
        assert(vs.subrange(0, n as int) =~= vs);
    }
    while i < n
        invariant
            i <= n,
            n == vs.len(),
            vs == values@,
            millis >= 0,
            forall|j: int| 0 <= j < vs.len() ==> vs[j] >= 0,
            0 <= delta,
            result >= 0,
            spec_closes_fold(vs, millis as int, vs[0] as int, millis as int) == spec_closes_fold(
                vs.subrange(i as int, n as int),
                millis as int,
                result as int,
                delta as int,
            ),
        decreases n - i,
    {
        let item = values[i];
        proof {
            assert(vs.subrange(i as int, n as int)[0] == item);
            assert(vs.subrange(i as int, n as int).subrange(
                1,
                vs.subrange(i as int, n as int).len() as int,
            ) =~= vs.subrange(i + 1, n as int));
        }
        let d = if item >= millis {
            item - millis
        } else {
            millis - item
        };
        if d < delta {
            result = item;
            delta = d;
        }
        i = i + 1;
    }
    proof {
        assert(vs.subrange(n as int, n as int) =~= Seq::<i32>::empty());
    }
    result
}

} // verus!
