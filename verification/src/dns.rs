//! The DNS message codec used by the record-serving responder: header
//! flags, the fixed twelve-byte message header, questions, and answers,
//! each with an exact byte-level contract.  Domain names are carried as
//! their raw bytes with dot separators.

use vstd::prelude::*;
use vstd::slice::{slice_subrange, slice_to_vec};

use crate::buf::{push_all, push_be16, push_be32};
use crate::ints::{be16, be16_bytes, be32_bytes, u16_from_be};

verus! {

#[derive(Clone, Copy, PartialEq, Eq, Debug, Structural)]
pub enum QuestionClass {
    IN,
}

#[derive(Clone, Copy, PartialEq, Eq, Debug, Structural)]
pub enum QuestionType {
    A,
    CNAME,
    AAAA,
    RP,
    TXT,
}

#[derive(Clone, Copy, PartialEq, Eq, Debug, Structural)]
pub enum QueryType {
    Query,
    Reply,
}

#[derive(Clone, Copy, PartialEq, Eq, Debug, Structural)]
pub enum QueryOpcode {
    Query,
    IQuery,
    Status,
}

#[derive(Clone, Copy, PartialEq, Eq, Debug, Structural)]
pub enum ResponseCode {
    NoError,
    FormatError,
    ServFail,
    NxDomain,
}

/// The wire number of a question type.
pub open spec fn qtype_num(t: QuestionType) -> u16 {
    match t {
        QuestionType::A => 1,
        QuestionType::CNAME => 5,
        QuestionType::AAAA => 28,
        QuestionType::RP => 17,
        QuestionType::TXT => 16,
    }
}

/// The question type a wire number names.
pub open spec fn spec_qtype_of(n: int) -> Option<QuestionType> {
    if n == 1 {
        Some(QuestionType::A)
    } else if n == 5 {
        Some(QuestionType::CNAME)
    } else if n == 28 {
        Some(QuestionType::AAAA)
    } else if n == 17 {
        Some(QuestionType::RP)
    } else if n == 16 {
        Some(QuestionType::TXT)
    } else {
        None
    }
}

/// The wire number of a question class.
pub open spec fn class_num(c: QuestionClass) -> u16 {
    match c {
        QuestionClass::IN => 1,
    }
}

/// The question class a wire number names.
pub open spec fn spec_class_of(n: int) -> Option<QuestionClass> {
    if n == 1 {
        Some(QuestionClass::IN)
    } else {
        None
    }
}

/// The wire number of an operation code.
pub open spec fn opcode_num(o: QueryOpcode) -> u16 {
    match o {
        QueryOpcode::Query => 0,
        QueryOpcode::IQuery => 1,
        QueryOpcode::Status => 2,
    }
}

/// The wire number of a response code.
pub open spec fn rcode_num(r: ResponseCode) -> u16 {
    match r {
        ResponseCode::NoError => 0,
        ResponseCode::FormatError => 1,
        ResponseCode::ServFail => 2,
        ResponseCode::NxDomain => 3,
    }
}

/// The response code a wire number names.
pub open spec fn spec_rcode_of(n: int) -> Option<ResponseCode> {
    if n == 0 {
        Some(ResponseCode::NoError)
    } else if n == 1 {
        Some(ResponseCode::FormatError)
    } else if n == 2 {
        Some(ResponseCode::ServFail)
    } else if n == 3 {
        Some(ResponseCode::NxDomain)
    } else {
        None
    }
}

/// The header flags the responder reads from a request.
#[derive(Clone, Copy, Debug)]
pub struct Flags {
    pub query_type: QueryType,
    pub opcode: QueryOpcode,
    pub truncated: bool,
    pub recursion_desired: bool,
    pub ad_bit: bool,
    pub unauthenticated_ok: bool,
    pub response_code: ResponseCode,
}

/// How two flag bytes are read.  Only plain queries are accepted: the
/// reply bit and the operation-code bits must be clear, and the response
/// code must be a known one.
pub open spec fn spec_parse_flags(b0: u8, b1: u8) -> Option<Flags> {
    if b0 / 128 != 0 {
        None
    } else if (b0 / 8) % 16 != 0 {
        None
    } else {
        match spec_rcode_of((b1 % 16) as int) {
            None => None,
            Some(rc) => Some(
                Flags {
                    query_type: QueryType::Query,
                    opcode: QueryOpcode::Query,
                    truncated: (b0 / 2) % 2 == 1,
                    recursion_desired: b0 % 2 == 1,
                    ad_bit: (b1 / 32) % 2 == 1,
                    unauthenticated_ok: (b1 / 16) % 2 == 1,
                    response_code: rc,
                },
            ),
        }
    }
}

/// The two bytes the responder writes for its reply flags: the reply bit,
/// the request's operation code, its recursion-desired bit, and the given
/// response code.
pub open spec fn spec_flags_bytes(f: Flags, r: ResponseCode) -> Seq<u8> {
    be16_bytes(
        0x8000 + opcode_num(f.opcode) * 0x800 + (if f.recursion_desired {
            0x100int
        } else {
            0int
        }) + rcode_num(r),
    )
}

impl Flags {
    /// Read the flags from the two flag bytes of a request.
    pub fn from_bytes(b: &[u8]) -> (r: Option<Flags>)
        requires
            b@.len() >= 2,
        ensures
            r == spec_parse_flags(b@[0], b@[1]),
    {
        let b0 = b[0];
        let b1 = b[1];
        if b0 / 128 != 0 {
            return None;
        }
        if (b0 / 8) % 16 != 0 {
            return None;
        }
        let rc = match rcode_of(b1 % 16) {
            Some(rc) => rc,
            None => {
                return None;
            },
        };
        Some(
            Flags {
                query_type: QueryType::Query,
                opcode: QueryOpcode::Query,
                truncated: (b0 / 2) % 2 == 1,
                recursion_desired: b0 % 2 == 1,
                ad_bit: (b1 / 32) % 2 == 1,
                unauthenticated_ok: (b1 / 16) % 2 == 1,
                response_code: rc,
            },
        )
    }

    /// Write the two reply flag bytes.
    pub fn to_bytes(&self, r: ResponseCode) -> (out: Vec<u8>)
        ensures
            out@ == spec_flags_bytes(*self, r),
    {
        let op: u16 = match self.opcode {
            QueryOpcode::Query => 0,
            QueryOpcode::IQuery => 1,
            QueryOpcode::Status => 2,
        };
        let rd: u16 = if self.recursion_desired {
            0x100
        } else {
            0
        };
        let rc: u16 = match r {
            ResponseCode::NoError => 0,
            ResponseCode::FormatError => 1,
            ResponseCode::ServFail => 2,
            ResponseCode::NxDomain => 3,
        };
        let v: u16 = 0x8000 + op * 0x800 + rd + rc;
        let mut out: Vec<u8> = Vec::new();
        push_be16(&mut out, v);
        out
    }
}

/// The response code a wire number names, executable form.
fn rcode_of(n: u8) -> (r: Option<ResponseCode>)
    ensures
        r == spec_rcode_of(n as int),
{
    if n == 0 {
        Some(ResponseCode::NoError)
    } else if n == 1 {
        Some(ResponseCode::FormatError)
    } else if n == 2 {
        Some(ResponseCode::ServFail)
    } else if n == 3 {
        Some(ResponseCode::NxDomain)
    } else {
        None
    }
}

/// The fixed twelve-byte header of a DNS message.
#[derive(Clone, Copy, Debug)]
pub struct Message {
    pub identification: u16,
    pub flags: Flags,
    pub question_len: u16,
    pub answer_len: u16,
    pub auth_rr_len: u16,
    pub additional_rr_len: u16,
}

/// How the twelve header bytes are read.
pub open spec fn spec_parse_message(s: Seq<u8>) -> Option<Message> {
    if s.len() < 12 {
        None
    } else {
        match spec_parse_flags(s[2], s[3]) {
            None => None,
            Some(f) => Some(
                Message {
                    identification: be16(s.subrange(0, 2)) as u16,
                    flags: f,
                    question_len: be16(s.subrange(4, 6)) as u16,
                    answer_len: be16(s.subrange(6, 8)) as u16,
                    auth_rr_len: be16(s.subrange(8, 10)) as u16,
                    additional_rr_len: be16(s.subrange(10, 12)) as u16,
                },
            ),
        }
    }
}

/// The twelve bytes the responder writes back for the header: the request's
/// identification and counts, the reply flags, and the two long counts
/// folded to single bytes, their high bytes written as zero.
pub open spec fn spec_message_bytes(m: Message, r: ResponseCode) -> Seq<u8> {
    be16_bytes(m.identification as int) + spec_flags_bytes(m.flags, r) + be16_bytes(
        m.question_len as int,
    ) + be16_bytes(m.answer_len as int) + seq![
        0u8,
        (m.auth_rr_len % 256) as u8,
        0u8,
        (m.additional_rr_len % 256) as u8,
    ]
}

impl Message {
    /// Read the fixed header of a request.
    pub fn from_bytes(b: &[u8]) -> (r: Option<Message>)
        ensures
            r == spec_parse_message(b@),
    {
        if b.len() < 12 {
            return None;
        }
        let f = match Flags::from_bytes(slice_subrange(b, 2, 4)) {
            Some(f) => f,
            None => {
                return None;
            },
        };
        proof {
            assert(b@.subrange(2, 4)[0] == b@[2]);
            assert(b@.subrange(2, 4)[1] == b@[3]);
            assert(b@.subrange(0, 2) =~= seq![b@[0], b@[1]]);
            assert(b@.subrange(4, 6) =~= seq![b@[4], b@[5]]);
            assert(b@.subrange(6, 8) =~= seq![b@[6], b@[7]]);
            assert(b@.subrange(8, 10) =~= seq![b@[8], b@[9]]);
            assert(b@.subrange(10, 12) =~= seq![b@[10], b@[11]]);
        }
        Some(
            Message {
                identification: u16_from_be(b[0], b[1]),
                flags: f,
                question_len: u16_from_be(b[4], b[5]),
                answer_len: u16_from_be(b[6], b[7]),
                auth_rr_len: u16_from_be(b[8], b[9]),
                additional_rr_len: u16_from_be(b[10], b[11]),
            },
        )
    }

    /// Write the reply header bytes.
    pub fn to_bytes(&self, r: ResponseCode) -> (out: Vec<u8>)
        ensures
            out@ == spec_message_bytes(*self, r),
    {
        let mut out: Vec<u8> = Vec::new();
        push_be16(&mut out, self.identification);
        let fb = self.flags.to_bytes(r);
        push_all(&mut out, fb.as_slice());
        push_be16(&mut out, self.question_len);
        push_be16(&mut out, self.answer_len);
        out.push(0);
        out.push((self.auth_rr_len % 256) as u8);
        out.push(0);
        out.push((self.additional_rr_len % 256) as u8);
        proof {
            assert(out@ =~= spec_message_bytes(*self, r));
        }
        out
    }
}

/// The index of the first dot in a byte string, or its length when it has
/// none.
pub open spec fn first_dot(s: Seq<u8>) -> int
    decreases s.len(),
{
    if s.len() == 0 {
        0
    } else if s[0] == 46 {
        0
    } else {
        1 + first_dot(s.subrange(1, s.len() as int))
    }
}

pub proof fn lemma_first_dot_at(s: Seq<u8>, k: int)
    requires
        0 <= k <= s.len(),
        forall|j: int| 0 <= j < k ==> s[j] != 46,
        k == s.len() || s[k] == 46,
    ensures
        first_dot(s) == k,
    decreases s.len(),
{
    if s.len() > 0 && s[0] != 46 {
        let t = s.subrange(1, s.len() as int);
        assert forall|j: int| 0 <= j < k - 1 implies t[j] != 46 by {
            assert(t[j] == s[j + 1]);
        }
        lemma_first_dot_at(t, k - 1);
    }
}

pub proof fn lemma_first_dot_bounds(s: Seq<u8>)
    ensures
        0 <= first_dot(s) <= s.len(),
    decreases s.len(),
{
    if s.len() > 0 && s[0] != 46 {
        lemma_first_dot_bounds(s.subrange(1, s.len() as int));
    }
}

/// The wire form of a domain, one length-prefixed label per dot-separated
/// segment, closed by a zero byte.  A segment's length byte is its length
/// folded to one byte.
pub open spec fn spec_qname(s: Seq<u8>) -> Seq<u8>
    decreases s.len(),
        via spec_qname_dec
{
    let d = first_dot(s);
    let head = seq![(d % 256) as u8] + s.subrange(0, d);
    if d == s.len() {
        head + seq![0u8]
    } else {
        head + spec_qname(s.subrange(d + 1, s.len() as int))
    }
}

#[via_fn]
proof fn spec_qname_dec(s: Seq<u8>) {
    lemma_first_dot_bounds(s);
}

/// The wire form of a name written as sized labels, with segments whose
/// folded length is zero dropped, closed by a zero byte.
pub open spec fn spec_sized_labels(s: Seq<u8>) -> Seq<u8>
    decreases s.len(),
        via spec_sized_labels_dec
{
    let d = first_dot(s);
    let head = if d % 256 != 0 {
        seq![(d % 256) as u8] + s.subrange(0, d)
    } else {
        Seq::<u8>::empty()
    };
    if d == s.len() {
        head + seq![0u8]
    } else {
        head + spec_sized_labels(s.subrange(d + 1, s.len() as int))
    }
}

#[via_fn]
proof fn spec_sized_labels_dec(s: Seq<u8>) {
    lemma_first_dot_bounds(s);
}

/// The wire form of sized labels is at most twice the name plus one byte.
pub proof fn lemma_sized_labels_len(s: Seq<u8>)
    ensures
        spec_sized_labels(s).len() <= 2 * s.len() + 1,
    decreases s.len(),
{
    lemma_first_dot_bounds(s);
    let d = first_dot(s);
    if d < s.len() {
        lemma_sized_labels_len(s.subrange(d + 1, s.len() as int));
    }
}

/// Emit the dot-separated segments of `name`, each as a length byte and its
/// bytes, skipping segments whose folded length is zero, then a closing
/// zero byte.
pub fn data_as_sized_labels(name: &[u8]) -> (out: Vec<u8>)
    ensures
        out@ == spec_sized_labels(name@),
{
    let s = name;
    let n = s.len();
    let mut out: Vec<u8> = Vec::new();
    let mut seg_start: usize = 0;
    proof {
        assert(Seq::<u8>::empty() + spec_sized_labels(s@) =~= spec_sized_labels(s@));
        assert(s@.subrange(0, n as int) =~= s@);
    }
    loop
        invariant_except_break
            seg_start <= n,
            n == s@.len(),
            spec_sized_labels(s@) == out@ + spec_sized_labels(s@.subrange(seg_start as int, n as int)),
        ensures
            out@ == spec_sized_labels(s@),
        decreases n - seg_start,
    {
        let ghost rem = s@.subrange(seg_start as int, n as int);
        let mut j: usize = seg_start;
        while j < n && s[j] != 46
            invariant
                seg_start <= j <= n,
                n == s@.len(),
                forall|k: int| seg_start <= k < j ==> s@[k] != 46,
            decreases n - j,
        {
            j = j + 1;
        }
        proof {
            assert forall|k: int| 0 <= k < j - seg_start implies rem[k] != 46 by {
                assert(rem[k] == s@[seg_start + k]);
            }
            if j < n {
                assert(rem[j - seg_start] == s@[j as int]);
            }
            lemma_first_dot_at(rem, j - seg_start);
            assert(rem.subrange(0, j - seg_start) =~= s@.subrange(seg_start as int, j as int));
        }
        let seg_len = j - seg_start;
        if seg_len % 256 != 0 {
            out.push((seg_len % 256) as u8);
            push_all(&mut out, slice_subrange(s, seg_start, j));
        }
        if j == n {
            out.push(0);
            proof {
                assert(out@ =~= spec_sized_labels(s@));
            }
            break;
        }
        proof {
            assert(rem.subrange(j - seg_start + 1, rem.len() as int) =~= s@.subrange(
                j + 1,
                n as int,
            ));
            assert(spec_sized_labels(s@) == out@ + spec_sized_labels(
                s@.subrange(j + 1, n as int),
            ));
        }
        seg_start = j + 1;
    }
    out
}

/// Emit the dot-separated segments of `name` as the question section's
/// name, keeping empty segments, then a closing zero byte.
fn qname_bytes(name: &[u8]) -> (out: Vec<u8>)
    ensures
        out@ == spec_qname(name@),
{
    let s = name;
    let n = s.len();
    let mut out: Vec<u8> = Vec::new();
    let mut seg_start: usize = 0;
    proof {
        assert(Seq::<u8>::empty() + spec_qname(s@) =~= spec_qname(s@));
        assert(s@.subrange(0, n as int) =~= s@);
    }
    loop
        invariant_except_break
            seg_start <= n,
            n == s@.len(),
            spec_qname(s@) == out@ + spec_qname(s@.subrange(seg_start as int, n as int)),
        ensures
            out@ == spec_qname(s@),
        decreases n - seg_start,
    {
        let ghost rem = s@.subrange(seg_start as int, n as int);
        let mut j: usize = seg_start;
        while j < n && s[j] != 46
            invariant
                seg_start <= j <= n,
                n == s@.len(),
                forall|k: int| seg_start <= k < j ==> s@[k] != 46,
            decreases n - j,
        {
            j = j + 1;
        }
        proof {
            assert forall|k: int| 0 <= k < j - seg_start implies rem[k] != 46 by {
                assert(rem[k] == s@[seg_start + k]);
            }
            if j < n {
                assert(rem[j - seg_start] == s@[j as int]);
            }
            lemma_first_dot_at(rem, j - seg_start);
            assert(rem.subrange(0, j - seg_start) =~= s@.subrange(seg_start as int, j as int));
        }
        let seg_len = j - seg_start;
        out.push((seg_len % 256) as u8);
        push_all(&mut out, slice_subrange(s, seg_start, j));
        if j == n {
            out.push(0);
            proof {
                assert(out@ =~= spec_qname(s@));
            }
            break;
        }
        proof {
            assert(rem.subrange(j - seg_start + 1, rem.len() as int) =~= s@.subrange(
                j + 1,
                n as int,
            ));
            assert(spec_qname(s@) == out@ + spec_qname(s@.subrange(j + 1, n as int)));
        }
        seg_start = j + 1;
    }
    out
}

/// One question of a request: the asked-for domain (as bytes, with dot
/// separators), the question type and the class.
#[derive(Clone, Debug)]
pub struct Question {
    pub domain: Vec<u8>,
    pub qtype: QuestionType,
    pub class: QuestionClass,
}

/// The view of a `Question`.
pub struct QuestionV {
    pub domain: Seq<u8>,
    pub qtype: QuestionType,
    pub class: QuestionClass,
}

impl View for Question {
    type V = QuestionV;

    open spec fn view(&self) -> QuestionV {
        QuestionV { domain: self.domain@, qtype: self.qtype, class: self.class }
    }
}

/// The labels of a wire-form name: each label's bytes, and the position
/// just past the closing zero byte.
pub open spec fn spec_labels(s: Seq<u8>, pos: int) -> Option<(Seq<Seq<u8>>, int)>
    decreases s.len() - pos,
        when 0 <= pos <= s.len()
{
    if pos >= s.len() {
        None
    } else if s[pos] == 0 {
        Some((Seq::empty(), pos + 1))
    } else {
        let l = s[pos] as int;
        if pos + 1 + l <= s.len() {
            match spec_labels(s, pos + 1 + l) {
                None => None,
                Some((ls, p)) => Some((seq![s.subrange(pos + 1, pos + 1 + l)] + ls, p)),
            }
        } else {
            None
        }
    }
}

/// Labels joined with dots.
pub open spec fn spec_join(ls: Seq<Seq<u8>>) -> Seq<u8>
    decreases ls.len(),
{
    if ls.len() == 0 {
        Seq::empty()
    } else if ls.len() == 1 {
        ls[0]
    } else {
        ls[0] + seq![46u8] + spec_join(ls.subrange(1, ls.len() as int))
    }
}

proof fn lemma_join_push(ls: Seq<Seq<u8>>, x: Seq<u8>)
    ensures
        ls.len() == 0 ==> spec_join(ls.push(x)) == x,
        ls.len() > 0 ==> spec_join(ls.push(x)) == spec_join(ls) + seq![46u8] + x,
    decreases ls.len(),
{
    if ls.len() == 0 {
        assert(ls.push(x)[0] == x);
    } else if ls.len() == 1 {
        assert(ls.push(x)[0] == ls[0]);
        assert(ls.push(x).subrange(1, 2) =~= seq![x]);
        assert(spec_join(seq![x]) == x);
    } else {
        let t = ls.subrange(1, ls.len() as int);
        lemma_join_push(t, x);
        assert(ls.push(x).subrange(1, ls.len() as int + 1) =~= t.push(x));
        assert(ls.push(x)[0] == ls[0]);
        assert(ls[0] + seq![46u8] + (spec_join(t) + seq![46u8] + x) =~= (ls[0] + seq![46u8]
            + spec_join(t)) + seq![46u8] + x);
    }
}

/// How a question is read: labels up to the closing zero byte, then the
/// question type and the class, both big-endian and both of known value.
pub open spec fn spec_parse_question(s: Seq<u8>) -> Option<QuestionV> {
    match spec_labels(s, 0) {
        None => None,
        Some((ls, p)) => if p + 4 <= s.len() {
            match (spec_qtype_of(be16(s.subrange(p, p + 2))), spec_class_of(
                be16(s.subrange(p + 2, p + 4)),
            )) {
                (Some(t), Some(c)) => Some(QuestionV { domain: spec_join(ls), qtype: t, class: c }),
                _ => None,
            }
        } else {
            None
        },
    }
}

/// The views of a sequence of labels.
pub open spec fn labels_view(ls: Seq<Vec<u8>>) -> Seq<Seq<u8>> {
    ls.map_values(|l: Vec<u8>| l@)
}

/// The question type a wire number names, executable form.
fn qtype_of(n: u16) -> (r: Option<QuestionType>)
    ensures
        r == spec_qtype_of(n as int),
{
    if n == 1 {
        Some(QuestionType::A)
    } else if n == 5 {
        Some(QuestionType::CNAME)
    } else if n == 28 {
        Some(QuestionType::AAAA)
    } else if n == 17 {
        Some(QuestionType::RP)
    } else if n == 16 {
        Some(QuestionType::TXT)
    } else {
        None
    }
}

impl Question {
    /// Read one question: its labels, joined with dots into the domain,
    /// then the question type and class.
    #[verifier::rlimit(50)]
    pub fn from_bytes(buf: &[u8]) -> (r: Option<Question>)
        ensures
            match spec_parse_question(buf@) {
                Some(qv) => r matches Some(q) && q@.domain == qv.domain && q@.qtype == qv.qtype
                    && q@.class == qv.class,
                None => r is None,
            },
    {
        let ghost s = buf@;
        let n = buf.len();
        let mut labels: Vec<Vec<u8>> = Vec::new();
        let mut pos: usize = 0;
        proof {
            assert(labels_view(labels@) =~= Seq::<Seq<u8>>::empty());
        }
        loop
            invariant_except_break
                pos <= n,
                n == s.len(),
                s == buf@,
                match spec_labels(s, pos as int) {
                    Some((ls, p)) => spec_labels(s, 0) == Some((labels_view(labels@) + ls, p)),
                    None => spec_labels(s, 0) is None,
                },
            ensures
                s == buf@,
                pos <= n == s.len(),
                spec_labels(s, 0) == Some((labels_view(labels@), pos as int)),
            decreases n - pos,
        {
            if pos >= n {
                return None;
            }
            let b = buf[pos];
            if b == 0 {
                pos = pos + 1;
                proof {
                    assert(labels_view(labels@) + Seq::<Seq<u8>>::empty() =~= labels_view(
                        labels@,
                    ));
                }
                break;
            }
            let l = b as usize;
            if n - pos < l + 1 {
                return None;
            }
            let label = slice_to_vec(slice_subrange(buf, pos + 1, pos + 1 + l));
            proof {
                let ghost tail = spec_labels(s, pos + 1 + l);
                assert(labels_view(labels@.push(label)) =~= labels_view(labels@).push(label@));
                match tail {
                    Some((ls, _)) => {
                        assert(labels_view(labels@) + (seq![label@] + ls) =~= labels_view(
                            labels@,
                        ).push(label@) + ls);
                    },
                    None => {},
                }
            }
            labels.push(label);
            pos = pos + 1 + l;
        }
        if n - pos < 4 {
            return None;
        }
        proof {
            assert(s.subrange(pos as int, pos + 2) =~= seq![s[pos as int], s[pos + 1]]);
            assert(s.subrange(pos + 2, pos + 4) =~= seq![s[pos + 2], s[pos + 3]]);
        }
        let t = match qtype_of(u16_from_be(buf[pos], buf[pos + 1])) {
            Some(t) => t,
            None => {
                return None;
            },
        };
        let cnum = u16_from_be(buf[pos + 2], buf[pos + 3]);
        if cnum != 1 {
            return None;
        }
        let domain = join_labels(&labels);
        Some(Question { domain, qtype: t, class: QuestionClass::IN })
    }

    /// Write the question section: the domain as labels, the question type
    /// and the class.
    pub fn to_bytes(&self) -> (out: Vec<u8>)
        ensures
            out@ == spec_qname(self.domain@) + be16_bytes(qtype_num(self.qtype) as int)
                + be16_bytes(class_num(self.class) as int),
    {
        let mut out = qname_bytes(self.domain.as_slice());
        let tn: u16 = match self.qtype {
            QuestionType::A => 1,
            QuestionType::CNAME => 5,
            QuestionType::AAAA => 28,
            QuestionType::RP => 17,
            QuestionType::TXT => 16,
        };
        push_be16(&mut out, tn);
        push_be16(&mut out, 1);
        proof {
            assert(out@ =~= spec_qname(self.domain@) + be16_bytes(qtype_num(self.qtype) as int)
                + be16_bytes(class_num(self.class) as int));
        }
        out
    }
}

/// Join labels with dots into one domain.
fn join_labels(ls: &Vec<Vec<u8>>) -> (out: Vec<u8>)
    ensures
        out@ == spec_join(labels_view(ls@)),
{
    let ghost lv = labels_view(ls@);
    let n = ls.len();
    let mut out: Vec<u8> = Vec::new();
    let mut i: usize = 0;
    proof {
        assert(lv.subrange(0, 0) =~= Seq::<Seq<u8>>::empty());
    }
    while i < n
        invariant
            i <= n,
            n == lv.len(),
            lv == labels_view(ls@),
            out@ == spec_join(lv.subrange(0, i as int)),
        decreases n - i,
    {
        proof {
            lemma_join_push(lv.subrange(0, i as int), lv[i as int]);
            assert(lv.subrange(0, i as int).push(lv[i as int]) =~= lv.subrange(0, i + 1));
        }
        if i > 0 {
            out.push(46);
        }
        push_all(&mut out, ls[i].as_slice());
        proof {
            assert(lv[i as int] == ls@[i as int]@);
            assert(out@ =~= spec_join(lv.subrange(0, i + 1)));
        }
        i = i + 1;
    }
    proof {
        assert(lv.subrange(0, n as int) =~= lv);
    }
    out
}

/// One answer record the responder can send.
#[derive(Clone, Debug)]
pub struct Answer {
    pub name: Vec<u8>,
    pub atype: QuestionType,
    pub class: QuestionClass,
    pub ttl: u32,
    pub data: Vec<u8>,
    /// Whether the name came from a wildcard entry and matches by suffix.
    pub glob: bool,
}

/// The payload section of an answer, picked by the question's type: a TXT
/// answer carries a length-prefixed text, an RP answer an empty mailbox and
/// the data as sized labels, anything else the data bytes.  Lengths are
/// folded to their field widths.
pub open spec fn spec_answer_payload(data: Seq<u8>, qt: QuestionType) -> Seq<u8> {
    if qt == QuestionType::TXT {
        be16_bytes((data.len() + 1) as int % 0x1_0000) + seq![(data.len() % 256) as u8] + data
    } else if qt == QuestionType::RP {
        let email = spec_sized_labels(Seq::empty());
        let labels = spec_sized_labels(data);
        be16_bytes((email.len() + labels.len()) as int) + email + labels
    } else {
        be16_bytes(data.len() as int % 0x1_0000) + data
    }
}

/// The whole reply: the header, the echoed question, a compression pointer
/// to the question's name, the answer's type, class and time-to-live, then
/// the payload.
pub open spec fn spec_answer_bytes(
    a: Answer,
    m: Message,
    q: QuestionV,
    r: ResponseCode,
) -> Seq<u8> {
    spec_message_bytes(m, r) + spec_qname(q.domain) + be16_bytes(qtype_num(q.qtype) as int)
        + be16_bytes(class_num(q.class) as int) + seq![0xc0u8, 0x0cu8] + be16_bytes(
        qtype_num(a.atype) as int,
    ) + be16_bytes(class_num(a.class) as int) + be32_bytes(a.ttl as int) + spec_answer_payload(
        a.data@,
        q.qtype,
    )
}

impl Answer {
    /// Write the whole reply for this answer to the given question.
    #[verifier::rlimit(100)]
    pub fn to_bytes(&self, m: &Message, q: &Question, r: ResponseCode) -> (out: Vec<u8>)
        requires
            q@.qtype == QuestionType::RP ==> self.data@.len() < 0x7000,
        ensures
            out@ == spec_answer_bytes(*self, *m, q@, r),
    {
        let mut out = m.to_bytes(r);
        let qb = q.to_bytes();
        push_all(&mut out, qb.as_slice());
        // A compression pointer to the name at offset 12, the start of the
        // question section.
        out.push(0xc0);
        out.push(0x0c);
        let tn: u16 = match self.atype {
            QuestionType::A => 1,
            QuestionType::CNAME => 5,
            QuestionType::AAAA => 28,
            QuestionType::RP => 17,
            QuestionType::TXT => 16,
        };
        push_be16(&mut out, tn);
        push_be16(&mut out, 1);
        push_be32(&mut out, self.ttl);
        match q.qtype {
            QuestionType::TXT => {
                let dl = self.data.len();
                let v: u32 = ((dl % 0x1_0000) as u32 + 1) % 0x1_0000;
                proof {
                    vstd::arithmetic::div_mod::lemma_add_mod_noop(dl as int, 1, 0x1_0000);
                }
                push_be16(&mut out, v as u16);
                out.push((dl % 256) as u8);
                push_all(&mut out, self.data.as_slice());
            },
            QuestionType::RP => {
                let nothing: [u8; 0] = [];
                let email = data_as_sized_labels(nothing.as_slice());
                let labels = data_as_sized_labels(self.data.as_slice());
                proof {
                    lemma_sized_labels_len(self.data@);
                    assert(nothing@ =~= Seq::<u8>::empty());
                }
                push_be16(&mut out, email.len() as u16 + labels.len() as u16);
                push_all(&mut out, email.as_slice());
                push_all(&mut out, labels.as_slice());
            },
            _ => {
                push_be16(&mut out, (self.data.len() % 0x1_0000) as u16);
                push_all(&mut out, self.data.as_slice());
            },
        }
        proof {
            assert(out@ =~= spec_answer_bytes(*self, *m, q@, r));
        }
        out
    }
}

/// Whether `p` is a suffix of `s`.
pub open spec fn spec_ends_with(s: Seq<u8>, p: Seq<u8>) -> bool {
    p.len() <= s.len() && s.subrange(s.len() - p.len(), s.len() as int) == p
}

/// Whether an answer serves a question: the names must agree — exactly, or
/// by suffix for a wildcard answer — and the types must agree.
pub open spec fn spec_answer_matches(a: Answer, q: Question) -> bool {
    (a.name@ == q.domain@ || (a.glob && spec_ends_with(q.domain@, a.name@))) && a.atype == q.qtype
}

/// Whether this answer serves the question.
pub fn answer_matches(a: &Answer, q: &Question) -> (r: bool)
    ensures
        r == spec_answer_matches(*a, *q),
{
    if !matches_type(a.atype, q.qtype) {
        return false;
    }
    let an = a.name.as_slice();
    let qd = q.domain.as_slice();
    if an.len() == qd.len() && suffix_eq(qd, an) {
        proof {
            assert(qd@.subrange(qd@.len() - an@.len(), qd@.len() as int) =~= qd@);
        }
        return true;
    }
    proof {
        if an@.len() == qd@.len() {
            assert(qd@.subrange(qd@.len() - an@.len(), qd@.len() as int) =~= qd@);
        } else {
            assert(an@.len() != qd@.len());
        }
    }
    a.glob && suffix_eq(qd, an)
}

/// Whether the two question types agree.
fn matches_type(a: QuestionType, b: QuestionType) -> (r: bool)
    ensures
        r == (a == b),
{
    let an: u16 = match a {
        QuestionType::A => 1,
        QuestionType::CNAME => 5,
        QuestionType::AAAA => 28,
        QuestionType::RP => 17,
        QuestionType::TXT => 16,
    };
    let bn: u16 = match b {
        QuestionType::A => 1,
        QuestionType::CNAME => 5,
        QuestionType::AAAA => 28,
        QuestionType::RP => 17,
        QuestionType::TXT => 16,
    };
    an == bn
}

/// Whether `p` is a suffix of `s`, executable form.
fn suffix_eq(s: &[u8], p: &[u8]) -> (r: bool)
    ensures
        r == spec_ends_with(s@, p@),
{
    if p.len() > s.len() {
        return false;
    }
    let slen = s.len();
    let off = slen - p.len();
    let n = p.len();
    let mut i: usize = 0;
    while i < n
        invariant
            i <= n,
            n == p@.len() <= s@.len(),
            slen == s@.len(),
            off + n == slen,
            off == s@.len() - p@.len(),
            forall|j: int| 0 <= j < i ==> s@[off + j] == p@[j],
        decreases n - i,
    {
        if s[off + i] != p[i] {
            proof {
                assert(s@.subrange(s@.len() - p@.len(), s@.len() as int)[i as int] != p@[
                    i as int]);
            }
            return false;
        }
        i = i + 1;
    }
    proof {
        assert(s@.subrange(s@.len() - p@.len(), s@.len() as int) =~= p@);
    }
    true
}

} // verus!
