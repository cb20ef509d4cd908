use hackattic::dns::{
    answer_matches, data_as_sized_labels, Answer, Flags, Message, Question, QuestionClass,
    QuestionType, QueryOpcode, QueryType, ResponseCode,
};

#[test]
fn flags_read_the_request_bits() {
    let f = Flags::from_bytes(&[0b0000_0011, 0b0011_0000]).unwrap();
    assert!(matches!(f.query_type, QueryType::Query));
    assert!(matches!(f.opcode, QueryOpcode::Query));
    assert!(f.truncated);
    assert!(f.recursion_desired);
    assert!(f.ad_bit);
    assert!(f.unauthenticated_ok);
    assert!(matches!(f.response_code, ResponseCode::NoError));
}

#[test]
fn reply_or_odd_opcode_bits_are_rejected() {
    assert!(Flags::from_bytes(&[0b1000_0000, 0]).is_none());
    assert!(Flags::from_bytes(&[0b0000_1000, 0]).is_none());
    assert!(Flags::from_bytes(&[0, 0x0F]).is_none());
}

#[test]
fn flags_write_the_reply_bits() {
    let f = Flags::from_bytes(&[0b0000_0001, 0]).unwrap();
    assert_eq!(f.to_bytes(ResponseCode::NxDomain), vec![0b1000_0001, 0b0000_0011]);
    let f = Flags::from_bytes(&[0, 0]).unwrap();
    assert_eq!(f.to_bytes(ResponseCode::NoError), vec![0x80, 0x00]);
}

fn request_header() -> Vec<u8> {
    vec![
        0xAB, 0xCD, // identification
        0x01, 0x00, // flags: recursion desired
        0x00, 0x01, // one question
        0x00, 0x00, 0x00, 0x02, 0x00, 0x03,
    ]
}

#[test]
fn message_reads_the_fixed_header() {
    let m = Message::from_bytes(&request_header()).unwrap();
    assert_eq!(m.identification, 0xABCD);
    assert!(m.flags.recursion_desired);
    assert_eq!(m.question_len, 1);
    assert_eq!(m.answer_len, 0);
    assert_eq!(m.auth_rr_len, 2);
    assert_eq!(m.additional_rr_len, 3);
    assert!(Message::from_bytes(&[0; 11]).is_none());
}

#[test]
fn message_writes_the_reply_header() {
    let m = Message::from_bytes(&request_header()).unwrap();
    let out = m.to_bytes(ResponseCode::NoError);
    assert_eq!(
        out,
        vec![0xAB, 0xCD, 0x81, 0x00, 0x00, 0x01, 0x00, 0x00, 0x00, 0x02, 0x00, 0x03]
    );
}

#[test]
fn long_counts_fold_to_single_bytes() {
    let mut m = Message::from_bytes(&request_header()).unwrap();
    m.auth_rr_len = 0x1FE;
    m.additional_rr_len = 0x102;
    let out = m.to_bytes(ResponseCode::NoError);
    assert_eq!(&out[8..12], &[0x00, 0xFE, 0x00, 0x02]);
}

#[test]
fn a_root_question_has_an_empty_domain() {
    let q = Question::from_bytes(&[0, 0x00, 0x01, 0x00, 0x01]).unwrap();
    assert_eq!(q.domain, Vec::<u8>::new());
    assert_eq!(q.to_bytes(), vec![0, 0, 0x00, 0x01, 0x00, 0x01]);
}

#[test]
fn question_reads_labels_into_a_dotted_domain() {
    let wire = [
        3, b'a', b'b', b'c', 2, b'd', b'e', 0, // abc.de
        0x00, 0x01, // type A
        0x00, 0x01, // class IN
    ];
    let q = Question::from_bytes(&wire).unwrap();
    assert_eq!(q.domain, b"abc.de".to_vec());
    assert!(matches!(q.qtype, QuestionType::A));
    assert!(matches!(q.class, QuestionClass::IN));
}

#[test]
fn question_rejects_unknown_type_or_class() {
    let mut wire = vec![1, b'a', 0, 0x00, 0x02, 0x00, 0x01];
    assert!(Question::from_bytes(&wire).is_none());
    wire = vec![1, b'a', 0, 0x00, 0x01, 0x00, 0x02];
    assert!(Question::from_bytes(&wire).is_none());
    assert!(Question::from_bytes(&[5, b'a']).is_none());
}

#[test]
fn question_writes_back_its_wire_form() {
    let q = Question { domain: b"abc.de".to_vec(), qtype: QuestionType::TXT, class: QuestionClass::IN };
    assert_eq!(
        q.to_bytes(),
        vec![3, b'a', b'b', b'c', 2, b'd', b'e', 0, 0x00, 0x10, 0x00, 0x01]
    );
}

#[test]
fn sized_labels_skip_empty_segments() {
    assert_eq!(
        data_as_sized_labels(b"mail.example"),
        vec![4, b'm', b'a', b'i', b'l', 7, b'e', b'x', b'a', b'm', b'p', b'l', b'e', 0]
    );
    assert_eq!(data_as_sized_labels(b""), vec![0]);
    assert_eq!(data_as_sized_labels(b"a..b"), vec![1, b'a', 1, b'b', 0]);
}

fn question(domain: &[u8], qtype: QuestionType) -> Question {
    Question { domain: domain.to_vec(), qtype, class: QuestionClass::IN }
}

fn answer(name: &[u8], atype: QuestionType, data: &[u8], glob: bool) -> Answer {
    Answer { name: name.to_vec(), atype, class: QuestionClass::IN, ttl: 999, data: data.to_vec(), glob }
}

#[test]
fn answers_match_by_name_or_wildcard_suffix_and_type() {
    let a = answer(b"x.com", QuestionType::A, &[1, 2, 3, 4], false);
    assert!(answer_matches(&a, &question(b"x.com", QuestionType::A)));
    assert!(!answer_matches(&a, &question(b"x.com", QuestionType::TXT)));
    assert!(!answer_matches(&a, &question(b"a.x.com", QuestionType::A)));
    let w = answer(b"x.com", QuestionType::A, &[1, 2, 3, 4], true);
    assert!(answer_matches(&w, &question(b"a.x.com", QuestionType::A)));
    assert!(!answer_matches(&w, &question(b"a.y.com", QuestionType::A)));
}

#[test]
fn address_answer_serializes() {
    let m = Message::from_bytes(&request_header()).unwrap();
    let q = question(b"x.co", QuestionType::A);
    let a = answer(b"x.co", QuestionType::A, &[10, 0, 0, 1], false);
    let out = a.to_bytes(&m, &q, ResponseCode::NoError);
    let mut expected = m.to_bytes(ResponseCode::NoError);
    expected.extend_from_slice(&q.to_bytes());
    expected.extend_from_slice(&[0xC0, 0x0C]); // pointer to the question name
    expected.extend_from_slice(&[0x00, 0x01, 0x00, 0x01]); // type A, class IN
    expected.extend_from_slice(&999u32.to_be_bytes());
    expected.extend_from_slice(&[0x00, 0x04, 10, 0, 0, 1]);
    assert_eq!(out, expected);
}

#[test]
fn text_answer_carries_a_length_prefixed_text() {
    let m = Message::from_bytes(&request_header()).unwrap();
    let q = question(b"x.co", QuestionType::TXT);
    let a = answer(b"x.co", QuestionType::TXT, b"hey", false);
    let out = a.to_bytes(&m, &q, ResponseCode::NoError);
    let tail = &out[out.len() - 6..];
    assert_eq!(tail, &[0x00, 0x04, 3, b'h', b'e', b'y']);
}

#[test]
fn responsible_person_answer_uses_sized_labels() {
    let m = Message::from_bytes(&request_header()).unwrap();
    let q = question(b"x.co", QuestionType::RP);
    let a = answer(b"x.co", QuestionType::RP, b"who.example", false);
    let out = a.to_bytes(&m, &q, ResponseCode::NoError);
    let labels = data_as_sized_labels(b"who.example");
    let mut tail = vec![0x00, (1 + labels.len()) as u8, 0];
    tail.extend_from_slice(&labels);
    assert_eq!(&out[out.len() - tail.len()..], tail.as_slice());
}
