use hackattic::cursor::ByteCursor;
use hackattic::decoders::{read_length, read_length_encoding, read_str};
use hackattic::errors::DecodeError;
use hackattic::model::{Length, RecordValue, ScalarValue, ZiplistEntry};
use hackattic::model::{AuxHeader, Database};
use hackattic::records::{read_key_value, read_value_type};
use hackattic::snapshot::decode_snapshot;
use hackattic::ziplist::{parse_zl_entry, parse_ziplist_encoding};

fn cursor(bytes: &[u8]) -> ByteCursor {
    ByteCursor::new(bytes.to_vec())
}

#[test]
fn six_bit_length_occupies_one_byte() {
    let mut cur = cursor(&[0x05, 0xAA]);
    assert_eq!(read_length(&mut cur).unwrap(), Length::Raw(5));
    assert_eq!(cur.pos, 1);
}

#[test]
fn fourteen_bit_length_occupies_two_bytes() {
    let mut cur = cursor(&[0x41, 0x02]);
    assert_eq!(read_length(&mut cur).unwrap(), Length::Raw(0x102));
    assert_eq!(cur.pos, 2);
}

#[test]
fn wide_length_occupies_six_bytes() {
    let mut cur = cursor(&[0x80, 0x00, 0x00, 0x00, 0x01, 0x00]);
    assert_eq!(read_length(&mut cur).unwrap(), Length::FixedWidth(256));
    assert_eq!(cur.pos, 6);
}

#[test]
fn encoded_length_occupies_one_byte() {
    let mut cur = cursor(&[0xC2]);
    assert_eq!(read_length(&mut cur).unwrap(), Length::Encoded(2));
    assert_eq!(cur.pos, 1);
}

#[test]
fn sixty_four_bit_length_is_unsupported() {
    let mut cur = cursor(&[0x80, 0x01, 0, 0, 0, 0, 0, 0, 0, 1]);
    assert_eq!(read_length(&mut cur).unwrap_err(), DecodeError::UnsupportedEncoding);
}

#[test]
fn empty_input_is_truncated() {
    let mut cur = cursor(&[]);
    assert_eq!(read_length(&mut cur).unwrap_err(), DecodeError::TruncatedInput);
}

#[test]
fn compressed_special_integer_is_rejected_at_the_mode_byte() {
    let mut cur = cursor(&[0xC3, 0x55, 0x66]);
    assert_eq!(read_length_encoding(&mut cur).unwrap_err(), DecodeError::UnsupportedEncoding);
    // Nothing past the mode byte was read.
    assert_eq!(cur.pos, 1);
}

#[test]
fn special_integers_decode_little_endian() {
    let mut cur = cursor(&[0xC0, 42]);
    assert!(matches!(read_length_encoding(&mut cur), Ok(ScalarValue::UInt8(42))));
    let mut cur = cursor(&[0xC1, 0x34, 0x12]);
    assert!(matches!(read_length_encoding(&mut cur), Ok(ScalarValue::UInt16(0x1234))));
    let mut cur = cursor(&[0xC2, 0x78, 0x56, 0x34, 0x12]);
    assert!(matches!(read_length_encoding(&mut cur), Ok(ScalarValue::UInt32(0x12345678))));
}

#[test]
fn plain_length_reads_a_string() {
    let mut cur = cursor(&[0x02, b'h', b'i']);
    match read_length_encoding(&mut cur) {
        Ok(ScalarValue::Utf8String(s)) => assert_eq!(s, "hi"),
        other => panic!("unexpected {:?}", other),
    }
}

#[test]
fn invalid_utf8_in_a_value_is_a_hard_failure() {
    let mut cur = cursor(&[0xFF, 0xFE]);
    assert_eq!(read_str(&mut cur, 2).unwrap_err(), DecodeError::InvalidUtf8);
}

#[test]
fn ziplist_entries_decode() {
    // length field, 4 + 4 discarded bytes, count 3, then entries.
    let mut bytes = vec![0x00u8];
    bytes.extend_from_slice(&[0; 8]);
    bytes.extend_from_slice(&[3, 0]);
    bytes.extend_from_slice(&[0, 0x02, b'a', b'b']); // string "ab"
    bytes.extend_from_slice(&[0, 0xC0, 0xD6, 0xFF]); // int16 -42
    bytes.extend_from_slice(&[0, 0xF0, 1, 0, 0]); // 24-bit form, low byte padded
    bytes.push(0xFF);
    let mut cur = cursor(&bytes);
    let entries = parse_ziplist_encoding(&mut cur).unwrap();
    assert_eq!(entries.len(), 3);
    match &entries[0] {
        ZiplistEntry::Str(s) => assert_eq!(s, "ab"),
        other => panic!("unexpected {:?}", other),
    }
    assert!(matches!(entries[1], ZiplistEntry::Int16(-42)));
    assert!(matches!(entries[2], ZiplistEntry::Int32(256)));
}

#[test]
fn ziplist_long_prev_entry_prefix_is_skipped() {
    let mut cur = cursor(&[254, 9, 9, 9, 9, 0xC0, 0x39, 0x30]);
    assert!(matches!(parse_zl_entry(&mut cur), Ok(ZiplistEntry::Int16(12345))));
}

#[test]
fn ziplist_without_sentinel_fails() {
    let mut bytes = vec![0x00u8];
    bytes.extend_from_slice(&[0; 8]);
    bytes.extend_from_slice(&[1, 0]);
    bytes.extend_from_slice(&[0, 0x01, b'x']);
    bytes.push(0xAA); // not the 0xFF sentinel
    let mut cur = cursor(&bytes);
    assert_eq!(parse_ziplist_encoding(&mut cur).unwrap_err(), DecodeError::UnexpectedOpcode);
}

#[test]
fn ziplist_ending_at_the_sentinel_position_is_truncated() {
    let mut bytes = vec![0x00u8];
    bytes.extend_from_slice(&[0; 8]);
    bytes.extend_from_slice(&[1, 0]);
    bytes.extend_from_slice(&[0, 0x01, b'x']);
    let mut cur = cursor(&bytes);
    assert_eq!(parse_ziplist_encoding(&mut cur).unwrap_err(), DecodeError::TruncatedInput);
}

#[test]
fn header_pair_decodes() {
    let mut cur = cursor(&[3, b'k', b'e', b'y', 0xC0, 7]);
    let rec = read_key_value(&mut cur).unwrap();
    assert_eq!(rec.key, "key");
    assert!(matches!(rec.val, RecordValue::SmallUInt8(7)));
}

#[test]
fn header_with_zero_aux_fields_is_empty_not_an_error() {
    let mut cur = cursor(&[0xFE]);
    let header = AuxHeader::parse(&mut cur).unwrap();
    assert!(header.entries.is_empty());
    assert_eq!(cur.pos, 0); // the sentinel is left unconsumed
}

#[test]
fn header_rejects_other_opcodes() {
    let mut cur = cursor(&[0xFB]);
    assert_eq!(AuxHeader::parse(&mut cur).unwrap_err(), DecodeError::MalformedHeader);
}

#[test]
fn invalid_utf8_key_gets_a_placeholder() {
    let mut cur = cursor(&[2, 0xFF, 0xFE, 0xC0, 1]);
    let rec = read_key_value(&mut cur).unwrap();
    assert_eq!(rec.key, "<invalid utf-8 key>");
}

#[test]
fn tagged_record_with_string_value() {
    let mut cur = cursor(&[0x00, 0x03, b'k', b'e', b'y', 0x02, b'h', b'i']);
    let rec = read_value_type(&mut cur).unwrap();
    assert_eq!(rec.key, "key");
    match rec.val {
        RecordValue::Str(s) => assert_eq!(s, "hi"),
        other => panic!("unexpected {:?}", other),
    }
}

#[test]
fn encoded_length_cannot_introduce_a_key() {
    // A key length field selecting the special-integer mode is a failure.
    let mut cur = cursor(&[0x00, 0xC0, 7, 0x01, b'v']);
    assert_eq!(read_value_type(&mut cur).unwrap_err(), DecodeError::UnsupportedEncoding);
}

#[test]
fn wide_length_can_introduce_a_key() {
    let mut cur = cursor(&[0x00, 0x80, 0x00, 0, 0, 0, 1, b'k', 0x01, b'v']);
    let rec = read_value_type(&mut cur).unwrap();
    assert_eq!(rec.key, "k");
}

#[test]
fn a_record_cannot_carry_an_eight_bit_scalar() {
    // Tag 0 wraps only strings and small 16-bit integers.
    let mut cur = cursor(&[0x00, 0x01, b'k', 0xC0, 7]);
    assert_eq!(read_value_type(&mut cur).unwrap_err(), DecodeError::UnsupportedEncoding);
    let mut cur = cursor(&[0x00, 0x01, b'k', 0xC1, 0x10, 0x27]);
    let rec = read_value_type(&mut cur).unwrap();
    assert!(matches!(rec.val, RecordValue::SmallUInt16(10000)));
}

#[test]
fn header_pairs_carry_any_small_scalar() {
    let mut cur = cursor(&[1, b'a', 0xC1, 0x34, 0x12]);
    assert!(matches!(read_key_value(&mut cur).unwrap().val, RecordValue::SmallUInt16(0x1234)));
    let mut cur = cursor(&[1, b'a', 0xC2, 1, 0, 0, 0]);
    assert!(matches!(read_key_value(&mut cur).unwrap().val, RecordValue::SmallUInt32(1)));
    let mut cur = cursor(&[1, b'a', 0x01, b'z']);
    match read_key_value(&mut cur).unwrap().val {
        RecordValue::Str(s) => assert_eq!(s, "z"),
        other => panic!("unexpected {:?}", other),
    }
}

#[test]
fn unknown_value_tag_is_unsupported() {
    let mut cur = cursor(&[0x05, 0x01, b'k', 0x00]);
    assert_eq!(read_value_type(&mut cur).unwrap_err(), DecodeError::UnsupportedValueType);
}

#[test]
fn section_opening_with_another_byte_is_no_section() {
    let mut cur = cursor(&[0xFF]);
    assert!(Database::parse(&mut cur).unwrap().is_none());
    assert_eq!(cur.pos, 0);
}

#[test]
fn declared_size_must_match_records_found() {
    // hash size 2 declared, one record present.
    let bytes = vec![
        0xFE, 0, 0xFB, 0x02, 0x00, 0x00, 0x01, b'k', 0x01, b'v', 0xFF,
    ];
    let mut cur = cursor(&bytes);
    assert_eq!(Database::parse(&mut cur).unwrap_err(), DecodeError::RecordCountMismatch);
}

#[test]
fn reserved_opcode_inside_a_section_is_unexpected() {
    let bytes = vec![0xFE, 0, 0xFB, 0x01, 0x00, 0xFD];
    let mut cur = cursor(&bytes);
    assert_eq!(Database::parse(&mut cur).unwrap_err(), DecodeError::UnexpectedOpcode);
}

fn whole_snapshot_bytes() -> Vec<u8> {
    let mut bytes = Vec::new();
    bytes.extend_from_slice(b"REDIS0003"); // 9 preamble bytes, content ignored
    bytes.push(0xFA);
    bytes.push(9);
    bytes.extend_from_slice(b"redis-ver");
    bytes.push(0x05);
    bytes.extend_from_slice(b"7.0.0");
    bytes.push(0xFE);
    bytes.push(0x00); // database id
    bytes.push(0xFB);
    bytes.push(0x01); // hash-table size 1
    bytes.push(0x00); // expiry-table size 0
    bytes.push(0x00); // value-type tag: string
    bytes.push(0x08);
    bytes.extend_from_slice(b"greeting");
    bytes.push(0x02);
    bytes.extend_from_slice(b"hi");
    bytes.push(0xFF);
    bytes
}

#[test]
fn whole_snapshot_decodes() {
    let snap = decode_snapshot(whole_snapshot_bytes()).unwrap();
    assert_eq!(snap.header.entries.len(), 1);
    assert_eq!(snap.header.entries[0].key, "redis-ver");
    match &snap.header.entries[0].val {
        RecordValue::Str(s) => assert_eq!(s, "7.0.0"),
        other => panic!("unexpected {:?}", other),
    }
    assert_eq!(snap.dbs.len(), 1);
    assert_eq!(snap.dbs[0].id, 0);
    assert_eq!(snap.dbs[0].entries.len(), 1);
    assert_eq!(snap.dbs[0].entries[0].key, "greeting");
    match &snap.dbs[0].entries[0].val {
        RecordValue::Str(s) => assert_eq!(s, "hi"),
        other => panic!("unexpected {:?}", other),
    }
    assert_eq!(snap.dbs[0].expiries, vec![0]);
}

#[test]
fn expiry_attaches_to_the_next_record_only() {
    let t: u64 = 0x1122334455667788;
    let mut bytes = Vec::new();
    bytes.extend_from_slice(b"REDIS0003");
    bytes.push(0xFE);
    bytes.push(0x07);
    bytes.push(0xFB);
    bytes.push(0x02);
    bytes.push(0x01);
    bytes.push(0xFC);
    bytes.extend_from_slice(&t.to_le_bytes());
    bytes.extend_from_slice(&[0x00, 0x01, b'a', 0x01, b'x']);
    bytes.extend_from_slice(&[0x00, 0x01, b'b', 0x01, b'y']);
    bytes.push(0xFF);
    let snap = decode_snapshot(bytes).unwrap();
    assert_eq!(snap.dbs.len(), 1);
    assert_eq!(snap.dbs[0].id, 7);
    assert_eq!(snap.dbs[0].expiries, vec![t, 0]);
}

#[test]
fn truncated_snapshot_fails() {
    assert_eq!(decode_snapshot(vec![1, 2, 3]).unwrap_err(), DecodeError::TruncatedInput);
    let mut bytes = whole_snapshot_bytes();
    bytes.pop(); // lose the end-of-file opcode
    bytes.pop();
    assert!(decode_snapshot(bytes).is_err());
}

#[test]
fn errors_propagate_unchanged_to_the_top() {
    let mut bytes = Vec::new();
    bytes.extend_from_slice(b"REDIS0003");
    bytes.push(0xFA);
    bytes.push(0x01);
    bytes.push(b'k');
    bytes.push(0xC3); // compressed special integer: unsupported
    assert_eq!(decode_snapshot(bytes).unwrap_err(), DecodeError::UnsupportedEncoding);
}
