use hackattic::cursor::ByteCursor;
use hackattic::decoders::read_length_encoding;
use hackattic::encode::encode_scalar;
use hackattic::model::{ScalarValue, ZiplistEntry};
use hackattic::ziplist::parse_zl_entry;

/// Decode the canonical encoding of a scalar and re-encode it; both steps
/// must give back what they were fed.
fn scalar_round_trip(v: ScalarValue) {
    let bytes = encode_scalar(&v);
    let mut cur = ByteCursor::new(bytes.clone());
    let decoded = read_length_encoding(&mut cur).unwrap();
    assert_eq!(cur.pos, bytes.len());
    let re = encode_scalar(&decoded);
    assert_eq!(re, bytes);
    match (&v, &decoded) {
        (ScalarValue::Utf8String(a), ScalarValue::Utf8String(b)) => assert_eq!(a, b),
        (ScalarValue::UInt8(a), ScalarValue::UInt8(b)) => assert_eq!(a, b),
        (ScalarValue::UInt16(a), ScalarValue::UInt16(b)) => assert_eq!(a, b),
        (ScalarValue::UInt32(a), ScalarValue::UInt32(b)) => assert_eq!(a, b),
        (a, b) => panic!("variant changed: {:?} vs {:?}", a, b),
    }
}

/// Decode the canonical ziplist-entry encoding of a signed scalar and check
/// the value survives.
fn signed_round_trip(v: ScalarValue) {
    let bytes = encode_scalar(&v);
    let mut cur = ByteCursor::new(bytes.clone());
    let decoded = parse_zl_entry(&mut cur).unwrap();
    assert_eq!(cur.pos, bytes.len());
    match (&v, &decoded) {
        (ScalarValue::Int16(a), ZiplistEntry::Int16(b)) => assert_eq!(a, b),
        (ScalarValue::Int32(a), ZiplistEntry::Int32(b)) => assert_eq!(a, b),
        (ScalarValue::Int64(a), ZiplistEntry::Int64(b)) => assert_eq!(a, b),
        (a, b) => panic!("variant changed: {:?} vs {:?}", a, b),
    }
}

#[test]
fn strings_round_trip() {
    scalar_round_trip(ScalarValue::Utf8String(String::new()));
    scalar_round_trip(ScalarValue::Utf8String("x".to_string()));
    scalar_round_trip(ScalarValue::Utf8String("a".repeat(63)));
    scalar_round_trip(ScalarValue::Utf8String("b".repeat(64)));
    scalar_round_trip(ScalarValue::Utf8String("c".repeat(16383)));
    scalar_round_trip(ScalarValue::Utf8String("snowman \u{2603}".to_string()));
}

#[test]
fn unsigned_integers_round_trip() {
    for v in [0u8, 1, u8::MAX] {
        scalar_round_trip(ScalarValue::UInt8(v));
    }
    for v in [0u16, 1, u16::MAX] {
        scalar_round_trip(ScalarValue::UInt16(v));
    }
    for v in [0u32, 1, u32::MAX] {
        scalar_round_trip(ScalarValue::UInt32(v));
    }
}

#[test]
fn signed_integers_round_trip() {
    for v in [0i16, 1, i16::MAX, i16::MIN] {
        signed_round_trip(ScalarValue::Int16(v));
    }
    for v in [0i32, 1, i32::MAX, i32::MIN] {
        signed_round_trip(ScalarValue::Int32(v));
    }
    for v in [0i64, 1, i64::MAX, i64::MIN] {
        signed_round_trip(ScalarValue::Int64(v));
    }
}

#[test]
fn canonical_bytes_survive_decode_then_encode() {
    // encode(decode(x)) == x on given canonical encodings.
    for x in [
        vec![0xC0u8, 0x00],
        vec![0xC0u8, 0xFF],
        vec![0xC1u8, 0xFF, 0xFF],
        vec![0xC2u8, 0x78, 0x56, 0x34, 0x12],
        vec![0x02u8, b'h', b'i'],
    ] {
        let mut cur = ByteCursor::new(x.clone());
        let decoded = read_length_encoding(&mut cur).unwrap();
        assert_eq!(encode_scalar(&decoded), x);
    }
}
