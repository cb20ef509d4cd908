use hackattic::chat::{classify_message, closes_to, ChatAction};
use hackattic::collision::collision_pair;
use hackattic::dump::alive_ssns;
use hackattic::hex::decode_hex;
use hackattic::miner::meets_difficulty;
use hackattic::model::RecordValue;
use hackattic::snapshot::decode_snapshot;
use hackattic::summary::{emoji_key_value, kind_of_key, observed_expiry_millis};
use hackattic::trusted::capture_solution;
use hackattic::unpack::unpack_ints;

const BLOCK_A: &str = "d131dd02c5e6eec4693d9a0698aff95c2fcab58712467eab4004583eb8fb7f8955ad340609f4b30283e488832571415a085125e8f7cdc99fd91dbdf280373c5bd8823e3156348f5bae6dacd436c919c6dd53e2b487da03fd02396306d248cda0e99f33420f577ee8ce54b67080a80d1ec69821bcb6a8839396f9652b6ff72a70";
const BLOCK_B: &str = "d131dd02c5e6eec4693d9a0698aff95c2fcab50712467eab4004583eb8fb7f8955ad340609f4b30283e4888325f1415a085125e8f7cdc99fd91dbd7280373c5bd8823e3156348f5bae6dacd436c919c6dd53e23487da03fd02396306d248cda0e99f33420f577ee8ce54b67080280d1ec69821bcb6a8839396f965ab6ff72a70";

#[test]
fn hex_decodes_pairs_of_digits() {
    assert_eq!(decode_hex("00ff10").unwrap(), vec![0, 255, 16]);
    assert_eq!(decode_hex("AB").unwrap(), vec![171]);
    assert_eq!(decode_hex("").unwrap(), Vec::<u8>::new());
    assert!(decode_hex("abc").is_none()); // odd length
    assert!(decode_hex("zz").is_none()); // not a digit
}

#[test]
fn md5_collision_blocks_collide() {
    let suffix = b"0123456789abcdef0123456789abcdef";
    let (fa, fb) = collision_pair(BLOCK_A, BLOCK_B, suffix).unwrap();
    assert_ne!(fa, fb);
    assert_eq!(fa.len(), 128 + suffix.len());
    assert!(fa.ends_with(suffix));
    assert!(fb.ends_with(suffix));
}

#[test]
fn unrelated_blocks_do_not_collide() {
    assert!(collision_pair("00", "01", b"x").is_none());
    assert!(collision_pair("0g", "01", b"x").is_none());
}

#[test]
fn difficulty_is_met_only_by_a_zero_window() {
    assert!(meets_difficulty(0, 0, 12));
    assert!(!meets_difficulty(0, 1, 12));
    assert!(!meets_difficulty(0x80, 0, 9));
}

#[test]
fn packed_integers_unpack() {
    let mut data = Vec::new();
    data.extend_from_slice(&(-123456i32).to_le_bytes());
    data.extend_from_slice(&4000000000u32.to_le_bytes());
    data.extend_from_slice(&(-321i16).to_le_bytes());
    data.extend_from_slice(&[0, 0]);
    let (a, b, c) = unpack_ints(&data).unwrap();
    assert_eq!(a, -123456);
    assert_eq!(b, 4000000000);
    assert_eq!(c, -321);
    data[10] = 1; // non-zero padding
    assert!(unpack_ints(&data).is_none());
    assert!(unpack_ints(&[0; 11]).is_none());
}

#[test]
fn messages_classify() {
    assert_eq!(classify_message(b"good!"), ChatAction::Acknowledged);
    assert_eq!(classify_message(b"ping!"), ChatAction::ReplyWithInterval);
    assert_eq!(classify_message(b"hello there"), ChatAction::Greeting);
    assert_eq!(
        classify_message(b"congratulations! the solution to this challenge is \"x\""),
        ChatAction::Win
    );
    assert_eq!(classify_message(b"pong"), ChatAction::Unknown);
}

#[test]
fn the_closest_interval_is_picked() {
    let intervals = [700, 1500, 2000, 2500, 3000];
    assert_eq!(closes_to(1600, &intervals), 1500);
    assert_eq!(closes_to(2990, &intervals), 3000);
    assert_eq!(closes_to(0, &intervals), 700);
}

#[test]
fn the_win_message_yields_its_quoted_solution() {
    let m = "congratulations! the solution to this challenge is \"muddy art winter recipe aged lab\"";
    assert_eq!(capture_solution(m).unwrap(), "muddy art winter recipe aged lab");
    assert!(capture_solution("ping!").is_none());
}

#[test]
fn living_rows_yield_their_ssns() {
    let dump = b"SET x;\nCOPY t FROM stdin;\na\tb\tc\t111-11-1111\te\tf\tg\talive\nh\ti\tj\t222-22-2222\tl\tm\tn\tdead\no\tp\tq\t333-33-3333\ts\tt\tu\talive\n\\.\nrest\n";
    let ssns = alive_ssns(dump).unwrap();
    assert_eq!(ssns, vec![b"111-11-1111".to_vec(), b"333-33-3333".to_vec()]);
}

#[test]
fn rows_before_the_copy_marker_are_skipped_and_short_rows_fail() {
    let dump = b"a\tb\tc\t111\te\tf\tg\talive\nCOPY t;\nshort\trow\n";
    assert!(alive_ssns(dump).is_none());
    let dump2 = b"nothing here\n";
    assert_eq!(alive_ssns(dump2).unwrap(), Vec::<Vec<u8>>::new());
}

fn summary_snapshot_bytes() -> Vec<u8> {
    let mut bytes = Vec::new();
    bytes.extend_from_slice(b"REDIS0003");
    bytes.push(0xFE);
    bytes.push(0x00);
    bytes.push(0xFB);
    bytes.push(0x03);
    bytes.push(0x01);
    // expiring string record under a plain key
    bytes.push(0xFC);
    bytes.extend_from_slice(&5500u64.to_le_bytes());
    bytes.extend_from_slice(&[0x00, 0x05]);
    bytes.extend_from_slice(b"plain");
    bytes.extend_from_slice(&[0x03]);
    bytes.extend_from_slice(b"abc");
    // a number record
    bytes.extend_from_slice(&[0x00, 0x03]);
    bytes.extend_from_slice(b"num");
    bytes.extend_from_slice(&[0xC1, 0x10, 0x27]);
    // a string record under an emoji key
    bytes.push(0x00);
    let key = "key\u{1F511}".as_bytes();
    bytes.push(key.len() as u8);
    bytes.extend_from_slice(key);
    bytes.extend_from_slice(&[0x06]);
    bytes.extend_from_slice(b"secret");
    bytes.push(0xFF);
    bytes
}

#[test]
fn the_summary_reads_off_the_snapshot() {
    let snap = decode_snapshot(summary_snapshot_bytes()).unwrap();
    assert_eq!(snap.dbs.len(), 1);
    assert_eq!(emoji_key_value(&snap), "secret");
    assert_eq!(observed_expiry_millis(&snap), 5500);
    assert_eq!(kind_of_key(&snap, &"plain".to_string()).unwrap(), "string");
    assert_eq!(kind_of_key(&snap, &"num".to_string()).unwrap(), "number");
    assert!(kind_of_key(&snap, &"absent".to_string()).is_none());
    match &snap.dbs[0].entries[1].val {
        RecordValue::SmallUInt16(10000) => (),
        other => panic!("unexpected {:?}", other),
    }
}

#[test]
fn a_snapshot_without_emoji_keys_has_no_emoji_value() {
    let mut bytes = Vec::new();
    bytes.extend_from_slice(b"REDIS0003");
    bytes.push(0xFE);
    bytes.push(0x00);
    bytes.push(0xFB);
    bytes.push(0x00);
    bytes.push(0x00);
    bytes.push(0xFF);
    let snap = decode_snapshot(bytes).unwrap();
    assert_eq!(emoji_key_value(&snap), "???");
    assert_eq!(observed_expiry_millis(&snap), 0);
}
