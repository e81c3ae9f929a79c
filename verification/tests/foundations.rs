use std::collections::BTreeSet;

use susm::bytes::{append, copy_range, push_framed_text, push_u128, push_u32, push_u64, read_u32, read_u64};
use susm::codes::{collect_codes, list_codes};
use susm::numerals::{parse_i64, parse_u64, push_padded, push_signed_decimal};
use susm::ordered::{place_bytes, place_text, Placement, TextMap};
use susm::text::{
    chars_of, eq_ignore_ascii_case, hex, holds_char, join, push_decimal, same_bytes, same_text,
    starts_with, text_of, text_of_range,
};
use susm::utf16::{lossy_text_of_units, push_utf16, text_of_units};

#[test]
fn texts_are_compared_and_joined() {
    assert!(same_text("größe", "größe"));
    assert!(!same_text("größe", "größe "));
    assert!(same_bytes(&[1, 2], &[1, 2]));
    assert!(!same_bytes(&[1, 2], &[1]));
    assert_eq!(join("a", "bc"), "abc");
    assert!(holds_char("name=value", '='));
    assert!(!holds_char("name", '='));
    assert!(starts_with("execution-1", "execution-"));
    assert!(!starts_with("execution", "execution-"));
    let chars = chars_of("zürich");
    assert_eq!(text_of(&chars), "zürich");
    assert_eq!(text_of_range(&chars, 1, 3), "ür");
    assert!(eq_ignore_ascii_case(&chars_of("TOML"), &chars_of("toml")));
    assert!(!eq_ignore_ascii_case(&chars_of("Ä"), &chars_of("ä")));
}

#[test]
fn hex_writes_two_lower_case_digits_per_byte() {
    assert_eq!(hex(&[0, 10, 255]), "000aff");
    assert_ne!(hex(&[0, 1]), hex(&[1, 0]));
    assert_eq!(hex(&[]), "");
}

#[test]
fn decimals_are_written_and_read() {
    let mut text = String::from("n=");
    push_decimal(&mut text, u64::MAX);
    assert_eq!(text, "n=18446744073709551615");
    assert_eq!(parse_u64("18446744073709551615"), Some(u64::MAX));
    assert_eq!(parse_u64("18446744073709551616"), None);
    assert_eq!(parse_u64("+7"), Some(7));
    assert_eq!(parse_u64("-7"), None);
    assert_eq!(parse_u64(""), None);
    assert_eq!(parse_u64("+"), None);
    assert_eq!(parse_u64("1 "), None);

    let mut signed = String::new();
    push_signed_decimal(&mut signed, i64::MIN);
    assert_eq!(signed, "-9223372036854775808");
    assert_eq!(parse_i64("-9223372036854775808"), Some(i64::MIN));
    assert_eq!(parse_i64("9223372036854775807"), Some(i64::MAX));
    assert_eq!(parse_i64("9223372036854775808"), None);
    assert_eq!(parse_i64("-"), None);
    assert_eq!(parse_i64("-0"), Some(0));

    let mut padded = String::new();
    push_padded(&mut padded, 42, 6);
    assert_eq!(padded, "000042");
    push_padded(&mut padded, 1234567, 6);
    assert_eq!(padded, "0000421234567");
}

#[test]
fn little_endian_numbers_are_read_back() {
    let mut out: Vec<u8> = Vec::new();
    push_u32(&mut out, 0x0102_0304);
    push_u64(&mut out, 0x0102_0304_0506_0708);
    assert_eq!(out[0..4].to_vec(), vec![4, 3, 2, 1]);
    assert_eq!(read_u32(&out, 0), 0x0102_0304);
    assert_eq!(read_u64(&out, 4), 0x0102_0304_0506_0708);
    let mut wide: Vec<u8> = Vec::new();
    push_u128(&mut wide, 1);
    assert_eq!(wide.len(), 16);
    assert_eq!(wide[0], 1);
    let mut framed: Vec<u8> = Vec::new();
    push_framed_text(&mut framed, "é");
    assert_eq!(framed, vec![2, 0, 0, 0, 0, 0, 0, 0, 0xc3, 0xa9]);
    append(&mut framed, &[9]);
    assert_eq!(copy_range(&framed, 8, 11), vec![0xc3, 0xa9, 9]);
}

#[test]
fn keys_stand_in_the_order_of_their_bytes() {
    assert_eq!(place_bytes(&[1], &[1, 0]), Placement::Before);
    assert_eq!(place_bytes(&[2], &[1, 0]), Placement::After);
    assert_eq!(place_text("a", "a"), Placement::Same);
    assert_eq!(place_text("Z", "a"), Placement::Before);
    assert_eq!(place_text("é", "z"), Placement::After);

    let mut map: TextMap<u32> = TextMap::new();
    assert_eq!(map.insert("b".to_string(), 1), None);
    assert_eq!(map.insert("a".to_string(), 2), None);
    assert_eq!(map.insert("b".to_string(), 3), Some(1));
    assert_eq!(map.len(), 2);
    assert_eq!(map.key(0), "a");
    assert_eq!(*map.value(1), 3);
    assert!(map.contains_key("a"));
    assert_eq!(map.position("b"), Some(1));
    assert_eq!(map.get("c"), None);
    map.set_value(0, 9);
    assert_eq!(map.get("a"), Some(&9));
    assert_eq!(map.remove("a"), Some(9));
    assert_eq!(map.remove("a"), None);
    assert_eq!(map.len(), 1);

    let mut other: TextMap<u32> = TextMap::new();
    other.insert("b".to_string(), 3);
    assert_eq!(map, other);
}

#[test]
fn utf16_is_read_back() {
    let mut units: Vec<u16> = Vec::new();
    push_utf16(&mut units, "a€😀");
    assert_eq!(units, vec![0x61, 0x20ac, 0xd83d, 0xde00]);
    assert_eq!(text_of_units(&units), Some("a€😀".to_string()));
    assert_eq!(lossy_text_of_units(&units), "a€😀");
    assert_eq!(text_of_units(&[0xd83d, 0x61]), None);
    assert_eq!(text_of_units(&[0xde00]), None);
    assert_eq!(lossy_text_of_units(&[0xd83d, 0x61, 0xde00]), "\u{fffd}a\u{fffd}");
}

#[test]
fn exit_codes_are_listed_in_order_and_once() {
    let codes = collect_codes(&vec![7, 0, 7, 3]);
    assert_eq!(list_codes(&codes), vec![0, 3, 7]);
    let none: BTreeSet<u32> = BTreeSet::new();
    assert!(list_codes(&none).is_empty());
}
