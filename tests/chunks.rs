use wow_chunky::chunk::{next_chunk, token_parse};
use wow_chunky::error::DecodeError;
use wow_chunky::strings::{adt_coordinates, char_vec_to_string_le, parse_u32, zero_terminated_strings};

#[test]
fn tag_is_reversed_on_disk() {
    let raw: Vec<u8> = vec![0x52, 0x45, 0x56, 0x4D, 4, 0, 0, 0, 18, 0, 0, 0];
    let mut pos: usize = 0;
    let c = next_chunk(&raw, &mut pos).unwrap().unwrap();
    assert_eq!(c.token, "MVER");
    assert_eq!(c.id, 0x4D564552);
    assert_eq!(c.size, 4);
    assert_eq!(c.data, vec![18, 0, 0, 0]);
    assert_eq!(pos, 12);
    let back: Vec<u8> = c.token.chars().rev().map(|ch| ch as u8).collect();
    assert_eq!(back, raw[0..4].to_vec());
    assert_eq!(next_chunk(&raw, &mut pos).unwrap().is_none(), true);
    assert_eq!(pos, 12);
}

#[test]
fn token_parse_reverses() {
    assert_eq!(token_parse(&b"KNCM".to_vec(), 0).unwrap(), "MCNK");
    assert!(token_parse(&b"KNC".to_vec(), 0).is_none());
}

#[test]
fn truncated_payload_fails_without_moving() {
    let raw: Vec<u8> = vec![0x52, 0x45, 0x56, 0x4D, 10, 0, 0, 0, 1, 2, 3];
    let mut pos: usize = 0;
    assert_eq!(next_chunk(&raw, &mut pos).err(), Some(DecodeError::TruncatedInput));
    assert_eq!(pos, 0);
}

#[test]
fn truncated_header_fails_without_moving() {
    let raw: Vec<u8> = vec![0x52, 0x45, 0x56, 0x4D, 10, 0];
    let mut pos: usize = 0;
    assert_eq!(next_chunk(&raw, &mut pos).err(), Some(DecodeError::TruncatedInput));
    assert_eq!(pos, 0);
}

#[test]
fn chars_from_bytes() {
    assert_eq!(char_vec_to_string_le(&b"abc".to_vec(), false), "abc");
    assert_eq!(char_vec_to_string_le(&b"abc".to_vec(), true), "cba");
    assert_eq!(char_vec_to_string_le(&vec![0xE9], false), "\u{e9}");
}

#[test]
fn zero_terminated_empty_strings() {
    assert_eq!(zero_terminated_strings(&vec![0, 0x41, 0]), vec!["".to_string(), "A".to_string()]);
    assert!(zero_terminated_strings(&vec![]).is_empty());
}

#[test]
fn coordinates_from_stem() {
    assert_eq!(adt_coordinates("Azeroth_32_48"), Some((32, 48)));
    assert_eq!(adt_coordinates("Kalimdor_long_name_1_+2"), Some((1, 2)));
    assert_eq!(adt_coordinates("7_9"), Some((7, 9)));
    assert_eq!(adt_coordinates("Azeroth"), None);
    assert_eq!(adt_coordinates("Azeroth_x_3"), None);
    assert_eq!(adt_coordinates("Azeroth_1_"), None);
}

#[test]
fn decimal_limits() {
    assert_eq!(parse_u32("4294967295", 0, 10), Some(u32::MAX));
    assert_eq!(parse_u32("4294967296", 0, 10), None);
    assert_eq!(parse_u32("+", 0, 1), None);
    assert_eq!(parse_u32("x12y", 1, 3), Some(12));
}
