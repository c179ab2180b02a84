//! Track codec behaviour on concrete values.

use aelira::track::{DecodedInfo, TrackError, decode_track, encode_track, read_nullable_text,
    read_utf, write_nullable_text, write_utf};
use base64::Engine;

fn full_info() -> DecodedInfo {
    DecodedInfo {
        title: "t".to_string(),
        author: "a".to_string(),
        length: 1000,
        identifier: "id".to_string(),
        is_stream: false,
        uri: Some("u".to_string()),
        artwork_url: Some("w".to_string()),
        isrc: Some("i".to_string()),
        source_name: "local".to_string(),
        position: 0,
    }
}

#[test]
fn encode_decode_round_trip_v3() {
    let info = full_info();
    let encoded = encode_track(&info).unwrap();
    let blob = base64::engine::general_purpose::STANDARD.decode(&encoded).unwrap();
    assert_eq!(blob[0] & 0xf0, 0x40, "header high nibble carries bit 30");
    assert_eq!(blob[4], 3, "version byte");
    let decoded = decode_track(&encoded).unwrap();
    assert_eq!(decoded.encoded, encoded);
    assert_eq!(decoded.info, info);
}

#[test]
fn version_one_round_trip_with_empty_optionals() {
    let mut info = full_info();
    info.uri = None;
    info.artwork_url = None;
    info.isrc = None;
    let encoded = encode_track(&info).unwrap();
    let blob = base64::engine::general_purpose::STANDARD.decode(&encoded).unwrap();
    assert_eq!(blob[4], 1, "version byte");
    let decoded = decode_track(&encoded).unwrap();
    assert_eq!(decoded.info, info);
}

#[test]
fn version_two_round_trip() {
    let mut info = full_info();
    info.artwork_url = None;
    info.isrc = None;
    let encoded = encode_track(&info).unwrap();
    let blob = base64::engine::general_purpose::STANDARD.decode(&encoded).unwrap();
    assert_eq!(blob[4], 2, "version byte");
    let decoded = decode_track(&encoded).unwrap();
    assert_eq!(decoded.info, info);
}

#[test]
fn header_encodes_payload_length() {
    let info = full_info();
    let encoded = encode_track(&info).unwrap();
    let blob = base64::engine::general_purpose::STANDARD.decode(&encoded).unwrap();
    let header = u32::from_be_bytes([blob[0], blob[1], blob[2], blob[3]]);
    assert_eq!((header & 0x3fffffff) as usize, blob.len() - 4);
}

#[test]
fn decode_rejects_bad_base64() {
    assert_eq!(decode_track("%%%"), Err(TrackError::InvalidBase64));
    assert_eq!(decode_track("AAA"), Err(TrackError::InvalidBase64));
}

#[test]
fn decode_rejects_oversized_declared_payload() {
    // Header claims 100 payload bytes; only one follows.
    let blob: Vec<u8> = vec![0x40, 0x00, 0x00, 0x64, 0x01];
    let encoded = base64::engine::general_purpose::STANDARD.encode(&blob);
    assert_eq!(decode_track(&encoded), Err(TrackError::Malformed));
}

#[test]
fn decode_rejects_truncated_fields() {
    // A well-sized payload whose title length points past its end.
    let payload: Vec<u8> = vec![1, 0xff, 0xff, 0x61];
    let mut blob: Vec<u8> = vec![0x40, 0x00, 0x00, payload.len() as u8];
    blob.extend_from_slice(&payload);
    let encoded = base64::engine::general_purpose::STANDARD.encode(&blob);
    assert_eq!(decode_track(&encoded), Err(TrackError::Malformed));
}

#[test]
fn decode_rejects_invalid_utf8_field() {
    // version 1, title of length 1 holding a lone continuation byte, then
    // nothing else: rejected before the missing fields matter.
    let payload: Vec<u8> = vec![1, 0x00, 0x01, 0x80];
    let mut blob: Vec<u8> = vec![0x40, 0x00, 0x00, payload.len() as u8];
    blob.extend_from_slice(&payload);
    let encoded = base64::engine::general_purpose::STANDARD.encode(&blob);
    assert_eq!(decode_track(&encoded), Err(TrackError::Malformed));
}

#[test]
fn utf_field_write_read_round_trip() {
    let mut buf: Vec<u8> = Vec::new();
    assert!(write_utf(&mut buf, "hello"));
    assert_eq!(buf, vec![0x00, 0x05, b'h', b'e', b'l', b'l', b'o']);
    let (text, pos) = read_utf(&buf, 0).unwrap();
    assert_eq!(text, "hello");
    assert_eq!(pos, 7);
}

#[test]
fn nullable_field_write_read_round_trip() {
    let mut buf: Vec<u8> = Vec::new();
    assert!(write_nullable_text(&mut buf, &None));
    assert!(write_nullable_text(&mut buf, &Some("x".to_string())));
    assert_eq!(buf, vec![0x00, 0x01, 0x00, 0x01, b'x']);
    let (absent, pos) = read_nullable_text(&buf, 0).unwrap();
    assert_eq!(absent, None);
    let (present, end) = read_nullable_text(&buf, pos).unwrap();
    assert_eq!(present, Some("x".to_string()));
    assert_eq!(end, buf.len());
}

#[test]
fn oversized_field_is_refused() {
    let mut info = full_info();
    info.title = "x".repeat(70_000);
    assert_eq!(encode_track(&info), None);
}
