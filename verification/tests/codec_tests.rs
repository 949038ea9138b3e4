use crawl_core::codec::{encode_entry, decode_entry, cache_key, CacheError};
use crawl_core::urls::parse_url;

#[test]
fn cache_round_trip_basic() {
    let body: Vec<u8> = b"<html><body>hello</body></html>".to_vec();
    let entry = encode_entry(&body);
    let back = decode_entry(&entry).unwrap();
    assert_eq!(back, body);
}

#[test]
fn cache_round_trip_empty() {
    let body: Vec<u8> = Vec::new();
    let entry = encode_entry(&body);
    let back = decode_entry(&entry).unwrap();
    assert_eq!(back, body);
}

#[test]
fn cache_round_trip_binary() {
    let mut body: Vec<u8> = Vec::new();
    let mut x: u32 = 1;
    for _ in 0..4096 {
        x = x.wrapping_mul(1664525).wrapping_add(1013904223);
        body.push((x >> 24) as u8);
    }
    let entry = encode_entry(&body);
    let back = decode_entry(&entry).unwrap();
    assert_eq!(back, body);
}

#[test]
fn entry_starts_with_little_endian_size() {
    let body: Vec<u8> = vec![7u8; 300];
    let entry = encode_entry(&body);
    assert!(entry.len() >= 4);
    assert_eq!(&entry[0..4], &(300u32).to_le_bytes());
    let empty: Vec<u8> = Vec::new();
    assert_eq!(&encode_entry(&empty)[0..4], &[0, 0, 0, 0]);
}

#[test]
fn corrupt_entry_is_an_error() {
    let empty: Vec<u8> = Vec::new();
    assert_eq!(decode_entry(&empty), Err(CacheError::Corrupt));
    let truncated: Vec<u8> = vec![255, 255, 255];
    assert_eq!(decode_entry(&truncated), Err(CacheError::Corrupt));
}

#[test]
fn damaged_frame_is_an_error() {
    let body: Vec<u8> = b"some cached page body, long enough to compress".to_vec();
    let mut entry = encode_entry(&body);
    entry.truncate(entry.len() / 2);
    assert!(decode_entry(&entry).is_err());
}

#[test]
fn cache_key_is_host_plus_base64_of_url() {
    let u = parse_url("https://example.com/a").unwrap().normalize();
    let key = cache_key(&u);
    let expected = format!(
        "example.com{}",
        base64::Engine::encode(&base64::prelude::BASE64_URL_SAFE, "https://example.com/a"),
    );
    assert_eq!(key, expected);
}

#[test]
fn cache_keys_differ_per_url() {
    let a = parse_url("https://example.com/a").unwrap().normalize();
    let b = parse_url("https://example.com/b").unwrap().normalize();
    assert_ne!(cache_key(&a), cache_key(&b));
}
