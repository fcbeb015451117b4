use zkp_message_sender::decode_content_key;

const KEY_LITERAL: &str = "0x00cb5cab7266694daa0d28cbf40496c08dd30bf732c41e0455e7ad389c10d79f4f";

#[test]
fn decodes_the_fixed_literal() {
    let key = decode_content_key(KEY_LITERAL).unwrap();
    assert_eq!(key.bytes.len(), 33);
    assert_eq!(key.bytes[0], 0x00);
    assert_eq!(key.bytes[1], 0xcb);
    assert_eq!(key.bytes[2], 0x5c);
    assert_eq!(key.bytes[32], 0x4f);
}

#[test]
fn decoding_the_fixed_literal_is_deterministic() {
    let first = decode_content_key(KEY_LITERAL).unwrap();
    let second = decode_content_key(KEY_LITERAL).unwrap();
    assert_eq!(first.bytes, second.bytes);
}

#[test]
fn accepts_uppercase_digits() {
    let key = decode_content_key("0xAB0f").unwrap();
    assert_eq!(key.bytes, vec![0xab, 0x0f]);
}

#[test]
fn rejects_missing_prefix() {
    assert!(decode_content_key("00cb5c").is_none());
}

#[test]
fn rejects_empty_digits() {
    assert!(decode_content_key("0x").is_none());
}

#[test]
fn rejects_odd_digit_count() {
    assert!(decode_content_key("0xabc").is_none());
}

#[test]
fn rejects_stray_characters() {
    assert!(decode_content_key("0xabzz").is_none());
}
