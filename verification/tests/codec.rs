use zkp_message_sender::ZeroKnowledgeProof;
use zkp_message_sender::deserialize_zkp_message;
use zkp_message_sender::serialize_then_deserialize;
use zkp_message_sender::serialize_zkp_message;

fn record(
    kv: Vec<(&str, &str)>,
    block_number: u64,
    data: Vec<u8>,
) -> ZeroKnowledgeProof {
    let key_values = kv
        .into_iter()
        .map(|(k, v)| (k.to_string(), v.to_string()))
        .collect();
    ZeroKnowledgeProof::new(key_values, block_number, data)
}

#[test]
fn serializes_the_fixed_payload() {
    let zkp = record(vec![], 12345, vec![1, 2, 3, 4]);
    let text = serialize_zkp_message(&zkp).unwrap();
    assert_eq!(
        text,
        "{\"key_values\":{},\"block_number\":12345,\"data\":[1,2,3,4]}"
    );
}

#[test]
fn serializes_members_in_order() {
    let zkp = record(vec![("alpha", "beta"), ("g", "h")], 7, vec![0]);
    let text = serialize_zkp_message(&zkp).unwrap();
    assert_eq!(
        text,
        "{\"key_values\":{\"alpha\":\"beta\",\"g\":\"h\"},\"block_number\":7,\"data\":[0]}"
    );
}

#[test]
fn serializes_escapes() {
    let zkp = record(vec![("a\"b", "c\\d"), ("nl", "x\ny\tz")], 0, vec![]);
    let text = serialize_zkp_message(&zkp).unwrap();
    assert_eq!(
        text,
        "{\"key_values\":{\"a\\\"b\":\"c\\\\d\",\"nl\":\"x\\ny\\tz\"},\"block_number\":0,\"data\":[]}"
    );
}

#[test]
fn serializes_control_characters_as_unicode_escapes() {
    let zkp = record(vec![("ctl", "a\u{1}b\u{1f}c")], 1, vec![]);
    let text = serialize_zkp_message(&zkp).unwrap();
    assert_eq!(
        text,
        "{\"key_values\":{\"ctl\":\"a\\u0001b\\u001fc\"},\"block_number\":1,\"data\":[]}"
    );
    let reference = serde_json::to_string(&serde_json::Value::from("a\u{1}b\u{1f}c")).unwrap();
    assert_eq!(reference, "\"a\\u0001b\\u001fc\"");
    let back = deserialize_zkp_message(&text).unwrap();
    assert_eq!(back.key_values, zkp.key_values);
}

#[test]
fn round_trips_every_control_character() {
    let all_ctl: String = (0u32..0x20).map(|c| char::from_u32(c).unwrap()).collect();
    let zkp = record(vec![("ctl", &all_ctl)], 3, vec![9]);
    let text = serialize_zkp_message(&zkp).unwrap();
    let parsed: serde_json::Value = serde_json::from_str(&text).unwrap();
    assert_eq!(
        parsed.get("key_values").and_then(|m| m.get("ctl")).and_then(|v| v.as_str()),
        Some(all_ctl.as_str())
    );
    let back = deserialize_zkp_message(&text).unwrap();
    assert_eq!(back.key_values, zkp.key_values);
}

#[test]
fn matches_the_reference_json_encoder() {
    let zkp = record(vec![], 12345, vec![1, 2, 3, 4]);
    let ours = serialize_zkp_message(&zkp).unwrap();
    let parsed: serde_json::Value = serde_json::from_str(&ours).unwrap();
    let mut expected = serde_json::Map::new();
    expected.insert(
        "key_values".to_string(),
        serde_json::Value::Object(serde_json::Map::new()),
    );
    expected.insert(
        "block_number".to_string(),
        serde_json::Value::from(12345u64),
    );
    expected.insert(
        "data".to_string(),
        serde_json::Value::from(vec![1u64, 2, 3, 4]),
    );
    assert_eq!(parsed, serde_json::Value::Object(expected));
}

#[test]
fn reference_parser_reads_escaped_members() {
    let zkp = record(vec![("a\"b", "c\\d\n")], 9, vec![255]);
    let ours = serialize_zkp_message(&zkp).unwrap();
    let parsed: serde_json::Value = serde_json::from_str(&ours).unwrap();
    let member = parsed
        .get("key_values")
        .and_then(|m| m.get("a\"b"))
        .and_then(|v| v.as_str());
    assert_eq!(member, Some("c\\d\n"));
    assert_eq!(parsed.get("block_number").and_then(|v| v.as_u64()), Some(9));
}

#[test]
fn round_trips_the_fixed_payload() {
    let zkp = record(vec![], 12345, vec![1, 2, 3, 4]);
    let back = serialize_then_deserialize(&zkp);
    assert_eq!(back.key_values, zkp.key_values);
    assert_eq!(back.block_number, 12345);
    assert_eq!(back.data, vec![1, 2, 3, 4]);
}

#[test]
fn round_trips_members_and_escapes() {
    let zkp = record(
        vec![("k\"1", "v\\1"), ("tab", "a\tb"), ("unicode", "héllo ☃")],
        42,
        vec![0, 255, 128],
    );
    let text = serialize_zkp_message(&zkp).unwrap();
    let back = deserialize_zkp_message(&text).unwrap();
    assert_eq!(back.key_values, zkp.key_values);
    assert_eq!(back.block_number, zkp.block_number);
    assert_eq!(back.data, zkp.data);
}

#[test]
fn round_trips_the_largest_block_number() {
    let zkp = record(vec![("m", "n")], u64::MAX, vec![7]);
    let text = serialize_zkp_message(&zkp).unwrap();
    assert!(text.contains("18446744073709551615"));
    let back = deserialize_zkp_message(&text).unwrap();
    assert_eq!(back.block_number, u64::MAX);
}

#[test]
fn deserializes_a_plain_text() {
    let text = "{\"key_values\":{\"a\":\"b\"},\"block_number\":5,\"data\":[1,2]}";
    let rec = deserialize_zkp_message(text).unwrap();
    assert_eq!(rec.key_values, vec![("a".to_string(), "b".to_string())]);
    assert_eq!(rec.block_number, 5);
    assert_eq!(rec.data, vec![1, 2]);
}

#[test]
fn rejects_truncated_text() {
    let text = "{\"key_values\":{},\"block_number\":12345,\"data\":[1,2,3,4]";
    assert!(deserialize_zkp_message(text).is_none());
}

#[test]
fn rejects_trailing_garbage() {
    let text = "{\"key_values\":{},\"block_number\":1,\"data\":[]} ";
    assert!(deserialize_zkp_message(text).is_none());
}

#[test]
fn rejects_unknown_escape() {
    let text = "{\"key_values\":{\"a\\qb\":\"c\"},\"block_number\":1,\"data\":[]}";
    assert!(deserialize_zkp_message(text).is_none());
}

#[test]
fn rejects_block_number_overflow() {
    let text = "{\"key_values\":{},\"block_number\":18446744073709551616,\"data\":[]}";
    assert!(deserialize_zkp_message(text).is_none());
}

#[test]
fn rejects_byte_out_of_range() {
    let text = "{\"key_values\":{},\"block_number\":1,\"data\":[256]}";
    assert!(deserialize_zkp_message(text).is_none());
}

#[test]
fn rejects_wrong_field_name() {
    let text = "{\"key_value\":{},\"block_number\":1,\"data\":[]}";
    assert!(deserialize_zkp_message(text).is_none());
}
