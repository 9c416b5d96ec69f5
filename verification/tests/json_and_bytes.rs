use pathfinder_mcp::json::{json_int, JsonMember, JsonNumber, JsonValue};
use pathfinder_mcp::le_bytes::i64_from_le_bytes;

#[test]
fn later_members_replace_earlier_ones() {
    let v = JsonValue::Object(vec![
        JsonMember { key: "a".to_string(), value: JsonValue::Bool(true) },
        JsonMember { key: "a".to_string(), value: JsonValue::Bool(false) },
    ]);
    assert!(matches!(v.get("a"), Some(JsonValue::Bool(false))));
    assert!(v.get("b").is_none());
    assert!(JsonValue::Null.get("a").is_none());
}

#[test]
fn json_numbers() {
    assert!(matches!(json_int(-3), JsonValue::Number(JsonNumber::NegInt(-3))));
    assert!(matches!(json_int(3), JsonValue::Number(JsonNumber::PosInt(3))));
    assert_eq!(JsonValue::Number(JsonNumber::PosInt(u64::MAX)).as_i64(), None);
    assert_eq!(JsonValue::Number(JsonNumber::NegInt(-1)).as_u64(), None);
    assert_eq!(JsonValue::Number(JsonNumber::Float("1.5".to_string())).as_u64(), None);
}

#[test]
fn little_endian_int64() {
    assert_eq!(i64_from_le_bytes([1, 0, 0, 0, 0, 0, 0, 0]), 1);
    assert_eq!(i64_from_le_bytes([0, 1, 0, 0, 0, 0, 0, 0]), 256);
    assert_eq!(i64_from_le_bytes([0xff; 8]), -1);
    assert_eq!(i64_from_le_bytes([0, 0, 0, 0, 0, 0, 0, 0x80]), i64::MIN);
    assert_eq!(i64_from_le_bytes([0xff, 0xff, 0xff, 0xff, 0xff, 0xff, 0xff, 0x7f]), i64::MAX);
    for x in [0i64, 7, -7, 123456789, -987654321012] {
        assert_eq!(i64_from_le_bytes(x.to_le_bytes()), x);
    }
}
