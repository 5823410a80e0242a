use blutgang::json::JsonValue;
use blutgang::text::{parse_uint, to_decimal_string, to_hex_string, ParseIntError};

#[test]
fn compact_rendering() {
    let v = JsonValue::Object(vec![
        ("a".to_string(), JsonValue::Array(vec![JsonValue::Number("1".to_string()), JsonValue::Bool(true), JsonValue::Null])),
        ("b".to_string(), JsonValue::Str("q\"\\\n\u{1}".to_string())),
    ]);
    assert_eq!(v.render(), "{\"a\":[1,true,null],\"b\":\"q\\\"\\\\\\n\\u0001\"}");
}

#[test]
fn fields_and_elements() {
    let mut v = JsonValue::Object(vec![("b".to_string(), JsonValue::Null)]);
    v.set_field("a", JsonValue::Bool(false));
    v.set_field("c", JsonValue::Bool(true));
    v.set_field("b", JsonValue::Number("2".to_string()));
    assert_eq!(v.render(), "{\"a\":false,\"b\":2,\"c\":true}");
    assert_eq!(v.get("c"), Some(&JsonValue::Bool(true)));
    assert_eq!(v.get("d"), None);
    let taken = v.take_field("b");
    assert_eq!(taken, JsonValue::Number("2".to_string()));
    assert_eq!(v.get("b"), Some(&JsonValue::Null));
    let arr = JsonValue::Array(vec![JsonValue::Null]);
    assert_eq!(arr.index(0), Some(&JsonValue::Null));
    assert_eq!(arr.index(1), None);
}

#[test]
fn numbers_in_text() {
    assert_eq!(parse_uint("+12", 10, u64::MAX), Ok(12));
    assert_eq!(parse_uint("+", 10, u64::MAX), Err(ParseIntError::InvalidDigit));
    assert_eq!(parse_uint("", 10, u64::MAX), Err(ParseIntError::Empty));
    assert_eq!(parse_uint("4294967296", 10, 4294967295), Err(ParseIntError::PosOverflow));
    assert_eq!(to_hex_string(255), "0xff");
    assert_eq!(to_hex_string(0), "0x0");
    assert_eq!(to_decimal_string(1234), "1234");
}

#[test]
fn read_after_set() {
    let mut v = JsonValue::Object(vec![
        ("a".to_string(), JsonValue::Number("1".to_string())),
        ("c".to_string(), JsonValue::Number("3".to_string())),
    ]);
    v.set_field("b", JsonValue::Number("2".to_string()));
    assert_eq!(v.get("b"), Some(&JsonValue::Number("2".to_string())));
    assert_eq!(v.get("a"), Some(&JsonValue::Number("1".to_string())));
    assert_eq!(v.render(), "{\"a\":1,\"b\":2,\"c\":3}");
    v.set_field("a", JsonValue::Null);
    assert_eq!(v.get("a"), Some(&JsonValue::Null));
    assert_eq!(v.get("c"), Some(&JsonValue::Number("3".to_string())));
    let mut null = JsonValue::Null;
    null.set_field("id", JsonValue::Bool(true));
    assert_eq!(null.render(), "{\"id\":true}");
}
