use blutgang::json::JsonValue;
use blutgang::rpc::types::{extract_number, finalized_number, hex_to_decimal, sanitize_url, Rpc, RpcError};
use blutgang::text::{to_hex_string, ParseIntError};

fn object(members: Vec<(&str, JsonValue)>) -> JsonValue {
    JsonValue::Object(members.into_iter().map(|(k, v)| (k.to_string(), v)).collect())
}

#[test]
fn hex_numbers_read() {
    assert_eq!(hex_to_decimal("0x1b4"), Ok(436));
    assert_eq!(hex_to_decimal("\"0xa\""), Ok(10));
    assert_eq!(hex_to_decimal("ff"), Ok(255));
    assert_eq!(hex_to_decimal("0x0x10"), Ok(16));
    assert_eq!(hex_to_decimal("0xFFFFFFFFFFFFFFFF"), Ok(u64::MAX));
}

#[test]
fn hex_errors() {
    assert_eq!(hex_to_decimal(""), Err(ParseIntError::Empty));
    assert_eq!(hex_to_decimal("0x"), Err(ParseIntError::Empty));
    assert_eq!(hex_to_decimal("0xzz"), Err(ParseIntError::InvalidDigit));
    assert_eq!(hex_to_decimal("0x10000000000000000"), Err(ParseIntError::PosOverflow));
    assert_eq!(ParseIntError::InvalidDigit.message(), "invalid digit found in string");
}

#[test]
fn block_number_answers() {
    let answer = object(vec![("jsonrpc", JsonValue::Str("2.0".to_string())), ("result", JsonValue::Str("0x10".to_string()))]);
    assert_eq!(extract_number(&answer).unwrap(), 16);
    let answer = object(vec![("error", JsonValue::Str("x".to_string()))]);
    match extract_number(&answer) {
        Err(RpcError::InvalidResponse(m)) => assert_eq!(m, "error: Extracting response from request failed!"),
        other => panic!("unexpected {:?}", other),
    }
}

#[test]
fn finalized_block_answers() {
    let answer = object(vec![("result", object(vec![("number", JsonValue::Str("0x20".to_string()))]))]);
    assert_eq!(finalized_number(&answer).unwrap(), 32);
    let answer = object(vec![("result", object(vec![("number", JsonValue::Str("0xq".to_string()))]))]);
    match finalized_number(&answer) {
        Err(RpcError::InvalidResponse(m)) => assert_eq!(m, "invalid digit found in string"),
        other => panic!("unexpected {:?}", other),
    }
    match finalized_number(&object(vec![])) {
        Err(RpcError::InvalidResponse(m)) => assert_eq!(m, "error: Can't get finalized block!"),
        other => panic!("unexpected {:?}", other),
    }
}

#[test]
fn urls_lose_their_path() {
    assert_eq!(sanitize_url("https://eth-mainnet.g.alchemy.com/v2/api-key").unwrap(), "https://eth-mainnet.g.alchemy.com/");
    assert_eq!(sanitize_url("http://localhost:8545/secret?key=1").unwrap(), "http://localhost:8545/");
    assert!(sanitize_url("not a url").is_err());
}

#[test]
fn nodes_are_named_by_their_sanitized_url() {
    let rpc = Rpc::new("https://node.example/v1/key".to_string(), None, 5, 100);
    assert_eq!(rpc.name, "https://node.example/");
    assert_eq!(rpc.get_url(), "https://node.example/v1/key");
    assert_eq!(rpc.max_consecutive, 5);
    assert_eq!(rpc.min_time_delta, 100);
    let rpc = Rpc::new("garbage".to_string(), Some("ws://x".to_string()), 1, 0);
    assert_eq!(rpc.name, "garbage");
}

#[test]
fn written_block_numbers_read_back() {
    for n in [0u64, 9, 15, 16, 255, 0x1b4, 19_000_000, u64::MAX] {
        let text = to_hex_string(n);
        assert_eq!(hex_to_decimal(&text), Ok(n), "{}", text);
    }
    assert_eq!(to_hex_string(0x1b4), "0x1b4");
}

#[test]
fn upper_case_and_quoted_block_numbers_read_back() {
    for n in [0u64, 10, 0xabc, 19_000_000, u64::MAX] {
        assert_eq!(hex_to_decimal(&format!("{:X}", n)), Ok(n));
        assert_eq!(hex_to_decimal(&format!("\"0x{:x}\"", n)), Ok(n));
        assert_eq!(hex_to_decimal(&format!("\"{:X}\"", n)), Ok(n));
    }
}
