use blutgang::balancer::format::{
    get_block_number_from_request, has_named_number, incoming_to_value, replace_block_tags, NamedNumber,
};
use blutgang::health::safe_block::NamedBlocknumbers;
use blutgang::json::JsonValue;

fn text(s: &str) -> JsonValue {
    JsonValue::Str(s.to_string())
}

fn object(members: Vec<(&str, JsonValue)>) -> JsonValue {
    JsonValue::Object(members.into_iter().map(|(k, v)| (k.to_string(), v)).collect())
}

fn request(method: &str, params: Vec<JsonValue>) -> JsonValue {
    object(vec![
        ("id", JsonValue::Number("1".to_string())),
        ("jsonrpc", text("2.0")),
        ("method", text(method)),
        ("params", JsonValue::Array(params)),
    ])
}

fn dummy_named_blocknumbers() -> NamedBlocknumbers {
    NamedBlocknumbers { latest: 10, earliest: 2, safe: 3, finalized: 4, pending: 5 }
}

const ADDRESS: &str = "0x407d73d8a49eeb85d32cf465507dd71d507100c1";

#[test]
fn has_named_number_test() {
    assert_eq!(has_named_number("latest"), NamedNumber::Latest);
    assert_eq!(has_named_number("earliest"), NamedNumber::Earliest);
    assert_eq!(has_named_number("safe"), NamedNumber::Safe);
    assert_eq!(has_named_number("finalized"), NamedNumber::Finalized);
    assert_eq!(has_named_number("pending"), NamedNumber::Pending);
    assert_eq!(has_named_number("0x1"), NamedNumber::Null);
    assert_eq!(has_named_number("0x"), NamedNumber::Null);
    assert_eq!(has_named_number("0"), NamedNumber::Null);
}

#[test]
fn format_get_block_number_from_request_test() {
    let named_blocknumbers = dummy_named_blocknumbers();
    let cases: Vec<(JsonValue, Option<u64>)> = vec![
        (request("eth_getBalance", vec![text(ADDRESS), text("latest")]), Some(10)),
        (request("eth_getBalance", vec![text(ADDRESS), text("adiuasiudagbdiad")]), None),
        (request("eth_getBalance", vec![text(ADDRESS), text("0x1")]), Some(1)),
        (request("eth_getBalance", vec![text(ADDRESS)]), None),
        (request("eth_getStorageAt", vec![text(ADDRESS), text("0x0"), text("latest")]), Some(10)),
        (request("eth_getStorageAt", vec![text(ADDRESS), text("0x0"), text("0x1")]), Some(1)),
        (request("eth_getStorageAt", vec![text(ADDRESS), text("0x0")]), None),
        (request("eth_getTransactionCount", vec![text(ADDRESS), text("latest")]), Some(10)),
        (request("eth_getTransactionCount", vec![text(ADDRESS), text("safe")]), Some(3)),
        (request("eth_getTransactionCount", vec![text(ADDRESS), text("finalized")]), Some(4)),
        (request("eth_getTransactionCount", vec![text(ADDRESS), text("pending")]), Some(5)),
        (request("eth_getTransactionCount", vec![text(ADDRESS), text("0x1")]), Some(1)),
        (request("eth_getTransactionCount", vec![text(ADDRESS)]), None),
        (request("eth_getBlockTransactionCountByNumber", vec![text("latest")]), Some(10)),
        (request("eth_getBlockTransactionCountByNumber", vec![text("0x1")]), Some(1)),
        (request("eth_getBlockTransactionCountByNumber", vec![]), None),
    ];
    for (tx, expected) in cases {
        assert_eq!(get_block_number_from_request(tx, &named_blocknumbers), expected);
    }
}

#[test]
fn replace_named_block_number_test() {
    let named_blocknumbers = dummy_named_blocknumbers();
    let mut tx = object(vec![
        ("method", text("eth_getBalance")),
        ("params", JsonValue::Array(vec![text(ADDRESS), text("latest")])),
    ]);
    let expected = object(vec![
        ("method", text("eth_getBalance")),
        ("params", JsonValue::Array(vec![text(ADDRESS), text("0xa")])),
    ]);
    replace_block_tags(&mut tx, &named_blocknumbers);
    assert_eq!(tx, expected);
}

#[test]
fn keep_hex_block_number_test() {
    let named_blocknumbers = dummy_named_blocknumbers();
    let original = object(vec![
        ("method", text("eth_getBalance")),
        ("params", JsonValue::Array(vec![text(ADDRESS), text("0x1")])),
    ]);
    let mut tx = object(vec![
        ("method", text("eth_getBalance")),
        ("params", JsonValue::Array(vec![text(ADDRESS), text("0x1")])),
    ]);
    replace_block_tags(&mut tx, &named_blocknumbers);
    assert_eq!(tx, original);
}

#[test]
fn handle_invalid_block_number_test() {
    let named_blocknumbers = dummy_named_blocknumbers();
    let original = object(vec![
        ("method", text("eth_getBalance")),
        ("params", JsonValue::Array(vec![text(ADDRESS), text("invalid")])),
    ]);
    let mut tx = object(vec![
        ("method", text("eth_getBalance")),
        ("params", JsonValue::Array(vec![text(ADDRESS), text("invalid")])),
    ]);
    replace_block_tags(&mut tx, &named_blocknumbers);
    assert_eq!(tx, original);
}

#[test]
fn replace_block_number_different_methods_test() {
    let named_blocknumbers = dummy_named_blocknumbers();
    for method in ["eth_getBalance", "eth_getTransactionCount"] {
        let mut tx = object(vec![
            ("method", text(method)),
            ("params", JsonValue::Array(vec![text(ADDRESS), text("latest")])),
        ]);
        let expected = object(vec![
            ("method", text(method)),
            ("params", JsonValue::Array(vec![text(ADDRESS), text("0xa")])),
        ]);
        replace_block_tags(&mut tx, &named_blocknumbers);
        assert_eq!(tx, expected);
    }
}

#[test]
fn handle_missing_or_empty_params_test() {
    let named_blocknumbers = dummy_named_blocknumbers();
    let mut tx_no_params = object(vec![("method", text("eth_getBalance"))]);
    let mut tx_empty_params = object(vec![("method", text("eth_getBalance")), ("params", JsonValue::Array(vec![]))]);
    replace_block_tags(&mut tx_no_params, &named_blocknumbers);
    replace_block_tags(&mut tx_empty_params, &named_blocknumbers);
    assert_eq!(tx_no_params, object(vec![("method", text("eth_getBalance"))]));
    assert_eq!(tx_empty_params, object(vec![("method", text("eth_getBalance")), ("params", JsonValue::Array(vec![]))]));
}

#[test]
fn handle_zero_blocknumber() {
    let mut named_blocknumbers = dummy_named_blocknumbers();
    named_blocknumbers.latest = 0;
    let mut tx = object(vec![
        ("method", text("eth_getTransactionCount")),
        ("params", JsonValue::Array(vec![text(ADDRESS), text("latest")])),
    ]);
    let expected = object(vec![
        ("method", text("eth_getTransactionCount")),
        ("params", JsonValue::Array(vec![text(ADDRESS), text("latest")])),
    ]);
    replace_block_tags(&mut tx, &named_blocknumbers);
    assert_eq!(tx, expected);
}

#[test]
fn handle_non_string_block_number_test() {
    let named_blocknumbers = dummy_named_blocknumbers();
    let original = object(vec![
        ("method", text("eth_getBalance")),
        ("params", JsonValue::Array(vec![text(ADDRESS), JsonValue::Number("100".to_string())])),
    ]);
    let mut tx = object(vec![
        ("method", text("eth_getBalance")),
        ("params", JsonValue::Array(vec![text(ADDRESS), JsonValue::Number("100".to_string())])),
    ]);
    replace_block_tags(&mut tx, &named_blocknumbers);
    assert_eq!(tx, original);
}

#[test]
fn finalized_tag_is_rewritten_and_other_tags_are_kept() {
    let named_blocknumbers = dummy_named_blocknumbers();
    let mut tx = request("eth_getBlockByNumber", vec![text("finalized"), JsonValue::Bool(false)]);
    replace_block_tags(&mut tx, &named_blocknumbers);
    assert_eq!(tx, request("eth_getBlockByNumber", vec![text("0x4"), JsonValue::Bool(false)]));
    let mut tx = request("eth_getBlockByNumber", vec![text("safe"), JsonValue::Bool(false)]);
    replace_block_tags(&mut tx, &named_blocknumbers);
    assert_eq!(tx, request("eth_getBlockByNumber", vec![text("safe"), JsonValue::Bool(false)]));
}

#[test]
fn short_block_parameters_cannot_be_read() {
    let tx = request("eth_getBlockByNumber", vec![text("a")]);
    assert_eq!(get_block_number_from_request(tx, &dummy_named_blocknumbers()), None);
    let tx = request("eth_getBlockByNumber", vec![JsonValue::Number("5".to_string())]);
    assert_eq!(get_block_number_from_request(tx, &dummy_named_blocknumbers()), None);
    let tx = request("eth_getBlockByNumber", vec![text("0xff")]);
    assert_eq!(get_block_number_from_request(tx, &dummy_named_blocknumbers()), Some(255));
}

#[test]
fn bodies_that_are_not_json_stand_for_an_invalid_request() {
    let stand_in = incoming_to_value(None);
    assert_eq!(stand_in.render(), r#"{"id":null,"jsonrpc":"2.0","result":"Invalid JSON"}"#);
    let parsed = JsonValue::Object(vec![("id".to_string(), JsonValue::Number("1".to_string()))]);
    assert_eq!(incoming_to_value(Some(parsed)).render(), r#"{"id":1}"#);
}
