use blutgang::balancer::cache_helper::manage::{get_block_number_from_request, locate_cache, CacheLocation};
use blutgang::json::JsonValue;

fn text(s: &str) -> JsonValue {
    JsonValue::Str(s.to_string())
}

fn request(method: &str, params: Vec<JsonValue>) -> JsonValue {
    JsonValue::Object(vec![
        ("id".to_string(), JsonValue::Number("1".to_string())),
        ("jsonrpc".to_string(), text("2.0")),
        ("method".to_string(), text(method)),
        ("params".to_string(), JsonValue::Array(params)),
    ])
}

const ADDRESS: &str = "0x407d73d8a49eeb85d32cf465507dd71d507100c1";

fn check_block_numbers() {
    let some = |tx: JsonValue, expected: &str| {
        assert_eq!(get_block_number_from_request(tx).unwrap(), expected);
    };
    let none = |tx: JsonValue| {
        assert_eq!(get_block_number_from_request(tx), None);
    };
    some(request("eth_getBalance", vec![text(ADDRESS), text("latest")]), "latest");
    some(request("eth_getBalance", vec![text(ADDRESS), text("0x1")]), "0x1");
    none(request("eth_getBalance", vec![text(ADDRESS)]));
    some(request("eth_getStorageAt", vec![text(ADDRESS), text("0x0"), text("latest")]), "latest");
    some(request("eth_getStorageAt", vec![text(ADDRESS), text("0x0"), text("0x1")]), "0x1");
    none(request("eth_getStorageAt", vec![text(ADDRESS), text("0x0")]));
    some(request("eth_getTransactionCount", vec![text(ADDRESS), text("latest")]), "latest");
    some(request("eth_getTransactionCount", vec![text(ADDRESS), text("0x1")]), "0x1");
    none(request("eth_getTransactionCount", vec![text(ADDRESS)]));
    some(request("eth_getBlockTransactionCountByNumber", vec![text("latest")]), "latest");
    some(request("eth_getBlockTransactionCountByNumber", vec![text("0x1")]), "0x1");
    none(request("eth_getBlockTransactionCountByNumber", vec![]));
}

#[test]
fn cache_helper_get_block_number_from_request_test() {
    check_block_numbers();
}

#[test]
fn tests_get_block_number_from_request_test() {
    check_block_numbers();
}

#[test]
fn blocks_before_the_finalized_one_live_in_the_database() {
    let tx = request("eth_getTransactionByBlockNumberAndIndex", vec![text("0xa"), text("0x0")]);
    assert_eq!(locate_cache(tx, 15), CacheLocation::Database);
}

#[test]
fn later_blocks_live_in_the_head_cache() {
    let tx = request("eth_getTransactionByBlockNumberAndIndex", vec![text("0xB"), text("0x0")]);
    assert_eq!(locate_cache(tx, 10), CacheLocation::HeadCache(11));
    let tx = request("eth_getTransactionByBlockNumberAndIndex", vec![text("0xF"), text("0x0")]);
    assert_eq!(locate_cache(tx, 14), CacheLocation::HeadCache(15));
}

#[test]
fn block_tags_are_not_looked_up() {
    let tx = request("eth_getTransactionByBlockNumberAndIndex", vec![text("latest"), text("0x0")]);
    assert_eq!(locate_cache(tx, 15), CacheLocation::Unreadable);
    let tx = request("eth_chainId", vec![text("0x1")]);
    assert_eq!(locate_cache(tx, 15), CacheLocation::NoBlock);
}
