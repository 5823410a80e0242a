use blutgang::balancer::processing::{can_cache, clear_id, latency_index, plan_cache_query, record_in_head_cache, CachePlan};
use blutgang::balancer::selection::cache_rules::{cache_method, cache_result};
use blutgang::health::safe_block::NamedBlocknumbers;
use blutgang::json::JsonValue;
use std::collections::BTreeMap;

fn text(s: &str) -> JsonValue {
    JsonValue::Str(s.to_string())
}

fn object(members: Vec<(&str, JsonValue)>) -> JsonValue {
    JsonValue::Object(members.into_iter().map(|(k, v)| (k.to_string(), v)).collect())
}

fn named() -> NamedBlocknumbers {
    NamedBlocknumbers { latest: 10, earliest: 2, safe: 3, finalized: 4, pending: 5 }
}

#[test]
fn test_can_cache() {
    assert!(can_cache("eth_getBlockByNumber", r#"{"result": "0x1"}"#));
    assert!(!can_cache("eth_subscribe", r#"{"result": "0x1"}"#));
}

#[test]
fn test_dont_cache_infura_err() {
    assert!(!can_cache(
        r#"{"method": "eth_getBlockByNumber", "params": ["0x10", false]}"#,
        r#"{ "code": -32005, "data": { "see": "https://infura.io/dashboard" }, "message": "daily request count exceeded, request rate limited" }, payload={ "id": 12449, "jsonrpc": "2.0", "method": "eth_blockNumber", "params": [  ] }"#
    ));
}

#[test]
fn cache_method_refuses_every_listed_word() {
    for word in ["latest", "eth_blockNumber", "earliest", "safe", "finalized", "pending", "eth_subscribe", "eth_unsubscribe"] {
        let request = format!(r#"{{"method":"eth_call","params":["{}"]}}"#, word);
        assert!(!cache_method(&request), "{}", word);
    }
    assert!(cache_method(r#"{"method":"eth_getBalance","params":["0xabc","0x10"]}"#));
}

#[test]
fn cache_result_refuses_errors_and_null() {
    assert!(!cache_result(r#"{"error":"x"}"#));
    assert!(!cache_result(r#"{"code":-32000}"#));
    assert!(!cache_result(r#"{"result":null}"#));
    assert!(cache_result(r#"{"result":"0x10"}"#));
}

#[test]
fn plan_stores_final_answers_in_the_database_only() {
    let tx = object(vec![
        ("method", text("eth_getBalance")),
        ("params", JsonValue::Array(vec![text("0xabc"), text("0x2")])),
    ]);
    let plan = plan_cache_query(r#"{"result":"0x1"}"#, &tx.render(), tx, &named(), 4);
    assert_eq!(plan, CachePlan::Store { head_block: None });
}

#[test]
fn plan_records_recent_answers_in_the_head_cache() {
    let tx = object(vec![
        ("method", text("eth_getBalance")),
        ("params", JsonValue::Array(vec![text("0xabc"), text("0x9")])),
    ]);
    let plan = plan_cache_query(r#"{"result":"0x1"}"#, &tx.render(), tx, &named(), 4);
    assert_eq!(plan, CachePlan::Store { head_block: Some(9) });
}

#[test]
fn plan_skips_errors_and_requests_without_block() {
    let tx = object(vec![
        ("method", text("eth_getBalance")),
        ("params", JsonValue::Array(vec![text("0xabc"), text("0x9")])),
    ]);
    let plan = plan_cache_query(r#"{"error":"boom"}"#, &tx.render(), tx, &named(), 4);
    assert_eq!(plan, CachePlan::Skip);
    let tx = object(vec![
        ("method", text("eth_chainId")),
        ("params", JsonValue::Array(vec![text("0x1")])),
    ]);
    let plan = plan_cache_query(r#"{"result":"0x1"}"#, &tx.render(), tx, &named(), 4);
    assert_eq!(plan, CachePlan::Skip);
}

#[test]
fn head_cache_keeps_keys_in_order() {
    let mut head: BTreeMap<u64, Vec<[u8; 32]>> = BTreeMap::new();
    record_in_head_cache(&mut head, 7, [1u8; 32]);
    record_in_head_cache(&mut head, 7, [2u8; 32]);
    record_in_head_cache(&mut head, 8, [3u8; 32]);
    assert_eq!(head.get(&7).unwrap(), &vec![[1u8; 32], [2u8; 32]]);
    assert_eq!(head.get(&8).unwrap(), &vec![[3u8; 32]]);
}

#[test]
fn clear_id_only_touches_answers_with_an_id() {
    let mut rx = object(vec![("id", JsonValue::Number("12".to_string())), ("result", text("0x1"))]);
    assert!(clear_id(&mut rx));
    assert_eq!(rx, object(vec![("id", JsonValue::Null), ("result", text("0x1"))]));
    let mut rx = object(vec![("result", text("0x1"))]);
    assert!(!clear_id(&mut rx));
    assert_eq!(rx, object(vec![("result", text("0x1"))]));
}

#[test]
fn latency_goes_to_the_last_node_when_the_list_shrank() {
    assert_eq!(latency_index(0, 3), None);
    assert_eq!(latency_index(2, 3), Some(1));
    assert_eq!(latency_index(4, 3), Some(3));
}
