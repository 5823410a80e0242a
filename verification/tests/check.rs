use blutgang::health::safe_block::{new_head_number, new_heads_request};
use blutgang::json::JsonValue;
use blutgang::health::error::HealthError;
use blutgang::health::check::{escape_poverty, make_poverty, HeadResult};
use blutgang::rpc::types::Rpc;

fn dummy_head_check() -> Vec<HeadResult> {
    vec![
        HeadResult { rpc_list_index: 0, reported_head: 18177557 },
        HeadResult { rpc_list_index: 1, reported_head: 18193012 },
        HeadResult { rpc_list_index: 2, reported_head: 0 },
    ]
}

#[test]
fn test_poverty() {
    let mut rpc_list = vec![Rpc::default(), Rpc::default(), Rpc::default()];
    let mut poverty_list: Vec<Rpc> = vec![];
    let heads = dummy_head_check();
    let highest = make_poverty(&mut rpc_list, &mut poverty_list, heads);
    assert_eq!(highest, 18193012);
    // Only 1 RPC should be in the rpc list
    assert_eq!(rpc_list.len(), 1);
    // The poverty list should now contain 2 RPCs
    assert_eq!(poverty_list.len(), 2);
    assert!(poverty_list.iter().all(|r| r.status.is_erroring));
    assert!(rpc_list.iter().all(|r| !r.status.is_erroring));
}

#[test]
fn test_escape() {
    let mut rpc1 = Rpc::default();
    rpc1.status.is_erroring = true;
    let rpc2 = Rpc::default();
    let mut rpc3 = Rpc::default();
    rpc3.status.is_erroring = true;
    let mut rpc_list = vec![rpc2];
    let mut poverty_list = vec![rpc1, rpc3];
    let heads = vec![
        HeadResult { rpc_list_index: 0, reported_head: 18177557 },
        HeadResult { rpc_list_index: 1, reported_head: 18193012 },
    ];
    escape_poverty(&mut rpc_list, &mut poverty_list, heads, 18193012);
    // RPC3 should have escaped poverty
    assert_eq!(rpc_list.len(), 2);
    // The poverty list should have 1 RPC
    assert_eq!(poverty_list.len(), 1);
    assert!(!rpc_list[1].status.is_erroring);
}

#[test]
fn make_poverty_with_no_heads_changes_nothing() {
    let mut rpc_list = vec![Rpc::default()];
    let mut poverty_list: Vec<Rpc> = vec![];
    assert_eq!(make_poverty(&mut rpc_list, &mut poverty_list, vec![]), 0);
    assert_eq!(rpc_list.len(), 1);
    assert!(poverty_list.is_empty());
}

#[test]
fn nodes_keep_their_order_when_some_leave() {
    let mut rpc_list: Vec<Rpc> = (0..4)
        .map(|i| {
            let mut r = Rpc::default();
            r.name = format!("node{}", i);
            r
        })
        .collect();
    let mut poverty_list: Vec<Rpc> = vec![];
    let heads = vec![
        HeadResult { rpc_list_index: 2, reported_head: 9 },
        HeadResult { rpc_list_index: 0, reported_head: 10 },
        HeadResult { rpc_list_index: 1, reported_head: 8 },
        HeadResult { rpc_list_index: 3, reported_head: 10 },
    ];
    assert_eq!(make_poverty(&mut rpc_list, &mut poverty_list, heads), 10);
    let names: Vec<&str> = rpc_list.iter().map(|r| r.name.as_str()).collect();
    assert_eq!(names, vec!["node0", "node3"]);
    let poor: Vec<&str> = poverty_list.iter().map(|r| r.name.as_str()).collect();
    assert_eq!(poor, vec!["node2", "node1"]);
}

#[test]
fn new_heads_messages() {
    let head = JsonValue::Object(vec![(
        "params".to_string(),
        JsonValue::Object(vec![(
            "result".to_string(),
            JsonValue::Object(vec![("number".to_string(), JsonValue::Str("0x1b4".to_string()))]),
        )]),
    )]);
    assert_eq!(new_head_number(&head), Some(436));
    assert_eq!(new_head_number(&JsonValue::Null), None);
    assert_eq!(
        new_heads_request(1).render(),
        "{\"id\":\"1\",\"jsonrpc\":\"2.0\",\"method\":\"eth_subscribe\",\"params\":[\"newHeads\"]}"
    );
}

#[test]
fn health_error_messages() {
    assert_eq!(HealthError::TimedOut.message(), "Health check timed out!");
    assert_eq!(
        HealthError::InvalidResponse("bad".to_string()).message(),
        "Invalid RPC response: bad"
    );
}
