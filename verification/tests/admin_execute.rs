use blutgang::admin::error::AdminError;
use blutgang::admin::execute::{add_rpc, execute_method, remove_rpc, AdminEffect, AdminTtls};
use blutgang::admin::methods::NewRpc;
use blutgang::json::JsonValue;
use blutgang::rpc::types::Rpc;

fn text(s: &str) -> JsonValue {
    JsonValue::Str(s.to_string())
}

fn number(s: &str) -> JsonValue {
    JsonValue::Number(s.to_string())
}

fn request(method: &str, params: Option<Vec<JsonValue>>) -> JsonValue {
    let mut members = vec![("id".to_string(), number("1")), ("method".to_string(), text(method))];
    if let Some(p) = params {
        members.push(("params".to_string(), JsonValue::Array(p)));
    }
    JsonValue::Object(members)
}

fn test_rpc_list() -> Vec<Rpc> {
    vec![Rpc::new("http://example.com".to_string(), None, 5, 1000)]
}

fn test_poverty_list() -> Vec<Rpc> {
    vec![Rpc::new("http://poverty.com".to_string(), None, 2, 1000)]
}

fn test_ttls() -> AdminTtls {
    AdminTtls { ttl: 1000, health_check_ttl: 1000 }
}

fn answer_text(effect: &AdminEffect) -> String {
    match effect {
        AdminEffect::Answer(v) => v.render(),
        other => panic!("not an answer: {:?}", other),
    }
}

#[test]
fn test_execute_method_blutgang_rpc_list() {
    let tx = request("blutgang_rpc_list", None);
    let (mut rl, mut pl, mut t) = (test_rpc_list(), test_poverty_list(), test_ttls());
    let result = execute_method(&tx, false, &mut rl, &mut pl, &mut t);
    assert!(result.is_ok());
    let answer = answer_text(&result.unwrap());
    assert!(answer.contains("example.com"));
    assert_eq!(rl.len(), 1);
}

#[test]
fn test_execute_method_blutgang_flush_cache() {
    let tx = request("blutgang_flush_cache", None);
    let (mut rl, mut pl, mut t) = (test_rpc_list(), test_poverty_list(), test_ttls());
    let result = execute_method(&tx, false, &mut rl, &mut pl, &mut t);
    assert!(matches!(result, Ok(AdminEffect::FlushCache)));
}

#[test]
fn test_execute_method_blutgang_config() {
    let tx = request("blutgang_config", None);
    let (mut rl, mut pl, mut t) = (test_rpc_list(), test_poverty_list(), test_ttls());
    let result = execute_method(&tx, false, &mut rl, &mut pl, &mut t);
    assert!(matches!(result, Ok(AdminEffect::Config)));
}

#[test]
fn test_execute_method_blutgang_poverty_list() {
    let tx = request("blutgang_poverty_list", None);
    let (mut rl, mut pl, mut t) = (test_rpc_list(), test_poverty_list(), test_ttls());
    let result = execute_method(&tx, false, &mut rl, &mut pl, &mut t);
    assert!(result.is_ok());
    let answer = answer_text(&result.unwrap());
    assert!(answer.contains("poverty.com"));
}

#[test]
fn test_execute_method_blutgang_ttl() {
    let tx = request("blutgang_ttl", None);
    let (mut rl, mut pl, mut t) = (test_rpc_list(), test_poverty_list(), test_ttls());
    let result = execute_method(&tx, false, &mut rl, &mut pl, &mut t);
    assert!(result.is_ok());
    assert_eq!(answer_text(&result.unwrap()), r#"{"id":null,"jsonrpc":"2.0","result":1000}"#);
}

#[test]
fn test_execute_method_blutgang_health_check_ttl() {
    let tx = request("blutgang_health_check_ttl", None);
    let (mut rl, mut pl, mut t) = (test_rpc_list(), test_poverty_list(), test_ttls());
    let result = execute_method(&tx, false, &mut rl, &mut pl, &mut t);
    assert!(result.is_ok());
    assert_eq!(answer_text(&result.unwrap()), r#"{"id":null,"jsonrpc":"2.0","result":1000}"#);
}

#[test]
fn test_execute_method_invalid_method() {
    let tx = request("invalid_method", None);
    let (mut rl, mut pl, mut t) = (test_rpc_list(), test_poverty_list(), test_ttls());
    let result = execute_method(&tx, false, &mut rl, &mut pl, &mut t);
    assert!(result.is_err());
    match result {
        Err(AdminError::InvalidMethod(e)) => {
            assert_eq!(e.0, Some("invalid_method".to_string()));
            assert_eq!(e.1.len(), 13);
            assert!(e.1.contains(&"blutgang_quit"));
            assert!(e.1.contains(&"blutgang_set_health_check_ttl"));
        }
        other => panic!("unexpected {:?}", other),
    }
    assert_eq!(rl.len(), 1);
    assert_eq!(pl.len(), 1);
    assert_eq!(t, test_ttls());
}

#[test]
fn test_execute_method_add_to_rpc_list() {
    let tx = request(
        "blutgang_add_to_rpc_list",
        Some(vec![text("http://example.com"), text("ws://example.com"), number("5"), number("10"), number("0.5")]),
    );
    let (mut rl, mut pl, mut t) = (test_rpc_list(), test_poverty_list(), test_ttls());
    let len = rl.len();
    let result = execute_method(&tx, false, &mut rl, &mut pl, &mut t);
    assert!(result.is_ok());
    assert!(rl.len() == len + 1);
    assert_eq!(rl[1].ws_url, Some("ws://example.com".to_string()));
    assert_eq!(rl[1].max_consecutive, 5);
    assert_eq!(rl[1].min_time_delta, 100_000);
    assert_eq!(rl[1].consecutive, 0);
    assert_eq!(rl[0].url, "http://example.com");
    match result.unwrap() {
        AdminEffect::Added { url, max_consecutive, ma_len } => {
            assert_eq!(url, "http://example.com");
            assert_eq!(max_consecutive, 5);
            assert_eq!(ma_len, "0.5");
        }
        other => panic!("unexpected {:?}", other),
    }
    assert_eq!(pl.len(), 1);
}

#[test]
fn test_execute_method_add_to_rpc_list_no_ws() {
    let tx = request(
        "blutgang_add_to_rpc_list",
        Some(vec![text("http://example.com"), JsonValue::Null, number("5"), number("10"), number("0.5")]),
    );
    let (mut rl, mut pl, mut t) = (test_rpc_list(), test_poverty_list(), test_ttls());
    let len = rl.len();
    let result = execute_method(&tx, false, &mut rl, &mut pl, &mut t);
    assert!(result.is_ok());
    assert!(rl.len() == len + 1);
    assert_eq!(rl[1].ws_url, None);
}

#[test]
fn test_execute_method_remove_from_rpc_list() {
    let tx = request("blutgang_remove_from_rpc_list", Some(vec![number("10")]));
    let mut rl = test_rpc_list();
    rl.push(Rpc::new("http://example.com".to_string(), None, 5, 1000));
    let len = rl.len();
    let (mut pl, mut t) = (test_poverty_list(), test_ttls());
    let result = execute_method(&tx, false, &mut rl, &mut pl, &mut t);
    assert!(result.is_err());
    assert!(matches!(result, Err(AdminError::OutOfBounds)));
    assert_eq!(rl.len(), len);

    let tx = request("blutgang_remove_from_rpc_list", Some(vec![number("0")]));
    let result = execute_method(&tx, false, &mut rl, &mut pl, &mut t);
    assert!(result.is_ok());
    assert!(rl.len() == len - 1);
    assert_eq!(answer_text(&result.unwrap()), r#"{"id":null,"jsonrpc":"2.0","result":"http://example.com/"}"#);
}

#[test]
fn test_execute_method_blutgang_set_ttl() {
    let tx = request("blutgang_set_ttl", Some(vec![number("9001")]));
    let (mut rl, mut pl, mut t) = (test_rpc_list(), test_poverty_list(), test_ttls());
    let ttl = t.ttl;
    let result = execute_method(&tx, false, &mut rl, &mut pl, &mut t);
    assert!(result.is_ok());
    assert!(t.ttl != ttl);
    assert!(t.ttl == 9001);
    assert_eq!(answer_text(&result.unwrap()), r#"{"id":null,"jsonrpc":"2.0","result":9001}"#);
}

#[test]
fn test_execute_method_blutgang_set_health_check_ttl() {
    let tx = request("blutgang_set_health_check_ttl", Some(vec![number("9001")]));
    let (mut rl, mut pl, mut t) = (test_rpc_list(), test_poverty_list(), test_ttls());
    let health_check_ttl = t.health_check_ttl;
    let result = execute_method(&tx, false, &mut rl, &mut pl, &mut t);
    assert!(result.is_ok());
    assert!(t.health_check_ttl != health_check_ttl);
    assert!(t.health_check_ttl == 9001);
    assert_eq!(t.ttl, 1000);
}

#[test]
fn test_rw_protection() {
    let tx = request("blutgang_set_health_check_ttl", Some(vec![number("9001")]));
    let (mut rl, mut pl, mut t) = (test_rpc_list(), test_poverty_list(), test_ttls());
    let result = execute_method(&tx, true, &mut rl, &mut pl, &mut t);
    assert!(result.is_err());
    assert!(matches!(result, Err(AdminError::WriteProtectionEnabled)));
    assert_eq!(t.health_check_ttl, 1000);

    let tx = request("blutgang_health_check_ttl", None);
    let result = execute_method(&tx, true, &mut rl, &mut pl, &mut t);
    assert!(result.is_ok());
}

#[test]
fn remove_rpc_gives_the_removed_name() {
    let mut list = vec![
        Rpc::new("http://a.example:8545/path?key=1".to_string(), None, 1, 0),
        Rpc::new("http://b.example".to_string(), None, 1, 0),
    ];
    assert!(matches!(remove_rpc(&mut list, 2), Err(AdminError::OutOfBounds)));
    assert_eq!(list.len(), 2);
    assert_eq!(remove_rpc(&mut list, 0).unwrap(), "http://a.example:8545/");
    assert_eq!(list.len(), 1);
    assert_eq!(list[0].url, "http://b.example");
}

#[test]
fn add_rpc_appends_a_fresh_node() {
    let mut list = test_rpc_list();
    let new = NewRpc {
        url: "http://c.example".to_string(),
        ws_url: Some("ws://c.example".to_string()),
        max_consecutive: 7,
        min_time_delta: 25,
        ma_len: "3".to_string(),
    };
    let effect = add_rpc(&mut list, new);
    assert_eq!(list.len(), 2);
    assert_eq!(list[1].url, "http://c.example");
    assert_eq!(list[1].max_consecutive, 7);
    assert_eq!(list[1].min_time_delta, 25);
    assert!(matches!(effect, AdminEffect::Added { max_consecutive: 7, .. }));
}

#[test]
fn ttl_reads_back_what_was_set() {
    let (mut rl, mut pl, mut t) = (test_rpc_list(), test_poverty_list(), test_ttls());
    let set = request("blutgang_set_ttl", Some(vec![number("1234")]));
    assert!(execute_method(&set, false, &mut rl, &mut pl, &mut t).is_ok());
    let read = request("blutgang_ttl", None);
    let answer = execute_method(&read, false, &mut rl, &mut pl, &mut t).unwrap();
    assert_eq!(answer_text(&answer), r#"{"id":null,"jsonrpc":"2.0","result":1234}"#);
    assert_eq!(t.health_check_ttl, 1000);
}

#[test]
fn removing_the_added_node_restores_the_list() {
    let (mut rl, mut pl, mut t) = (test_rpc_list(), test_poverty_list(), test_ttls());
    let before: Vec<String> = rl.iter().map(|r| r.url.clone()).collect();
    let add = request(
        "blutgang_add_to_rpc_list",
        Some(vec![text("http://added.example/key"), JsonValue::Null, number("3"), number("1"), number("2")]),
    );
    assert!(execute_method(&add, false, &mut rl, &mut pl, &mut t).is_ok());
    let remove = request("blutgang_remove_from_rpc_list", Some(vec![number("1")]));
    let answer = execute_method(&remove, false, &mut rl, &mut pl, &mut t).unwrap();
    assert_eq!(answer_text(&answer), r#"{"id":null,"jsonrpc":"2.0","result":"http://added.example/"}"#);
    let after: Vec<String> = rl.iter().map(|r| r.url.clone()).collect();
    assert_eq!(before, after);
}
