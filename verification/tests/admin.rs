use blutgang::admin::error::AdminError;
use blutgang::admin::methods::{
    admin_response, plan_admin_request, remove_position, rpc_list_text, AdminCommand, BlutgangRpcMethod,
};
use blutgang::json::JsonValue;
use blutgang::rpc::types::Rpc;

fn text(s: &str) -> JsonValue {
    JsonValue::Str(s.to_string())
}

fn number(s: &str) -> JsonValue {
    JsonValue::Number(s.to_string())
}

fn request(method: &str, params: Option<Vec<JsonValue>>) -> JsonValue {
    let mut members = vec![("id".to_string(), number("1")), ("method".to_string(), text(method))];
    if let Some(p) = params {
        members.push(("params".to_string(), JsonValue::Array(p)));
    }
    JsonValue::Object(members)
}

#[test]
fn admin_method_names_read_back() {
    assert_eq!(BlutgangRpcMethod::try_from_name(Some("blutgang_quit")).unwrap(), BlutgangRpcMethod::Quit);
    assert_eq!(BlutgangRpcMethod::SetHealthCheckTtl.as_str(), "blutgang_set_health_check_ttl");
    assert!(BlutgangRpcMethod::try_from_name(Some("blutgang_nope")).is_err());
}

#[test]
fn reads_are_allowed_when_read_only() {
    for m in ["blutgang_rpc_list", "blutgang_config", "blutgang_poverty_list", "blutgang_ttl", "blutgang_health_check_ttl"] {
        assert!(plan_admin_request(&request(m, None), true).is_ok(), "{}", m);
    }
}

#[test]
fn writes_are_refused_when_read_only() {
    let tx = request("blutgang_set_health_check_ttl", Some(vec![number("9001")]));
    assert!(matches!(plan_admin_request(&tx, true), Err(AdminError::WriteProtectionEnabled)));
    assert!(matches!(plan_admin_request(&tx, false), Ok(AdminCommand::SetHealthCheckTtl(9001))));
    let tx = request("blutgang_quit", None);
    assert!(matches!(plan_admin_request(&tx, true), Err(AdminError::WriteProtectionEnabled)));
}

#[test]
fn invalid_method_is_an_error() {
    match plan_admin_request(&request("invalid_method", None), false) {
        Err(AdminError::InvalidMethod(e)) => assert_eq!(e.0, Some("invalid_method".to_string())),
        other => panic!("unexpected {:?}", other),
    }
}

#[test]
fn set_ttl_reads_its_one_parameter() {
    assert!(matches!(plan_admin_request(&request("blutgang_set_ttl", Some(vec![number("9001")])), false), Ok(AdminCommand::SetTtl(9001))));
    assert!(matches!(plan_admin_request(&request("blutgang_set_ttl", Some(vec![text("12")])), false), Ok(AdminCommand::SetTtl(12))));
    assert!(matches!(plan_admin_request(&request("blutgang_set_ttl", None), false), Err(AdminError::InvalidParams)));
    assert!(matches!(plan_admin_request(&request("blutgang_set_ttl", Some(vec![])), false), Err(AdminError::InvalidLen)));
    assert!(matches!(plan_admin_request(&request("blutgang_set_ttl", Some(vec![text("x")])), false), Err(AdminError::ParseError)));
}

#[test]
fn add_to_rpc_list_reads_the_node() {
    let tx = request(
        "blutgang_add_to_rpc_list",
        Some(vec![text("http://example.com"), text("ws://example.com"), number("5"), number("10"), number("0.5")]),
    );
    match plan_admin_request(&tx, false) {
        Ok(AdminCommand::AddToRpcList(n)) => {
            assert_eq!(n.url, "http://example.com");
            assert_eq!(n.ws_url, Some("ws://example.com".to_string()));
            assert_eq!(n.max_consecutive, 5);
            assert_eq!(n.min_time_delta, 100_000);
            assert_eq!(n.ma_len, "0.5");
        }
        other => panic!("unexpected {:?}", other),
    }
    let tx = request(
        "blutgang_add_to_poverty_list",
        Some(vec![text("http://example.com"), JsonValue::Null, text("x"), number("0"), number("1")]),
    );
    match plan_admin_request(&tx, false) {
        Ok(AdminCommand::AddToPovertyList(n)) => {
            assert_eq!(n.ws_url, None);
            assert_eq!(n.max_consecutive, 0);
            assert_eq!(n.min_time_delta, 0);
        }
        other => panic!("unexpected {:?}", other),
    }
    let tx = request("blutgang_add_to_rpc_list", Some(vec![number("1"), JsonValue::Null, number("1"), number("1"), number("1")]));
    assert!(matches!(plan_admin_request(&tx, false), Err(AdminError::ParseError)));
    let tx = request("blutgang_add_to_rpc_list", Some(vec![text("http://a"), JsonValue::Bool(true), number("1"), number("1"), number("1")]));
    assert!(matches!(plan_admin_request(&tx, false), Err(AdminError::ParseError)));
    let tx = request("blutgang_add_to_rpc_list", Some(vec![text("http://a")]));
    assert!(matches!(plan_admin_request(&tx, false), Err(AdminError::InvalidLen)));
}

#[test]
fn remove_checks_the_index() {
    assert!(matches!(plan_admin_request(&request("blutgang_remove_from_rpc_list", Some(vec![number("10")])), false), Ok(AdminCommand::RemoveFromRpcList(10))));
    assert!(matches!(remove_position(10, 2), Err(AdminError::OutOfBounds)));
    assert!(matches!(remove_position(0, 2), Ok(0)));
}

#[test]
fn rpc_listing_text() {
    let mut a = Rpc::default();
    a.name = "http://a/".to_string();
    a.max_consecutive = 5;
    a.status.last_error = 7;
    let b = Rpc::default();
    assert_eq!(
        rpc_list_text(&vec![a, b]),
        "[{\"name\": \"http://a/\", \"max_consecutive\": 5, \"last_error\": 7}{\"name\": \"\", \"max_consecutive\": 0, \"last_error\": 0}]"
    );
    assert_eq!(rpc_list_text(&vec![]), "[]");
}

#[test]
fn admin_responses_are_json_rpc() {
    let r = admin_response(number("1000"));
    assert_eq!(r.render(), "{\"id\":null,\"jsonrpc\":\"2.0\",\"result\":1000}");
    assert_eq!(AdminError::InvalidLen.message(), "Mismatching params length");
}
