use blutgang::json::JsonValue;
use blutgang::websocket::error::WsError;
use blutgang::websocket::types::{Dispatch, RequestResult, SubscriptionData};

fn subscribe_call(params: Vec<&str>) -> JsonValue {
    JsonValue::Object(vec![
        ("id".to_string(), JsonValue::Number("1".to_string())),
        ("method".to_string(), JsonValue::Str("eth_subscribe".to_string())),
        ("params".to_string(), JsonValue::Array(params.into_iter().map(|p| JsonValue::Str(p.to_string())).collect())),
    ])
}

fn setup() -> (SubscriptionData<String>, u32) {
    let mut data: SubscriptionData<String> = SubscriptionData::new();
    data.add_user(1, "user one".to_string());
    (data, 1)
}

#[test]
fn add_and_remove_user() {
    let (mut data, user) = setup();
    assert_eq!(data.get_user(user), Some(&"user one".to_string()));
    data.remove_user(user);
    assert_eq!(data.get_user(user), None);
    data.remove_user(42);
}

#[test]
fn register_then_subscribe_returns_the_id() {
    let (mut data, user) = setup();
    let call = subscribe_call(vec!["newHeads"]);
    assert!(matches!(data.subscribe_user(user, &call), Err(WsError::FailedParsing())));
    data.register_subscription(&call, "sub123".to_string(), 0);
    assert_eq!(data.subscribe_user(user, &call).unwrap(), "sub123");
    assert_eq!(data.get_users_for_subscription("sub123"), vec![user]);
    assert_eq!(data.get_node_from_id("sub123"), Some(0));
    assert_eq!(data.get_node_from_id("nope"), None);
    assert_eq!(data.get_sub_id_by_params("[\"newHeads\"]"), Some("sub123".to_string()));
    assert_eq!(data.get_sub_id_by_params("[\"logs\"]"), None);
}

#[test]
fn subscribing_needs_parameters() {
    let (mut data, user) = setup();
    let call = subscribe_call(vec![]);
    assert!(matches!(data.subscribe_user(user, &call), Err(WsError::FailedParsing())));
}

#[test]
fn unsubscribe_and_remove_take_the_user_out() {
    let (mut data, user) = setup();
    data.add_user(2, "user two".to_string());
    let call = subscribe_call(vec!["newHeads"]);
    data.register_subscription(&call, "sub123".to_string(), 0);
    data.subscribe_user(user, &call).unwrap();
    data.subscribe_user(2, &call).unwrap();
    data.unsubscribe_user(user, "sub123".to_string());
    assert_eq!(data.get_users_for_subscription("sub123"), vec![2]);
    data.remove_user(2);
    assert!(data.get_users_for_subscription("sub123").is_empty());
    data.unsubscribe_user(7, "nothing".to_string());
}

#[test]
fn ids_and_requests_by_node() {
    let (mut data, _) = setup();
    data.raw_register("[\"newHeads\"]", "sub123".to_string(), 0);
    data.raw_register("[\"logs\"]", "sub456".to_string(), 0);
    data.raw_register("[\"newPendingTransactions\"]", "sub789".to_string(), 1);
    let ids = data.get_sub_id_by_node(0);
    assert_eq!(ids.len(), 2);
    assert!(ids.contains(&"sub123".to_string()));
    assert!(ids.contains(&"sub456".to_string()));
    assert!(data.get_sub_id_by_node(5).is_empty());
    let requests = data.get_subscription_by_node(1);
    assert_eq!(requests, vec!["[\"newPendingTransactions\"]".to_string()]);
}

#[test]
fn move_subscriptions_to_another_node() {
    let (mut data, user) = setup();
    let call = subscribe_call(vec!["newHeads"]);
    data.register_subscription(&call, "sub123".to_string(), 0);
    data.subscribe_user(user, &call).unwrap();
    let request = "[\"newHeads\"]".to_string();
    assert!(data.move_subscriptions(1, request.clone(), "sub123".to_string()).is_ok());
    assert_eq!(data.get_node_from_id("sub123"), Some(1));
    // The user left the old node's subscription and joined the new one's.
    let message = RequestResult::Subscription(JsonValue::Null);
    assert!(matches!(data.dispatch_to_subscribers("sub123", 1, &message), Ok(Dispatch::SendTo(users)) if users == vec![user]));
    assert!(matches!(data.dispatch_to_subscribers("sub123", 0, &message), Ok(Dispatch::Unsubscribed)));
}

#[test]
fn move_subscriptions_with_no_subscribers() {
    let (mut data, _) = setup();
    match data.move_subscriptions(1, "[\"newHeads\"]".to_string(), "sub123".to_string()) {
        Err(WsError::EmptyList(m)) => assert_eq!(m, "User list empty!"),
        other => panic!("unexpected {:?}", other),
    }
}

#[test]
fn dispatch_to_subscribers() {
    let (mut data, user) = setup();
    let call = subscribe_call(vec!["newHeads"]);
    data.register_subscription(&call, "sub123".to_string(), 0);
    data.subscribe_user(user, &call).unwrap();
    data.subscribe_user(9, &call).unwrap();
    let message = RequestResult::Subscription(JsonValue::Str("test message".to_string()));
    match data.dispatch_to_subscribers("sub123", 0, &message) {
        Ok(Dispatch::SendTo(users)) => assert_eq!(users, vec![user]),
        other => panic!("unexpected {:?}", other),
    }
    match data.dispatch_to_subscribers("nothing", 0, &message) {
        Ok(Dispatch::SendTo(users)) => assert!(users.is_empty()),
        other => panic!("unexpected {:?}", other),
    }
    let call_message = RequestResult::Call(JsonValue::Null);
    assert!(matches!(data.dispatch_to_subscribers("sub123", 0, &call_message), Err(WsError::InvalidData(_))));
}

#[test]
fn dispatch_to_empty_subscription_list() {
    let (mut data, user) = setup();
    let call = subscribe_call(vec!["newHeads"]);
    data.raw_register("sub123", "sub123".to_string(), 0);
    data.register_subscription(&call, "sub123".to_string(), 0);
    data.subscribe_user(user, &call).unwrap();
    data.unsubscribe_user(user, "sub123".to_string());
    let message = RequestResult::Subscription(JsonValue::Null);
    assert!(matches!(data.dispatch_to_subscribers("sub123", 0, &message), Ok(Dispatch::Unsubscribed)));
    assert_eq!(data.get_sub_id_by_params("sub123"), None);
}
