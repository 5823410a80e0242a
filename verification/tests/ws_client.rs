use blutgang::balancer::accept_http::{
    cache_error, cache_key, cached_response, check_content_type, frame_request, no_rpc_available, out_of_retries, take_request_id,
    timed_out, websocket_upgrade_error, websockets_disabled, RequestParams,
};
use blutgang::health::safe_block::NamedBlocknumbers;
use blutgang::json::JsonValue;
use blutgang::rpc::types::Rpc;
use blutgang::websocket::client::{
    cached_reply, response_is_for, route_ws_message, ws_call_finish, ws_call_start, WsCallEnd, WsCallStart,
    WsRoute,
};
use blutgang::websocket::error::WsError;
use blutgang::websocket::subscription_manager::{on_node_message, start_move, DispatchStep};
use blutgang::websocket::types::{Dispatch, RequestResult, SubscriptionData};

fn s(t: &str) -> JsonValue {
    JsonValue::Str(t.to_string())
}

fn n(t: &str) -> JsonValue {
    JsonValue::Number(t.to_string())
}

fn obj(members: Vec<(&str, JsonValue)>) -> JsonValue {
    JsonValue::Object(members.into_iter().map(|(k, v)| (k.to_string(), v)).collect())
}

fn call(method: &str, params: Vec<JsonValue>) -> JsonValue {
    obj(vec![
        ("id", n("1")),
        ("jsonrpc", s("2.0")),
        ("method", s(method)),
        ("params", JsonValue::Array(params)),
    ])
}

fn named() -> NamedBlocknumbers {
    NamedBlocknumbers { latest: 10, earliest: 0, safe: 8, finalized: 6, pending: 11 }
}

#[test]
fn route_to_the_node_asked_for() {
    let mut rpcs: Vec<Rpc> = vec![];
    let message = call("eth_blockNumber", vec![]);
    assert_eq!(route_ws_message(&mut rpcs, &message, Some(3)), WsRoute::Send(3));
}

#[test]
fn route_without_nodes_keeps_subscriptions_only() {
    let mut rpcs: Vec<Rpc> = vec![];
    let sub = call("eth_subscribe", vec![s("newHeads")]);
    assert_eq!(route_ws_message(&mut rpcs, &sub, None), WsRoute::Buffer);
    let other = call("eth_blockNumber", vec![]);
    assert_eq!(route_ws_message(&mut rpcs, &other, None), WsRoute::Drop);
}

#[test]
fn route_to_the_only_node() {
    let mut rpcs = vec![Rpc::new("http://a".to_string(), None, 10, 0)];
    let message = call("eth_blockNumber", vec![]);
    assert_eq!(route_ws_message(&mut rpcs, &message, None), WsRoute::Send(0));
}

#[test]
fn responses_find_their_user() {
    let answer = obj(vec![("id", n("5")), ("result", s("0x1"))]);
    assert!(response_is_for(&answer, 5));
    assert!(!response_is_for(&answer, 6));
    // An answer without a number for its id reads as `u32::MAX`.
    let no_id = obj(vec![("result", s("0x1"))]);
    assert!(response_is_for(&no_id, u32::MAX));
    // The id is cut to 32 bits.
    let wide = obj(vec![("id", n("4294967301"))]);
    assert!(response_is_for(&wide, 5));
}

#[test]
fn cached_reply_carries_the_callers_id() {
    let cached = obj(vec![("jsonrpc", s("2.0")), ("result", s("0x1"))]);
    assert_eq!(cached_reply(cached, n("7")), "{\"id\":7,\"jsonrpc\":\"2.0\",\"result\":\"0x1\"}");
}

#[test]
fn unsubscribe_with_a_bad_id() {
    let mut data: SubscriptionData<()> = SubscriptionData::new();
    let request = call("eth_unsubscribe", vec![n("3")]);
    match ws_call_start(request, 4, &n("9"), &mut data, &named()) {
        WsCallStart::Reply(t) => {
            assert_eq!(t, "{\"jsonrpc\":\"2.0\", \"id\":9, \"error\": \"Bad Subscription ID!\"}")
        },
        other => panic!("unexpected {:?}", other),
    }
    let request = call("eth_unsubscribe", vec![s("0xunknown")]);
    match ws_call_start(request, 4, &n("9"), &mut data, &named()) {
        WsCallStart::Reply(t) => assert_eq!(t, "{\"jsonrpc\":\"2.0\", \"id\":9, \"error\": \"false\"}"),
        other => panic!("unexpected {:?}", other),
    }
}

#[test]
fn subscribe_then_join_then_unsubscribe() {
    let mut data: SubscriptionData<()> = SubscriptionData::new();
    data.add_user(4, ());
    data.add_user(5, ());
    let request = call("eth_subscribe", vec![s("newHeads")]);
    // Nobody serves the subscription yet: it goes to a node.
    let forwarded = match ws_call_start(request, 4, &n("1"), &mut data, &named()) {
        WsCallStart::Forward { call, is_subscription } => {
            assert!(is_subscription);
            call
        },
        other => panic!("unexpected {:?}", other),
    };
    assert_eq!(forwarded.get("id"), Some(&n("4")));
    // The node answers with its subscription id.
    let answer = obj(vec![("id", n("4")), ("jsonrpc", s("2.0")), ("result", s("0xsub"))]);
    match ws_call_finish(&forwarded, answer, 2, true, n("1"), 4, &mut data) {
        Ok(WsCallEnd::Reply(t)) => assert_eq!(t, "{\"id\":1,\"jsonrpc\":\"2.0\",\"result\":\"0xsub\"}"),
        other => panic!("unexpected {:?}", other),
    }
    assert_eq!(data.get_node_from_id("0xsub"), Some(2));
    // A second user joins the running subscription without a node.
    let request = call("eth_subscribe", vec![s("newHeads")]);
    match ws_call_start(request, 5, &n("2"), &mut data, &named()) {
        WsCallStart::Reply(t) => assert_eq!(t, "{\"jsonrpc\":\"2.0\",\"id\":2,\"result\":\"0xsub\"}"),
        other => panic!("unexpected {:?}", other),
    }
    let mut users = data.get_users_for_subscription("0xsub");
    users.sort();
    assert_eq!(users, vec![4, 5]);
    // The first user leaves it.
    let request = call("eth_unsubscribe", vec![s("0xsub")]);
    match ws_call_start(request, 4, &n("3"), &mut data, &named()) {
        WsCallStart::Reply(t) => assert_eq!(t, "{\"jsonrpc\":\"2.0\",\"id\":3,\"result\":true}"),
        other => panic!("unexpected {:?}", other),
    }
    assert_eq!(data.get_users_for_subscription("0xsub"), vec![5]);
}

#[test]
fn calls_get_their_block_tag_rewritten() {
    let mut data: SubscriptionData<()> = SubscriptionData::new();
    let request = call("eth_getBalance", vec![s("0x407d73d8a49eeb85d32cf465507dd71d507100c1"), s("latest")]);
    match ws_call_start(request, 8, &n("1"), &mut data, &named()) {
        WsCallStart::Forward { call, is_subscription } => {
            assert!(!is_subscription);
            assert_eq!(
                call.render(),
                "{\"id\":8,\"jsonrpc\":\"2.0\",\"method\":\"eth_getBalance\",\"params\":[\"0x407d73d8a49eeb85d32cf465507dd71d507100c1\",\"0xa\"]}"
            );
        },
        other => panic!("unexpected {:?}", other),
    }
}

#[test]
fn finished_calls_may_be_cached() {
    let mut data: SubscriptionData<()> = SubscriptionData::new();
    let request = call("eth_blockNumber", vec![]);
    let answer = obj(vec![("id", n("8")), ("jsonrpc", s("2.0")), ("result", s("0xa"))]);
    match ws_call_finish(&request, answer, 0, false, n("1"), 8, &mut data) {
        Ok(WsCallEnd::ReplyAndCache { reply, answer }) => {
            assert_eq!(reply, "{\"id\":1,\"jsonrpc\":\"2.0\",\"result\":\"0xa\"}");
            assert_eq!(answer, "{\"id\":8,\"jsonrpc\":\"2.0\",\"result\":\"0xa\"}");
        },
        other => panic!("unexpected {:?}", other),
    }
}

#[test]
fn subscription_answer_without_an_id() {
    let mut data: SubscriptionData<()> = SubscriptionData::new();
    let request = call("eth_subscribe", vec![s("newHeads")]);
    let answer = obj(vec![("id", n("8")), ("error", s("nope"))]);
    match ws_call_finish(&request, answer, 0, true, n("1"), 8, &mut data) {
        Ok(WsCallEnd::Reply(t)) => {
            assert_eq!(t, "\"jsonrpc\":\"2.0\", \"id\":1, \"error\": \"Bad Subscription ID!\"")
        },
        other => panic!("unexpected {:?}", other),
    }
    assert_eq!(data.get_node_from_id("nope"), None);
}

fn subscription_message(id: &str) -> JsonValue {
    obj(vec![
        ("jsonrpc", s("2.0")),
        ("method", s("eth_subscription")),
        ("params", obj(vec![("result", s("0xhead")), ("subscription", s(id))])),
    ])
}

#[test]
fn node_messages_go_to_subscribers() {
    let mut data: SubscriptionData<()> = SubscriptionData::new();
    data.add_user(4, ());
    let request = call("eth_subscribe", vec![s("newHeads")]);
    data.register_subscription(&request, "0xsub".to_string(), 1);
    data.subscribe_user(4, &request).unwrap();
    match on_node_message(&mut data, subscription_message("0xsub"), 1) {
        DispatchStep::Send(users) => assert_eq!(users, vec![4]),
        other => panic!("unexpected {:?}", other),
    }
    // Other messages are no business of the subscriptions.
    assert!(matches!(on_node_message(&mut data, call("eth_blockNumber", vec![]), 1), DispatchStep::Ignore));
}

#[test]
fn abandoned_subscriptions_are_ended() {
    let mut data: SubscriptionData<()> = SubscriptionData::new();
    data.add_user(4, ());
    let request = call("eth_subscribe", vec![s("newHeads")]);
    data.register_subscription(&request, "0xsub".to_string(), 1);
    data.subscribe_user(4, &request).unwrap();
    data.unsubscribe_user(4, "0xsub".to_string());
    match on_node_message(&mut data, subscription_message("0xsub"), 1) {
        DispatchStep::Unsubscribe(m) => {
            assert_eq!(m.render(), "{\"id\":2,\"jsonrpc\":\"2.0\",\"method\":\"eth_unsubscribe\",\"params\":[\"0xsub\"]}")
        },
        other => panic!("unexpected {:?}", other),
    }
    // Registrations are kept by request, so ending the subscription by its
    // id leaves the registration in place.
    assert_eq!(data.get_node_from_id("0xsub"), Some(1));
}

#[test]
fn moving_subscriptions_off_a_node() {
    let mut data: SubscriptionData<()> = SubscriptionData::new();
    data.add_user(4, ());
    let request = call("eth_subscribe", vec![s("newHeads")]);
    data.register_subscription(&request, "0xold".to_string(), 1);
    data.subscribe_user(4, &request).unwrap();
    let (messages, mut moving) = start_move(&data, 1);
    assert_eq!(messages.len(), 2);
    assert_eq!(messages[0].1, Some(1));
    assert_eq!(
        messages[0].0.render(),
        "{\"id\":2,\"jsonrpc\":\"2.0\",\"method\":\"eth_unsubscribe\",\"params\":[\"0xold\"]}"
    );
    assert_eq!(messages[1].1, None);
    assert_eq!(
        messages[1].0.render(),
        "{\"id\":32003,\"jsonrpc\":\"2.0\",\"method\":\"eth_subscribe\",\"params\":[\"[\\\"newHeads\\\"]\"]}"
    );
    assert!(!moving.is_done());
    // An answer without an id is refused.
    let no_id = obj(vec![("result", s("0xnew"))]);
    assert!(matches!(moving.on_response(&mut data, &no_id, 3), Err(WsError::InvalidData(_))));
    // The answer to the request moves the users to the new node, under the
    // subscription id they know.
    let answer = obj(vec![("id", n("32003")), ("result", s("0xnew"))]);
    moving.on_response(&mut data, &answer, 3).unwrap();
    assert!(moving.is_done());
    assert_eq!(data.get_node_from_id("0xold"), Some(3));
    // The user now gets the subscription from the new node, and not from
    // the old one.
    let message = RequestResult::Subscription(subscription_message("0xold"));
    assert!(matches!(data.dispatch_to_subscribers("0xold", 3, &message), Ok(Dispatch::SendTo(users)) if users == vec![4]));
    assert!(matches!(data.dispatch_to_subscribers("0xold", 1, &message), Ok(Dispatch::Unsubscribed)));
}

#[test]
fn content_type_checks() {
    let on = RequestParams { ttl: 1000, max_retries: 3, header_check: true };
    let off = RequestParams { header_check: false, ..on };
    assert_eq!(check_content_type(&on, Some("application/json")), None);
    assert_eq!(check_content_type(&on, Some("text/plain")), Some((400, "Improper content-type header")));
    assert_eq!(check_content_type(&on, None), Some((400, "Improper content-type header")));
    assert_eq!(check_content_type(&off, None), None);
}

#[test]
fn refusals() {
    assert_eq!(no_rpc_available().0, 500);
    assert_eq!(timed_out(), (408, "{code:-32001, message:\"error: Request timed out! Try again later...\"}"));
    assert_eq!(cache_error().1, "{code:-32003, message:\"error: Cache error! Try again later...\"}");
    assert_eq!(websockets_disabled().1, "{code:-32005, message:\"error: WebSockets are disabled!\"}");
    assert_eq!(websocket_upgrade_error().0, 500);
}

#[test]
fn request_ids_are_taken_and_put_back() {
    let mut tx = obj(vec![("id", n("42")), ("method", s("eth_blockNumber"))]);
    assert_eq!(take_request_id(&mut tx), 42);
    assert_eq!(tx.render(), "{\"id\":null,\"method\":\"eth_blockNumber\"}");
    let mut no_id = obj(vec![("method", s("eth_blockNumber"))]);
    assert_eq!(take_request_id(&mut no_id), 0);
    let cached = obj(vec![("id", JsonValue::Null), ("jsonrpc", s("2.0")), ("result", s("0x1"))]);
    assert_eq!(cached_response(cached, 42), "{\"id\":42,\"jsonrpc\":\"2.0\",\"result\":\"0x1\"}");
}

#[test]
fn retries_run_out() {
    assert!(!out_of_retries(2, 3));
    assert!(out_of_retries(3, 3));
}

#[test]
fn ws_error_messages() {
    assert_eq!(WsError::FailedParsing().message(), "Failed to Parse Input Data!");
    assert_eq!(WsError::InvalidData("No ID in response!".to_string()).message(), "Invalid Data: No ID in response!");
}

#[test]
fn cache_keys_hash_the_request() {
    let request = call("eth_blockNumber", vec![]);
    let key = cache_key(&request);
    assert_eq!(key, *blake3::hash(request.render().as_bytes()).as_bytes());
    assert_ne!(&key[..], request.render().as_bytes());
    assert_ne!(key, cache_key(&call("eth_chainId", vec![])));
}

#[test]
fn test_execute_ws_subscription_and_call() {
    let mut data: SubscriptionData<()> = SubscriptionData::new();
    data.add_user(1, ());
    let request = obj(vec![
        ("id", n("1")),
        ("jsonrpc", s("2.0")),
        ("method", s("eth_subscribe")),
        ("params", JsonValue::Array(vec![s("newHeads")])),
    ]);
    let forwarded = match ws_call_start(request, 1, &n("1"), &mut data, &named()) {
        WsCallStart::Forward { call, is_subscription } => {
            assert!(is_subscription);
            call
        },
        other => panic!("unexpected {:?}", other),
    };
    assert_eq!(forwarded.get("id"), Some(&n("1")));
    assert_eq!(forwarded.get("method"), Some(&s("eth_subscribe")));
    // A parsed answer holds its members in key order, as serde_json's map does.
    let content = obj(vec![("id", n("1")), ("jsonrpc", s("2.0")), ("result", s("0x1a2b3c"))]);
    match ws_call_finish(&forwarded, content, 0, true, n("1"), 1, &mut data) {
        Ok(WsCallEnd::Reply(t)) => assert_eq!(t, "{\"id\":1,\"jsonrpc\":\"2.0\",\"result\":\"0x1a2b3c\"}"),
        other => panic!("unexpected {:?}", other),
    }
    assert_eq!(data.get_node_from_id("0x1a2b3c"), Some(0));
    assert_eq!(data.get_users_for_subscription("0x1a2b3c"), vec![1]);
}

#[test]
fn subscription_without_params_is_registered_but_not_joined() {
    let mut data: SubscriptionData<()> = SubscriptionData::new();
    data.add_user(3, ());
    let request = obj(vec![("id", n("1")), ("method", s("eth_subscribe"))]);
    let content = obj(vec![("id", n("3")), ("result", s("0xfeed"))]);
    assert!(matches!(
        ws_call_finish(&request, content, 1, true, n("1"), 3, &mut data),
        Err(WsError::FailedParsing())
    ));
    assert_eq!(data.get_node_from_id("0xfeed"), Some(1));
    assert!(data.get_users_for_subscription("0xfeed").is_empty());
}

#[test]
fn framing_takes_the_id_hashes_then_rewrites() {
    let mut tx = obj(vec![
        ("id", n("7")),
        ("jsonrpc", s("2.0")),
        ("method", s("eth_getBalance")),
        ("params", JsonValue::Array(vec![s("0x407d73d8a49eeb85d32cf465507dd71d507100c1"), s("latest")])),
    ]);
    let without_id = obj(vec![
        ("id", JsonValue::Null),
        ("jsonrpc", s("2.0")),
        ("method", s("eth_getBalance")),
        ("params", JsonValue::Array(vec![s("0x407d73d8a49eeb85d32cf465507dd71d507100c1"), s("latest")])),
    ]);
    let (id, key) = frame_request(&mut tx, &named());
    assert_eq!(id, 7);
    assert_eq!(key, cache_key(&without_id));
    assert_eq!(
        tx.render(),
        "{\"id\":null,\"jsonrpc\":\"2.0\",\"method\":\"eth_getBalance\",\"params\":[\"0x407d73d8a49eeb85d32cf465507dd71d507100c1\",\"0xa\"]}"
    );
}
