//! The decisions of the WebSocket side: which node a message goes to, and
//! how a user's call is answered.

use vstd::prelude::*;
use crate::balancer::format::{param_replaced, replace_block_tags, tag_rewrite};
use crate::balancer::selection::selection::{pick, picked};
use crate::health::safe_block::NamedBlocknumbers;
use crate::json::{array_items, element, field, field_set, is_object_or_null, json_u64, render, string_chars, JsonValue};
use crate::rpc::method::EthRpcMethod;
use crate::rpc::types::Rpc;
use crate::text::{dec_text, hex_text};
use crate::websocket::error::WsError;
use crate::websocket::types::{subscribers_of, without_users, SubscriptionData};

verus! {

/// Where a message for the nodes goes.
#[derive(Debug, Clone, Copy, PartialEq, Eq, Structural)]
pub enum WsRoute {
    /// To the connection of this node.
    Send(usize),
    /// No node is available: keep the subscription message for later.
    Buffer,
    /// No node is available: the message is dropped.
    Drop,
}

/// The message is a subscription or a subscription request.
pub open spec fn is_subscription_message(incoming: JsonValue) -> bool {
    let m = string_chars(field(incoming, "method"@));
    m == Some("eth_subscription"@) || m == Some("eth_subscribe"@)
}

/// Decides where a message for the nodes goes: the node asked for, else
/// the one the selection picks; with no node available, subscription
/// messages are kept and others dropped.
pub fn route_ws_message(rpc_list: &mut Vec<Rpc>, incoming: &JsonValue, specified_index: Option<usize>) -> (r: WsRoute)
    ensures
        match specified_index {
            Some(i) => r == WsRoute::Send(i) && final(rpc_list)@ == old(rpc_list)@,
            None => exists|p: Option<usize>|
                {
                    &&& picked(old(rpc_list)@, final(rpc_list)@, p)
                    &&& match p {
                        Some(i) => r == WsRoute::Send(i),
                        None => r == if is_subscription_message(*incoming) {
                            WsRoute::Buffer
                        } else {
                            WsRoute::Drop
                        },
                    }
                },
        },
{
    if let Some(index) = specified_index {
        return WsRoute::Send(index);
    }
    let p = pick(rpc_list).1;
    match p {
        Some(position) => WsRoute::Send(position),
        None => {
            let method = match incoming.get("method") {
                Some(m) => m,
                None => &JsonValue::Null,
            };
            proof {
                assert(*method == field(*incoming, "method"@));
            }
            if EthRpcMethod::Subscription.matches_json(method) || EthRpcMethod::Subscribe.matches_json(method) {
                proof {
                    reveal_strlit("eth_subscription");
                    reveal_strlit("eth_subscribe");
                }
                WsRoute::Buffer
            } else {
                WsRoute::Drop
            }
        },
    }
}

/// Whether a message from a node answers user `user_id`: its `id`, read as
/// an unsigned number (`u32::MAX` when it is none), cut to 32 bits.
pub fn response_is_for(content: &JsonValue, user_id: u32) -> (r: bool)
    ensures
        r == ((match json_u64(field(*content, "id"@)) {
            Some(n) => n,
            None => 0xffff_ffffu64,
        }) as u32 == user_id),
{
    let n = match content.get("id") {
        Some(v) => v.as_u64(),
        None => None,
    };
    let v: u64 = match n {
        Some(n) => n,
        None => 0xffff_ffff,
    };
    (v as u32) == user_id
}

/// `prefix`, the text of `id`, then `suffix`: how the WebSocket side
/// writes its own answers.
pub open spec fn reply_text(prefix: Seq<char>, id: JsonValue, suffix: Seq<char>) -> Seq<char> {
    prefix + render(id) + suffix
}

/// Writes `prefix`, the text of `id`, then `suffix`.
fn write_reply(prefix: &str, id: &JsonValue, suffix: &str) -> (r: String)
    ensures
        r@ == reply_text(prefix@, *id, suffix@),
{
    let mut out = String::new();
    out.append(prefix);
    let rendered = id.render();
    out.append(rendered.as_str());
    out.append(suffix);
    assert(out@ =~= reply_text(prefix@, *id, suffix@));
    out
}

/// The answer to a call from the cache: the cached answer with the
/// caller's `id`.
pub fn cached_reply(cached: JsonValue, id: JsonValue) -> (r: String)
    requires
        is_object_or_null(cached),
    ensures
        exists|answer: JsonValue| field_set(cached, "id"@, id, answer) && r@ == render(answer),
{
    let mut answer = cached;
    answer.set_field("id", id);
    answer.render()
}

/// What happens to a user's call once the cache could not answer it.
#[derive(Debug)]
pub enum WsCallStart {
    /// Answer the user with this text.
    Reply(String),
    /// Send this call (carrying the user's number as its `id`) to a node
    /// and wait for the answer; `is_subscription` for a subscription
    /// request.
    Forward { call: JsonValue, is_subscription: bool },
}

/// `new` is `old` with its `id` set to the number `user_id`.
pub open spec fn id_set_to(old: JsonValue, user_id: u32, new: JsonValue) -> bool {
    exists|num: JsonValue|
        #[trigger] field_set(old, "id"@, num, new) && (num matches JsonValue::Number(t) && t@ == dec_text(
            user_id as nat,
        ))
}

/// The call after its block tag was rewritten (if any) and its `id` set to
/// the user's number.
pub open spec fn forwarded_call(call: JsonValue, rewrite: bool, named: NamedBlocknumbers, user_id: u32, new: JsonValue) -> bool {
    exists|mid: JsonValue|
        {
            &&& #[trigger] id_set_to(mid, user_id, new)
            &&& if rewrite {
                match tag_rewrite(call, named) {
                    None => mid == call,
                    Some((pos, n)) => param_replaced(call, pos, seq!['0', 'x'] + hex_text(n as nat), mid),
                }
            } else {
                mid == call
            }
        }
}

/// The reply texts of the WebSocket side.
pub open spec fn bad_subscription_id(id: JsonValue) -> Seq<char> {
    reply_text("{\"jsonrpc\":\"2.0\", \"id\":"@, id, ", \"error\": \"Bad Subscription ID!\"}"@)
}

pub open spec fn unknown_subscription(id: JsonValue) -> Seq<char> {
    reply_text("{\"jsonrpc\":\"2.0\", \"id\":"@, id, ", \"error\": \"false\"}"@)
}

pub open spec fn unsubscribed(id: JsonValue) -> Seq<char> {
    reply_text("{\"jsonrpc\":\"2.0\",\"id\":"@, id, ",\"result\":true}"@)
}

pub open spec fn subscribed(id: JsonValue, sub_id: Seq<char>) -> Seq<char> {
    reply_text("{\"jsonrpc\":\"2.0\",\"id\":"@, id, ",\"result\":\""@) + sub_id + "\"}"@
}

/// Sets the call's `id` to the user's number.
fn set_user_id(call: &mut JsonValue, user_id: u32)
    requires
        is_object_or_null(*old(call)),
    ensures
        id_set_to(*old(call), user_id, *final(call)),
{
    let num = JsonValue::from_u64(user_id as u64);
    call.set_field("id", num);
}

/// Rewriting a block tag keeps a request an object.
proof fn lemma_rewrite_keeps_object(call: JsonValue, pos: int, text: Seq<char>, new: JsonValue)
    requires
        param_replaced(call, pos, text, new),
    ensures
        new is Object,
{
}

/// Decides how a user's call is handled once the cache missed: an
/// unsubscription is done here; a subscription that a node already serves
/// is joined here; anything else goes to a node (with its block tag
/// rewritten, unless it is a subscription request).
pub fn ws_call_start<U>(
    call: JsonValue,
    user_id: u32,
    id: &JsonValue,
    sub_data: &mut SubscriptionData<U>,
    named_blocknumbers: &NamedBlocknumbers,
) -> (r: WsCallStart)
    requires
        old(sub_data).wf(),
        is_object_or_null(call),
    ensures
        final(sub_data).wf(),
        final(sub_data).users_view() == old(sub_data).users_view(),
        final(sub_data).registrations() == old(sub_data).registrations(),
        ({
            let method = string_chars(field(call, "method"@));
            if method == Some("eth_unsubscribe"@) {
                match string_chars(element(field(call, "params"@), 0)) {
                    None => r matches WsCallStart::Reply(t) && t@ == bad_subscription_id(*id)
                        && final(sub_data).subscribers() == old(sub_data).subscribers(),
                    Some(sid) => if forall|x: Seq<char>| #[trigger] old(sub_data).registrations().contains_key(x)
                        ==> old(sub_data).registrations()[x].1 != sid {
                        r matches WsCallStart::Reply(t) && t@ == unknown_subscription(*id)
                            && final(sub_data).subscribers() == old(sub_data).subscribers()
                    } else {
                        r matches WsCallStart::Reply(t) && t@ == unsubscribed(*id)
                            && final(sub_data).subscribers() == without_users(
                            old(sub_data).subscribers(),
                            set![user_id],
                            sid,
                        )
                    },
                }
            } else if method == Some("eth_subscribe"@) {
                let params = field(call, "params"@);
                let joined = (match array_items(params) {
                    Some(items) => items.len() > 0,
                    None => false,
                }) && old(sub_data).registrations().contains_key(render(params));
                if joined {
                    let info = old(sub_data).registrations()[render(params)];
                    r matches WsCallStart::Reply(t) && t@ == subscribed(*id, info.1)
                        && final(sub_data).subscribers() == old(sub_data).subscribers().insert(
                        info,
                        subscribers_of(old(sub_data).subscribers(), info).insert(user_id),
                    )
                } else {
                    (r matches WsCallStart::Forward { call: c, is_subscription: s } && s && forwarded_call(
                        call,
                        false,
                        *named_blocknumbers,
                        user_id,
                        c,
                    )) && final(sub_data).subscribers() == old(sub_data).subscribers()
                }
            } else {
                (r matches WsCallStart::Forward { call: c, is_subscription: s } && !s && forwarded_call(
                    call,
                    true,
                    *named_blocknumbers,
                    user_id,
                    c,
                )) && final(sub_data).subscribers() == old(sub_data).subscribers()
            }
        }),
{
    let mut call = call;
    let ghost original = call;
    let method = match call.get("method") {
        Some(m) => m,
        None => &JsonValue::Null,
    };
    proof {
        assert(*method == field(original, "method"@));
        reveal_strlit("eth_unsubscribe");
        reveal_strlit("eth_subscribe");
    }
    if EthRpcMethod::Unsubscribe.matches_json(method) {
        let first = match call.get("params") {
            Some(p) => p.index(0),
            None => None,
        };
        let subscription_id = match first {
            Some(v) => v.as_str(),
            None => None,
        };
        let subscription_id = match subscription_id {
            Some(s) => s.to_owned(),
            None => {
                return WsCallStart::Reply(
                    write_reply("{\"jsonrpc\":\"2.0\", \"id\":", id, ", \"error\": \"Bad Subscription ID!\"}"),
                );
            },
        };
        match sub_data.get_node_from_id(subscription_id.as_str()) {
            Some(_) => {},
            None => {
                return WsCallStart::Reply(write_reply("{\"jsonrpc\":\"2.0\", \"id\":", id, ", \"error\": \"false\"}"));
            },
        }
        sub_data.unsubscribe_user(user_id, subscription_id);
        return WsCallStart::Reply(write_reply("{\"jsonrpc\":\"2.0\",\"id\":", id, ",\"result\":true}"));
    }
    let is_subscription = EthRpcMethod::Subscribe.matches_json(method);
    if is_subscription {
        match sub_data.subscribe_user(user_id, &call) {
            Ok(rax) => {
                let mut text = write_reply("{\"jsonrpc\":\"2.0\",\"id\":", id, ",\"result\":\"");
                text.append(rax.as_str());
                text.append("\"}");
                return WsCallStart::Reply(text);
            },
            Err(_) => {},
        }
    } else {
        replace_block_tags(&mut call, named_blocknumbers);
        proof {
            if let Some((pos, n)) = tag_rewrite(original, *named_blocknumbers) {
                lemma_rewrite_keeps_object(original, pos, seq!['0', 'x'] + hex_text(n as nat), call);
            }
        }
    }
    let ghost mid = call;
    set_user_id(&mut call, user_id);
    assert(id_set_to(mid, user_id, call));
    WsCallStart::Forward { call, is_subscription }
}

/// How a user's call ends once a node answered.
#[derive(Debug)]
pub enum WsCallEnd {
    /// Answer the user with this text.
    Reply(String),
    /// Answer the user with `reply`, and consider caching the node's answer
    /// (whose text, before the user's `id` was put back, is `answer`).
    ReplyAndCache { reply: String, answer: String },
}

/// Finishes a user's call with the node's answer `content` from node
/// `node_id`: for a subscription request, registers the subscription the
/// node made and subscribes the user to it; then answers the user with the
/// node's answer carrying the user's `id`.
pub fn ws_call_finish<U>(
    call: &JsonValue,
    content: JsonValue,
    node_id: usize,
    is_subscription: bool,
    id: JsonValue,
    user_id: u32,
    sub_data: &mut SubscriptionData<U>,
) -> (r: Result<WsCallEnd, WsError>)
    requires
        old(sub_data).wf(),
        is_object_or_null(content),
    ensures
        final(sub_data).wf(),
        final(sub_data).users_view() == old(sub_data).users_view(),
        is_subscription ==> match string_chars(field(content, "result"@)) {
            None => (r matches Ok(WsCallEnd::Reply(t)) && t@ == reply_text(
                "\"jsonrpc\":\"2.0\", \"id\":"@,
                id,
                ", \"error\": \"Bad Subscription ID!\""@,
            )) && final(sub_data).registrations() == old(sub_data).registrations()
                && final(sub_data).subscribers() == old(sub_data).subscribers(),
            Some(sub_id) => {
                let info = (node_id, sub_id);
                &&& final(sub_data).registrations() == old(sub_data).registrations().insert(
                    render(field(*call, "params"@)),
                    info,
                )
                &&& if (match array_items(field(*call, "params"@)) {
                    Some(items) => items.len() > 0,
                    None => false,
                }) {
                    &&& r matches Ok(WsCallEnd::Reply(t)) && exists|answer: JsonValue|
                        field_set(content, "id"@, id, answer) && t@ == render(answer)
                    &&& final(sub_data).subscribers() == old(sub_data).subscribers().insert(
                        info,
                        subscribers_of(old(sub_data).subscribers(), info).insert(user_id),
                    )
                } else {
                    &&& r matches Err(WsError::FailedParsing())
                    &&& final(sub_data).subscribers() == old(sub_data).subscribers()
                }
            },
        },
        !is_subscription ==> final(sub_data).registrations() == old(sub_data).registrations()
            && final(sub_data).subscribers() == old(sub_data).subscribers() && (r matches Ok(
            WsCallEnd::ReplyAndCache { reply, answer },
        ) && answer@ == render(content) && exists|a: JsonValue|
            field_set(content, "id"@, id, a) && reply@ == render(a)),
{
    if is_subscription {
        let sub_id = match content.get("result") {
            Some(v) => v.as_str(),
            None => None,
        };
        let sub_id = match sub_id {
            Some(s) => s.to_owned(),
            None => {
                return Ok(
                    WsCallEnd::Reply(
                        write_reply("\"jsonrpc\":\"2.0\", \"id\":", &id, ", \"error\": \"Bad Subscription ID!\""),
                    ),
                );
            },
        };
        sub_data.register_subscription(call, sub_id, node_id);
        match sub_data.subscribe_user(user_id, call) {
            Ok(_) => {},
            Err(e) => {
                return Err(e);
            },
        }
        Ok(WsCallEnd::Reply(cached_reply(content, id)))
    } else {
        let answer = content.render();
        let reply = cached_reply(content, id);
        Ok(WsCallEnd::ReplyAndCache { reply, answer })
    }
}

} // verus!
