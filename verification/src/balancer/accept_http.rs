//! The HTTP side of the balancer: what a request is answered when it cannot
//! be served, and the framing of a request before it is served.

use vstd::prelude::*;
use crate::json::{field, field_set, is_object_or_null, json_u64, render, JsonValue};
use crate::text::{dec_text, hex_text, str_eq};
use crate::balancer::format::{param_replaced, replace_block_tags, tag_rewrite};
use crate::health::safe_block::NamedBlocknumbers;

verus! {

/// The 32 bytes of the BLAKE3 hash of the UTF-8 bytes of a text.
pub uninterp spec fn blake3_digest(text: Seq<char>) -> Seq<u8>;

/// Calls `blake3::hash` on the bytes of `text` and returns the hash's 32
/// bytes (`Hash::as_bytes`); the result is named `blake3_digest`.
#[verifier::external_body]
fn hash_bytes(text: &str) -> (r: [u8; 32])
    ensures
        r@ == blake3_digest(text@),
{
    *blake3::hash(text.as_bytes()).as_bytes()
}

/// The key a request's answer is cached under: the hash of the request's
/// compact text (taken after its id was taken out).
pub fn cache_key(tx: &JsonValue) -> (r: [u8; 32])
    ensures
        r@ == blake3_digest(render(*tx)),
{
    let text = tx.render();
    hash_bytes(text.as_str())
}

/// The settings a request is served with.
#[derive(Debug, Clone, Copy, PartialEq, Eq, Structural)]
pub struct RequestParams {
    /// How long to wait for a node, in milliseconds.
    pub ttl: u128,
    /// How many timed-out attempts a request gets.
    pub max_retries: u32,
    /// Whether requests must say they hold JSON.
    pub header_check: bool,
}

/// A refusal: status code and body.
pub type Refusal = (u16, &'static str);

/// The answer to a request whose `content-type` is not `application/json`
/// while the header check is on; `None` when the request may go on.
pub fn check_content_type(params: &RequestParams, content_type: Option<&str>) -> (r: Option<Refusal>)
    ensures
        match r {
            Some(x) => params.header_check && !(content_type matches Some(t) && t@ == "application/json"@)
                && x.0 == 400 && x.1@ == "Improper content-type header"@,
            None => !params.header_check || (content_type matches Some(t) && t@ == "application/json"@),
        },
{
    if !params.header_check {
        return None;
    }
    let ok = match content_type {
        Some(t) => str_eq(t, "application/json"),
        None => false,
    };
    if ok {
        None
    } else {
        Some((400, "Improper content-type header"))
    }
}

/// The answer when no node is available.
pub fn no_rpc_available() -> (r: Refusal)
    ensures
        r.0 == 500 && r.1@ == "{code:-32002, message:\"error: No working RPC available! Try again later...\"}"@,
{
    (500, "{code:-32002, message:\"error: No working RPC available! Try again later...\"}")
}

/// The answer when every attempt timed out.
pub fn timed_out() -> (r: Refusal)
    ensures
        r.0 == 408 && r.1@ == "{code:-32001, message:\"error: Request timed out! Try again later...\"}"@,
{
    (408, "{code:-32001, message:\"error: Request timed out! Try again later...\"}")
}

/// The answer when the cache failed.
pub fn cache_error() -> (r: Refusal)
    ensures
        r.0 == 500 && r.1@ == "{code:-32003, message:\"error: Cache error! Try again later...\"}"@,
{
    (500, "{code:-32003, message:\"error: Cache error! Try again later...\"}")
}

/// The answer to a WebSocket upgrade when WebSockets are off.
pub fn websockets_disabled() -> (r: Refusal)
    ensures
        r.0 == 500 && r.1@ == "{code:-32005, message:\"error: WebSockets are disabled!\"}"@,
{
    (500, "{code:-32005, message:\"error: WebSockets are disabled!\"}")
}

/// The answer when a WebSocket upgrade failed.
pub fn websocket_upgrade_error() -> (r: Refusal)
    ensures
        r.0 == 500 && r.1@ == "{code:-32004, message:\"error: Websocket upgrade error! Try again later...\"}"@,
{
    (500, "{code:-32004, message:\"error: Websocket upgrade error! Try again later...\"}")
}

/// Takes the `id` out of a request before it is hashed (the id does not
/// change the answer): the request keeps `null` in its place, and the id is
/// returned as a number (0 when it is none).
pub fn take_request_id(tx: &mut JsonValue) -> (r: u64)
    requires
        is_object_or_null(*old(tx)),
    ensures
        r == match json_u64(field(*old(tx), "id"@)) {
            Some(n) => n,
            None => 0,
        },
        field_set(*old(tx), "id"@, JsonValue::Null, *final(tx)),
{
    let id = tx.take_field("id");
    match id.as_u64() {
        Some(n) => n,
        None => 0,
    }
}

/// The text of a cached answer given back to a request with id `id`.
pub fn cached_response(cached: JsonValue, id: u64) -> (r: String)
    requires
        is_object_or_null(cached),
    ensures
        exists|answer: JsonValue, num: JsonValue|
            (num matches JsonValue::Number(t) && t@ == dec_text(id as nat)) && field_set(cached, "id"@, num, answer)
                && r@ == render(answer),
{
    let mut answer = cached;
    let num = JsonValue::from_u64(id);
    answer.set_field("id", num);
    answer.render()
}

/// Whether a request has used up its attempts after `retries` timeouts.
pub fn out_of_retries(retries: u32, max_retries: u32) -> (r: bool)
    ensures
        r == (retries == max_retries),
{
    retries == max_retries
}

/// Readies a request to be served: takes its id out (returned, 0 when it
/// has none usable), computes its cache key (on the request without its
/// id, before any block tag is rewritten), and rewrites its block tag.
pub fn frame_request(tx: &mut JsonValue, named_blocknumbers: &NamedBlocknumbers) -> (r: (u64, [u8; 32]))
    requires
        is_object_or_null(*old(tx)),
    ensures
        r.0 == match json_u64(field(*old(tx), "id"@)) {
            Some(n) => n,
            None => 0,
        },
        exists|cleared: JsonValue| #![trigger render(cleared)]
            {
                &&& field_set(*old(tx), "id"@, JsonValue::Null, cleared)
                &&& r.1@ == blake3_digest(render(cleared))
                &&& match tag_rewrite(cleared, *named_blocknumbers) {
                    None => *final(tx) == cleared,
                    Some((pos, n)) => param_replaced(cleared, pos, seq!['0', 'x'] + hex_text(n as nat), *final(tx)),
                }
            },
{
    let id = take_request_id(tx);
    let key = cache_key(tx);
    replace_block_tags(tx, named_blocknumbers);
    (id, key)
}

} // verus!
