//! The block numbers that named block tags stand for.

use vstd::prelude::*;
use crate::json::{field, string_chars, JsonValue};
use crate::rpc::types::{hex_to_decimal, hex_value};
use crate::text::{dec_text, to_decimal_string};

verus! {

/// The block numbers that `latest`, `earliest`, `safe`, `finalized` and
/// `pending` currently stand for; 0 where none is known.
#[derive(Debug, Clone, Copy, PartialEq, Eq, Structural, Default)]
pub struct NamedBlocknumbers {
    pub latest: u64,
    pub earliest: u64,
    pub safe: u64,
    pub finalized: u64,
    pub pending: u64,
}

impl NamedBlocknumbers {
    /// All block numbers unknown (0).
    pub fn defualt() -> (r: NamedBlocknumbers)
        ensures
            r == (NamedBlocknumbers { latest: 0, earliest: 0, safe: 0, finalized: 0, pending: 0 }),
    {
        NamedBlocknumbers { latest: 0, earliest: 0, safe: 0, finalized: 0, pending: 0 }
    }
}

/// The finalized block: the highest number that the nodes reported, and 0
/// when none reported one (a node that timed out reports 0).
pub fn highest_finalized(reports: &Vec<u64>) -> (r: u64)
    ensures
        forall|i: int| 0 <= i < reports@.len() ==> reports@[i] <= r,
        r == 0 || exists|i: int| 0 <= i < reports@.len() && reports@[i] == r,
{
    let mut safe: u64 = 0;
    let mut i: usize = 0;
    while i < reports.len()
        invariant
            i <= reports@.len(),
            forall|k: int| 0 <= k < i ==> reports@[k] <= safe,
            safe == 0 || exists|k: int| 0 <= k < i && reports@[k] == safe,
        decreases reports@.len() - i,
    {
        if reports[i] > safe {
            safe = reports[i];
        }
        i = i + 1;
    }
    safe
}

/// The block number a `newHeads` subscription message announces, in
/// `params.result.number`.
pub open spec fn announced_head(sub: JsonValue) -> Option<int> {
    match string_chars(field(field(field(sub, "params"@), "result"@), "number"@)) {
        Some(t) => match hex_value(t) {
            Ok(n) => Some(n),
            Err(_) => None,
        },
        None => None,
    }
}

/// Reads the block number a `newHeads` subscription message announces;
/// `None` when it has none or it is no hexadecimal number.
pub fn new_head_number(sub: &JsonValue) -> (r: Option<u64>)
    ensures
        match r {
            Some(n) => announced_head(*sub) == Some(n as int),
            None => announced_head(*sub) is None,
        },
{
    let params = match sub.get("params") {
        Some(p) => p,
        None => &JsonValue::Null,
    };
    let result = match params.get("result") {
        Some(r) => r,
        None => &JsonValue::Null,
    };
    let number = match result.get("number") {
        Some(n) => n.as_str(),
        None => None,
    };
    match number {
        Some(t) => match hex_to_decimal(t) {
            Ok(n) => Some(n),
            Err(_) => None,
        },
        None => None,
    }
}

/// The request that subscribes user `user_id` to new heads:
/// `{"id":"<user_id>","jsonrpc":"2.0","method":"eth_subscribe","params":["newHeads"]}`
/// (the id is the user's number as a string).
pub fn new_heads_request(user_id: u32) -> (r: JsonValue)
    ensures
        r matches JsonValue::Object(m) && (m@.len() == 4 && m@[0].0@ == "id"@ && string_chars(m@[0].1) == Some(
            dec_text(user_id as nat),
        ) && m@[1].0@ == "jsonrpc"@ && string_chars(m@[1].1) == Some("2.0"@) && m@[2].0@ == "method"@
            && string_chars(m@[2].1) == Some("eth_subscribe"@) && m@[3].0@ == "params"@ && (m@[3].1 matches JsonValue::Array(
            p,
        ) && p@.len() == 1 && string_chars(p@[0]) == Some("newHeads"@))),
{
    let mut params: Vec<JsonValue> = Vec::new();
    params.push(JsonValue::Str("newHeads".to_string()));
    let mut members: Vec<(String, JsonValue)> = Vec::new();
    members.push(("id".to_string(), JsonValue::Str(to_decimal_string(user_id as u128))));
    members.push(("jsonrpc".to_string(), JsonValue::Str("2.0".to_string())));
    members.push(("method".to_string(), JsonValue::Str("eth_subscribe".to_string())));
    members.push(("params".to_string(), JsonValue::Array(params)));
    JsonValue::Object(members)
}

} // verus!
