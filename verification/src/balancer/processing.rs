//! Deciding whether an answer is cached, and where its key is recorded.

use vstd::prelude::*;
use std::collections::BTreeMap;
use crate::balancer::format::{get_block_number_from_request, requested_block};
use crate::balancer::selection::cache_rules::{
    cache_method, cache_result, free_of, method_blacklist, result_blacklist,
};
use crate::health::safe_block::NamedBlocknumbers;
use crate::json::{field_set, has_member, JsonValue};

verus! {

/// Whether the answer `result` to the request `method` may be cached.
pub fn can_cache(method: &str, result: &str) -> (r: bool)
    ensures
        r == (free_of(method@, method_blacklist()) && free_of(result@, result_blacklist())),
{
    if cache_method(method) && cache_result(result) {
        return true;
    }
    false
}

/// What to do with an answer that may be cached.
#[derive(Debug, Clone, Copy, PartialEq, Eq, Structural)]
pub enum CachePlan {
    /// It is not cached.
    Skip,
    /// It is stored in the database; when the block it is about is not yet
    /// final, its key is also recorded under that block in the head cache.
    Store { head_block: Option<u64> },
}

/// The plan for an answer to a request that may be cached: answers about
/// no known block are not stored.
pub open spec fn cache_plan(tx: JsonValue, named: NamedBlocknumbers, finalized: u64) -> CachePlan {
    match requested_block(tx, named) {
        None => CachePlan::Skip,
        Some(num) => CachePlan::Store { head_block: if num > finalized { Some(num) } else { None } },
    }
}

/// An answer about a readable block is stored, and its key is recorded in
/// the head cache under that block exactly when the block is above the
/// finalized one (so that a reorg can still take it out); an answer about
/// no readable block is not stored.
pub proof fn lemma_head_cache_above_finalized(tx: JsonValue, named: NamedBlocknumbers, finalized: u64)
    ensures
        requested_block(tx, named) is None ==> cache_plan(tx, named, finalized) == CachePlan::Skip,
        requested_block(tx, named) matches Some(num) ==> cache_plan(tx, named, finalized) matches CachePlan::Store {
            head_block,
        } && (head_block is Some <==> num > finalized) && (head_block is Some ==> head_block == Some(num)),
{
}

/// Decides whether and where the answer `rx` to the request `method` (whose
/// compact text is `tx_text`) is cached, given the finalized block.
pub fn plan_cache_query(
    rx: &str,
    tx_text: &str,
    method: JsonValue,
    named_blocknumbers: &NamedBlocknumbers,
    finalized: u64,
) -> (r: CachePlan)
    ensures
        r == if free_of(tx_text@, method_blacklist()) && free_of(rx@, result_blacklist()) {
            cache_plan(method, *named_blocknumbers, finalized)
        } else {
            CachePlan::Skip
        },
        r matches CachePlan::Store { head_block } ==> requested_block(method, *named_blocknumbers) matches Some(num)
            && (head_block is Some <==> num > finalized) && (head_block is Some ==> head_block == Some(num)),
{
    if !can_cache(tx_text, rx) {
        return CachePlan::Skip;
    }
    match get_block_number_from_request(method, named_blocknumbers) {
        None => CachePlan::Skip,
        Some(num) => {
            if num > finalized {
                CachePlan::Store { head_block: Some(num) }
            } else {
                CachePlan::Store { head_block: None }
            }
        },
    }
}

/// The keys recorded under `block` in a head cache.
pub open spec fn recorded(m: Map<u64, Vec<[u8; 32]>>, block: u64) -> Seq<[u8; 32]> {
    if m.contains_key(block) {
        m[block]@
    } else {
        Seq::empty()
    }
}

/// Records the cache key `key` under block `num` in the head cache, after
/// the keys already there.
pub fn record_in_head_cache(head_cache: &mut BTreeMap<u64, Vec<[u8; 32]>>, num: u64, key: [u8; 32])
    ensures
        final(head_cache)@.dom() == old(head_cache)@.dom().insert(num),
        forall|b: u64| b != num && old(head_cache)@.contains_key(b) ==> final(head_cache)@[b] == old(head_cache)@[b],
        final(head_cache)@[num]@ == recorded(old(head_cache)@, num).push(key),
{
    broadcast use vstd::std_specs::btree::group_btree_axioms;

    proof {
        crate::health::head_cache::lemma_block_keys_ordered();
    }
    let mut keys = match head_cache.remove(&num) {
        Some(v) => v,
        None => Vec::new(),
    };
    keys.push(key);
    head_cache.insert(num, keys);
}

/// Clears the `id` of an answer before it is stored, so that the stored
/// answer serves any later request; `false`, with the answer unchanged,
/// when it has no `id` (such answers are errors and are not stored).
pub fn clear_id(rx: &mut JsonValue) -> (r: bool)
    ensures
        r == (*old(rx) matches JsonValue::Object(m) && has_member(m@, "id"@)),
        r ==> field_set(*old(rx), "id"@, JsonValue::Null, *final(rx)),
        !r ==> *final(rx) == *old(rx),
{
    match rx.member_position("id") {
        Some(_) => {
            rx.set_field("id", JsonValue::Null);
            true
        },
        None => false,
    }
}

/// The node whose latency a finished request updates: the one at
/// `rpc_position`, or the last node when the list has shrunk since;
/// `None` for an empty list.
pub fn latency_index(len: usize, rpc_position: usize) -> (r: Option<usize>)
    ensures
        r == if len == 0 {
            None
        } else if rpc_position >= len {
            Some((len - 1) as usize)
        } else {
            Some(rpc_position)
        },
{
    if len == 0 {
        None
    } else if rpc_position >= len {
        Some(len - 1)
    } else {
        Some(rpc_position)
    }
}

} // verus!
