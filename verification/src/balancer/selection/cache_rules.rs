//! Which requests and which answers may be cached.

use vstd::prelude::*;
use crate::text::{contains_bytes, contains_str, utf8};

verus! {

/// Texts whose presence in a request makes its answer change over time, or
/// makes it a subscription.
pub open spec fn method_blacklist() -> Seq<Seq<char>> {
    seq![
        "latest"@,
        "eth_blockNumber"@,
        "earliest"@,
        "safe"@,
        "finalized"@,
        "pending"@,
        "eth_subscribe"@,
        "eth_unsubscribe"@,
    ]
}

/// Texts whose presence in an answer marks it as an error or as empty.
pub open spec fn result_blacklist() -> Seq<Seq<char>> {
    seq!["error"@, "-32"@, "null"@]
}

/// None of `words` occurs in the bytes of `text`.
pub open spec fn free_of(text: Seq<char>, words: Seq<Seq<char>>) -> bool {
    forall|k: int| 0 <= k < words.len() ==> !contains_bytes(utf8(text), utf8(#[trigger] words[k]))
}

/// A request may be cached exactly when none of these eight words occurs in
/// its text: `latest`, `eth_blockNumber`, `earliest`, `safe`, `finalized`,
/// `pending`, `eth_subscribe` and `eth_unsubscribe`. Any other request,
/// such as an `eth_call` at a fixed block, may be cached.
pub proof fn lemma_method_blacklist_words(text: Seq<char>)
    ensures
        free_of(text, method_blacklist()) <==> (
            !contains_bytes(utf8(text), utf8("latest"@)) &&
            !contains_bytes(utf8(text), utf8("eth_blockNumber"@)) &&
            !contains_bytes(utf8(text), utf8("earliest"@)) &&
            !contains_bytes(utf8(text), utf8("safe"@)) &&
            !contains_bytes(utf8(text), utf8("finalized"@)) &&
            !contains_bytes(utf8(text), utf8("pending"@)) &&
            !contains_bytes(utf8(text), utf8("eth_subscribe"@)) &&
            !contains_bytes(utf8(text), utf8("eth_unsubscribe"@))
        ),
{
    let list = method_blacklist();
    assert(list[0] == "latest"@);
    assert(list[1] == "eth_blockNumber"@);
    assert(list[2] == "earliest"@);
    assert(list[3] == "safe"@);
    assert(list[4] == "finalized"@);
    assert(list[5] == "pending"@);
    assert(list[6] == "eth_subscribe"@);
    assert(list[7] == "eth_unsubscribe"@);
    assert(list.len() == 8);
}

/// An answer may be cached exactly when none of the words `error`, `-32`
/// and `null` occurs in its text.
pub proof fn lemma_result_blacklist_words(text: Seq<char>)
    ensures
        free_of(text, result_blacklist()) <==> (!contains_bytes(utf8(text), utf8("error"@)) && !contains_bytes(
            utf8(text),
            utf8("-32"@),
        ) && !contains_bytes(utf8(text), utf8("null"@))),
{
    let list = result_blacklist();
    assert(list[0] == "error"@);
    assert(list[1] == "-32"@);
    assert(list[2] == "null"@);
    assert(list.len() == 3);
}

/// Whether no word of `list` occurs in `rx`.
fn free_of_all(rx: &str, list: &Vec<&str>, words: Ghost<Seq<Seq<char>>>) -> (r: bool)
    requires
        list@.len() == words@.len(),
        forall|k: int| 0 <= k < list@.len() ==> list@[k]@ == words@[k],
    ensures
        r == free_of(rx@, words@),
{
    let mut i: usize = 0;
    while i < list.len()
        invariant
            i <= list@.len(),
            list@.len() == words@.len(),
            forall|k: int| 0 <= k < list@.len() ==> list@[k]@ == words@[k],
            forall|k: int| 0 <= k < i ==> !contains_bytes(utf8(rx@), utf8(#[trigger] words@[k])),
        decreases list@.len() - i,
    {
        if contains_str(rx, list[i]) {
            assert(contains_bytes(utf8(rx@), utf8(words@[i as int])));
            return false;
        }
        i = i + 1;
    }
    true
}

/// Whether a request may be cached: it names no block tag and is not a
/// block-number query or a subscription. The text is searched as a whole,
/// so that requests whose members come in another order are caught too.
pub fn cache_method(rx: &str) -> (r: bool)
    ensures
        r == free_of(rx@, method_blacklist()),
{
    let mut list: Vec<&str> = Vec::new();
    list.push("latest");
    list.push("eth_blockNumber");
    list.push("earliest");
    list.push("safe");
    list.push("finalized");
    list.push("pending");
    list.push("eth_subscribe");
    list.push("eth_unsubscribe");
    free_of_all(rx, &list, Ghost(method_blacklist()))
}

/// Whether an answer may be cached: it holds no error and no `null`.
pub fn cache_result(rx: &str) -> (r: bool)
    ensures
        r == free_of(rx@, result_blacklist()),
{
    let mut list: Vec<&str> = Vec::new();
    list.push("error");
    list.push("-32");
    list.push("null");
    free_of_all(rx, &list, Ghost(result_blacklist()))
}

} // verus!
