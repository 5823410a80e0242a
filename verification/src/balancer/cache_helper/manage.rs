//! Which block a cached request is about, and where its answer lives.

use vstd::prelude::*;
use crate::json::{array_items, element, field, is_plain_char, lemma_escape_plain, render, string_chars, JsonValue};
use crate::rpc::types::{hex_to_decimal, hex_value};
use crate::text::{contains_bytes, contains_str, lemma_name_in_quotes, remove_char, str_eq, underscore_name, utf8, without_char};

verus! {

/// The methods whose requests name a block, with the index of the
/// parameter that does, in the order they are looked for.
pub open spec fn block_methods() -> Seq<(Seq<char>, usize)> {
    seq![
        ("eth_getBalance"@, 1usize),
        ("eth_getStorageAt"@, 2usize),
        ("eth_getTransactionCount"@, 1usize),
        ("eth_getBlockTransactionCountByNumber"@, 0usize),
        ("eth_getUncleCountByBlockNumber"@, 0usize),
        ("eth_getCode"@, 1usize),
        ("eth_call"@, 1usize),
        ("eth_getBlockByNumber"@, 0usize),
        ("eth_getTransactionByBlockNumberAndIndex"@, 0usize),
        ("eth_getUncleByBlockNumberAndIndex"@, 0usize),
    ]
}

/// The parameter index of the first listed method whose name occurs in the
/// bytes of `method` (the compact text of a request's `method`).
pub open spec fn first_listed(method: Seq<char>, list: Seq<(Seq<char>, usize)>) -> Option<usize>
    decreases list.len(),
{
    if list.len() == 0 {
        None
    } else if contains_bytes(utf8(method), utf8(list[0].0)) {
        Some(list[0].1)
    } else {
        first_listed(method, list.drop_first())
    }
}

/// The block parameter of a request, quotes taken out; `None` when the
/// request has no parameters, names no listed method, or the parameter is
/// missing (`null`).
pub open spec fn block_text(tx: JsonValue) -> Option<Seq<char>> {
    let params = field(tx, "params"@);
    if array_items(params)->0.len() == 0 {
        None
    } else {
        match first_listed(render(field(tx, "method"@)), block_methods()) {
            None => None,
            Some(pos) => {
                let text = without_char(render(element(params, pos as int)), '"');
                if text == "null"@ {
                    None
                } else {
                    Some(text)
                }
            },
        }
    }
}

/// The listed methods, as the search uses them.
fn listed_methods() -> (v: Vec<(&'static str, usize)>)
    ensures
        v@.len() == block_methods().len(),
        forall|i: int| 0 <= i < v@.len() ==> v@[i].0@ == block_methods()[i].0 && v@[i].1 == block_methods()[i].1,
{
    let mut v: Vec<(&'static str, usize)> = Vec::new();
    v.push(("eth_getBalance", 1));
    v.push(("eth_getStorageAt", 2));
    v.push(("eth_getTransactionCount", 1));
    v.push(("eth_getBlockTransactionCountByNumber", 0));
    v.push(("eth_getUncleCountByBlockNumber", 0));
    v.push(("eth_getCode", 1));
    v.push(("eth_call", 1));
    v.push(("eth_getBlockByNumber", 0));
    v.push(("eth_getTransactionByBlockNumberAndIndex", 0));
    v.push(("eth_getUncleByBlockNumberAndIndex", 0));
    v
}

/// The block parameter of a request, as text without quotes; `None` when
/// there is none. Requests must have their parameters as an array.
pub fn get_block_number_from_request(tx: JsonValue) -> (r: Option<String>)
    requires
        array_items(field(tx, "params"@)) is Some,
    ensures
        match r {
            Some(s) => block_text(tx) == Some(s@),
            None => block_text(tx) is None,
        },
{
    let params = match tx.get("params") {
        Some(p) => p,
        None => {
            return None;
        },
    };
    match params.as_array() {
        Some(items) => {
            if items.len() == 0 {
                return None;
            }
        },
        None => {
            return None;
        },
    }
    let method_text = match tx.get("method") {
        Some(m) => m.render(),
        None => JsonValue::Null.render(),
    };
    let methods = listed_methods();
    let mut i: usize = 0;
    assert(block_methods().skip(0) =~= block_methods());
    while i < methods.len()
        invariant
            i <= methods@.len(),
            methods@.len() == block_methods().len(),
            forall|k: int| 0 <= k < methods@.len() ==> methods@[k].0@ == block_methods()[k].0 && methods@[k].1
                == block_methods()[k].1,
            method_text@ == render(field(tx, "method"@)),
            *params == field(tx, "params"@),
            array_items(*params)->0.len() > 0,
            first_listed(method_text@, block_methods()) == first_listed(method_text@, block_methods().skip(i as int)),
        decreases methods@.len() - i,
    {
        let ghost rest = block_methods().skip(i as int);
        assert(rest[0] == block_methods()[i as int]);
        if contains_str(method_text.as_str(), methods[i].0) {
            let pos = methods[i].1;
            let rendered = match params.index(pos) {
                Some(v) => v.render(),
                None => JsonValue::Null.render(),
            };
            let block_number = remove_char(rendered.as_str(), '"');
            if str_eq(block_number.as_str(), "null") {
                return None;
            }
            return Some(block_number);
        }
        assert(rest.drop_first() =~= block_methods().skip(i + 1));
        i = i + 1;
    }
    None
}

/// Where the answer to a request is looked up or stored.
#[derive(Debug, Clone, Copy, PartialEq, Eq, Structural)]
pub enum CacheLocation {
    /// The request names no block.
    NoBlock,
    /// Its block parameter is no hexadecimal number (a tag such as
    /// `latest`): not cached.
    Unreadable,
    /// Its block is final: the database.
    Database,
    /// Its block is not final yet: the head cache, under that block.
    HeadCache(u64),
}

/// Where the answer to a request lives, given the finalized block.
pub open spec fn cache_location(tx: JsonValue, finalized: u64) -> CacheLocation {
    match block_text(tx) {
        None => CacheLocation::NoBlock,
        Some(t) => match hex_value(t) {
            Err(_) => CacheLocation::Unreadable,
            Ok(n) => if n < finalized {
                CacheLocation::Database
            } else {
                CacheLocation::HeadCache(n as u64)
            },
        },
    }
}

/// A request about a block below the finalized one has its answer in the
/// database; one about the finalized block or a later one, in the head
/// cache under that block; one whose block parameter is no hexadecimal
/// number is not cached; one that names no block has no block location.
pub proof fn lemma_location_by_finality(tx: JsonValue, finalized: u64)
    ensures
        block_text(tx) is None ==> cache_location(tx, finalized) == CacheLocation::NoBlock,
        block_text(tx) matches Some(t) ==> (hex_value(t) is Err ==> cache_location(tx, finalized)
            == CacheLocation::Unreadable),
        block_text(tx) matches Some(t) ==> (hex_value(t) matches Ok(n) ==> (n < finalized ==> cache_location(
            tx,
            finalized,
        ) == CacheLocation::Database) && (n >= finalized ==> cache_location(tx, finalized)
            == CacheLocation::HeadCache(n as u64))),
{
}

/// Where the answer to a request is looked up (when getting) or stored
/// (when inserting).
pub fn locate_cache(tx: JsonValue, finalized: u64) -> (r: CacheLocation)
    requires
        array_items(field(tx, "params"@)) is Some,
    ensures
        r == cache_location(tx, finalized),
{
    let text = match get_block_number_from_request(tx) {
        Some(t) => t,
        None => {
            return CacheLocation::NoBlock;
        },
    };
    match hex_to_decimal(text.as_str()) {
        Err(_) => CacheLocation::Unreadable,
        Ok(n) => if n < finalized {
            CacheLocation::Database
        } else {
            CacheLocation::HeadCache(n)
        },
    }
}

/// Each listed method's name is a plain name with its underscore fourth.
proof fn lemma_listed_names_shaped()
    ensures
        forall|k: int| 0 <= k < block_methods().len() ==> underscore_name(#[trigger] block_methods()[k].0),
{
    reveal_strlit("eth_getBalance");
    reveal_strlit("eth_getStorageAt");
    reveal_strlit("eth_getTransactionCount");
    reveal_strlit("eth_getBlockTransactionCountByNumber");
    reveal_strlit("eth_getUncleCountByBlockNumber");
    reveal_strlit("eth_getCode");
    reveal_strlit("eth_call");
    reveal_strlit("eth_getBlockByNumber");
    reveal_strlit("eth_getTransactionByBlockNumberAndIndex");
    reveal_strlit("eth_getUncleByBlockNumberAndIndex");
}

/// The first listed method found in `h` is entry `j`, when no earlier one
/// occurs in it and entry `j` does.
proof fn lemma_first_listed_at(h: Seq<char>, list: Seq<(Seq<char>, usize)>, j: int)
    requires
        0 <= j < list.len(),
        forall|i: int| 0 <= i < j ==> !contains_bytes(utf8(h), utf8(#[trigger] list[i].0)),
        contains_bytes(utf8(h), utf8(list[j].0)),
    ensures
        first_listed(h, list) == Some(list[j].1),
    decreases j,
{
    if j > 0 {
        assert(!contains_bytes(utf8(h), utf8(list[0].0)));
        let rest = list.drop_first();
        assert forall|i: int| 0 <= i < j - 1 implies !contains_bytes(utf8(h), utf8(#[trigger] rest[i].0)) by {
            assert(rest[i] == list[i + 1]);
        }
        assert(rest[j - 1] == list[j]);
        lemma_first_listed_at(h, rest, j - 1);
    }
}

/// A request naming listed method `k` exactly is found as that method.
proof fn lemma_listed_method_found(m: Seq<char>, k: int)
    requires
        0 <= k < block_methods().len(),
        m == block_methods()[k].0,
    ensures
        first_listed(seq!['"'] + m + seq!['"'], block_methods()) == Some(block_methods()[k].1),
{
    reveal_strlit("eth_getBalance");
    reveal_strlit("eth_getStorageAt");
    reveal_strlit("eth_getTransactionCount");
    reveal_strlit("eth_getBlockTransactionCountByNumber");
    reveal_strlit("eth_getUncleCountByBlockNumber");
    reveal_strlit("eth_getCode");
    reveal_strlit("eth_call");
    reveal_strlit("eth_getBlockByNumber");
    reveal_strlit("eth_getTransactionByBlockNumberAndIndex");
    reveal_strlit("eth_getUncleByBlockNumberAndIndex");
    lemma_listed_names_shaped();
    let list = block_methods();
    let h = seq!['"'] + m + seq!['"'];
    assert forall|i: int| 0 <= i <= k implies (contains_bytes(utf8(h), utf8(#[trigger] list[i].0)) <==> (
        list[i].0.len() <= m.len() && m.take(list[i].0.len() as int) == list[i].0)) by {
        lemma_name_in_quotes(m, list[i].0);
    }
    assert(m.take(m.len() as int) =~= m);
    if k == 0 {
    } else if k == 1 {
        assert("eth_getStorageAt"@[7] != "eth_getBalance"@[7]);
        assert(m.take(14) != "eth_getBalance"@) by { assert(m.take(14)[7] == m[7]); }
    } else if k == 2 {
        assert("eth_getTransactionCount"@[7] != "eth_getBalance"@[7]);
        assert(m.take(14) != "eth_getBalance"@) by { assert(m.take(14)[7] == m[7]); }
        assert("eth_getTransactionCount"@[7] != "eth_getStorageAt"@[7]);
        assert(m.take(16) != "eth_getStorageAt"@) by { assert(m.take(16)[7] == m[7]); }
    } else if k == 3 {
        assert("eth_getBlockTransactionCountByNumber"@[8] != "eth_getBalance"@[8]);
        assert(m.take(14) != "eth_getBalance"@) by { assert(m.take(14)[8] == m[8]); }
        assert("eth_getBlockTransactionCountByNumber"@[7] != "eth_getStorageAt"@[7]);
        assert(m.take(16) != "eth_getStorageAt"@) by { assert(m.take(16)[7] == m[7]); }
        assert("eth_getBlockTransactionCountByNumber"@[7] != "eth_getTransactionCount"@[7]);
        assert(m.take(23) != "eth_getTransactionCount"@) by { assert(m.take(23)[7] == m[7]); }
    } else if k == 4 {
        assert("eth_getUncleCountByBlockNumber"@[7] != "eth_getBalance"@[7]);
        assert(m.take(14) != "eth_getBalance"@) by { assert(m.take(14)[7] == m[7]); }
        assert("eth_getUncleCountByBlockNumber"@[7] != "eth_getStorageAt"@[7]);
        assert(m.take(16) != "eth_getStorageAt"@) by { assert(m.take(16)[7] == m[7]); }
        assert("eth_getUncleCountByBlockNumber"@[7] != "eth_getTransactionCount"@[7]);
        assert(m.take(23) != "eth_getTransactionCount"@) by { assert(m.take(23)[7] == m[7]); }
    } else if k == 5 {
    } else if k == 6 {
    } else if k == 7 {
        assert("eth_getBlockByNumber"@[8] != "eth_getBalance"@[8]);
        assert(m.take(14) != "eth_getBalance"@) by { assert(m.take(14)[8] == m[8]); }
        assert("eth_getBlockByNumber"@[7] != "eth_getStorageAt"@[7]);
        assert(m.take(16) != "eth_getStorageAt"@) by { assert(m.take(16)[7] == m[7]); }
        assert("eth_getBlockByNumber"@[7] != "eth_getCode"@[7]);
        assert(m.take(11) != "eth_getCode"@) by { assert(m.take(11)[7] == m[7]); }
        assert("eth_getBlockByNumber"@[4] != "eth_call"@[4]);
        assert(m.take(8) != "eth_call"@) by { assert(m.take(8)[4] == m[4]); }
    } else if k == 8 {
        assert("eth_getTransactionByBlockNumberAndIndex"@[7] != "eth_getBalance"@[7]);
        assert(m.take(14) != "eth_getBalance"@) by { assert(m.take(14)[7] == m[7]); }
        assert("eth_getTransactionByBlockNumberAndIndex"@[7] != "eth_getStorageAt"@[7]);
        assert(m.take(16) != "eth_getStorageAt"@) by { assert(m.take(16)[7] == m[7]); }
        assert("eth_getTransactionByBlockNumberAndIndex"@[18] != "eth_getTransactionCount"@[18]);
        assert(m.take(23) != "eth_getTransactionCount"@) by { assert(m.take(23)[18] == m[18]); }
        assert("eth_getTransactionByBlockNumberAndIndex"@[7] != "eth_getBlockTransactionCountByNumber"@[7]);
        assert(m.take(36) != "eth_getBlockTransactionCountByNumber"@) by { assert(m.take(36)[7] == m[7]); }
        assert("eth_getTransactionByBlockNumberAndIndex"@[7] != "eth_getUncleCountByBlockNumber"@[7]);
        assert(m.take(30) != "eth_getUncleCountByBlockNumber"@) by { assert(m.take(30)[7] == m[7]); }
        assert("eth_getTransactionByBlockNumberAndIndex"@[7] != "eth_getCode"@[7]);
        assert(m.take(11) != "eth_getCode"@) by { assert(m.take(11)[7] == m[7]); }
        assert("eth_getTransactionByBlockNumberAndIndex"@[4] != "eth_call"@[4]);
        assert(m.take(8) != "eth_call"@) by { assert(m.take(8)[4] == m[4]); }
        assert("eth_getTransactionByBlockNumberAndIndex"@[7] != "eth_getBlockByNumber"@[7]);
        assert(m.take(20) != "eth_getBlockByNumber"@) by { assert(m.take(20)[7] == m[7]); }
    } else if k == 9 {
        assert("eth_getUncleByBlockNumberAndIndex"@[7] != "eth_getBalance"@[7]);
        assert(m.take(14) != "eth_getBalance"@) by { assert(m.take(14)[7] == m[7]); }
        assert("eth_getUncleByBlockNumberAndIndex"@[7] != "eth_getStorageAt"@[7]);
        assert(m.take(16) != "eth_getStorageAt"@) by { assert(m.take(16)[7] == m[7]); }
        assert("eth_getUncleByBlockNumberAndIndex"@[7] != "eth_getTransactionCount"@[7]);
        assert(m.take(23) != "eth_getTransactionCount"@) by { assert(m.take(23)[7] == m[7]); }
        assert("eth_getUncleByBlockNumberAndIndex"@[12] != "eth_getUncleCountByBlockNumber"@[12]);
        assert(m.take(30) != "eth_getUncleCountByBlockNumber"@) by { assert(m.take(30)[12] == m[12]); }
        assert("eth_getUncleByBlockNumberAndIndex"@[7] != "eth_getCode"@[7]);
        assert(m.take(11) != "eth_getCode"@) by { assert(m.take(11)[7] == m[7]); }
        assert("eth_getUncleByBlockNumberAndIndex"@[4] != "eth_call"@[4]);
        assert(m.take(8) != "eth_call"@) by { assert(m.take(8)[4] == m[4]); }
        assert("eth_getUncleByBlockNumberAndIndex"@[7] != "eth_getBlockByNumber"@[7]);
        assert(m.take(20) != "eth_getBlockByNumber"@) by { assert(m.take(20)[7] == m[7]); }
    }
    lemma_first_listed_at(h, list, k);
}

/// The block parameter of a request for a listed method, named exactly, is
/// its parameter at the index the method's JSON-RPC definition gives:
/// after the address for `eth_getBalance`, `eth_getTransactionCount` and
/// `eth_getCode`, after the call object for `eth_call`, after the address
/// and the slot for `eth_getStorageAt`, and first for the methods that
/// take a block number.
pub proof fn lemma_block_parameter_index(tx: JsonValue, method: Seq<char>, index: int)
    requires
        string_chars(field(tx, "method"@)) == Some(method),
        array_items(field(tx, "params"@)) matches Some(items) && items.len() > 0,
        ({
        ||| method == "eth_getBalance"@ && index == 1
        ||| method == "eth_getStorageAt"@ && index == 2
        ||| method == "eth_getTransactionCount"@ && index == 1
        ||| method == "eth_getBlockTransactionCountByNumber"@ && index == 0
        ||| method == "eth_getUncleCountByBlockNumber"@ && index == 0
        ||| method == "eth_getCode"@ && index == 1
        ||| method == "eth_call"@ && index == 1
        ||| method == "eth_getBlockByNumber"@ && index == 0
        ||| method == "eth_getTransactionByBlockNumberAndIndex"@ && index == 0
        ||| method == "eth_getUncleByBlockNumberAndIndex"@ && index == 0
        }),
    ensures
        ({
            let text = without_char(render(element(field(tx, "params"@), index)), '"');
            block_text(tx) == if text == "null"@ {
                None
            } else {
                Some(text)
            }
        }),
{
    reveal_strlit("eth_getBalance");
    reveal_strlit("eth_getStorageAt");
    reveal_strlit("eth_getTransactionCount");
    reveal_strlit("eth_getBlockTransactionCountByNumber");
    reveal_strlit("eth_getUncleCountByBlockNumber");
    reveal_strlit("eth_getCode");
    reveal_strlit("eth_call");
    reveal_strlit("eth_getBlockByNumber");
    reveal_strlit("eth_getTransactionByBlockNumberAndIndex");
    reveal_strlit("eth_getUncleByBlockNumberAndIndex");
    let list = block_methods();
    let k: int = if method == list[0].0 {
        0
    } else if method == list[1].0 {
        1
    } else if method == list[2].0 {
        2
    } else if method == list[3].0 {
        3
    } else if method == list[4].0 {
        4
    } else if method == list[5].0 {
        5
    } else if method == list[6].0 {
        6
    } else if method == list[7].0 {
        7
    } else if method == list[8].0 {
        8
    } else {
        9
    };
    assert(method == list[k].0 && list[k].1 == index);
    lemma_listed_names_shaped();
    assert forall|i: int| 0 <= i < method.len() implies is_plain_char(#[trigger] method[i]) by {
        assert(underscore_name(list[k].0));
    }
    lemma_escape_plain(method);
    lemma_listed_method_found(method, k);
}

} // verus!
