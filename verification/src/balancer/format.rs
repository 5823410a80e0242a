//! Reading and rewriting the block number a request asks about.

use vstd::prelude::*;
use crate::health::safe_block::NamedBlocknumbers;
use crate::json::{array_items, element, field, first_member, has_member, lemma_first_member_unique, render, string_chars, JsonValue};
use crate::rpc::method::{position_of_name, EthRpcMethod};
use crate::text::{
    chars_of, contains_bytes, contains_str, hex_text, parse_uint_from, remove_char, to_hex_string,
    lemma_utf8_ascii_len, lemma_utf8_len_at_least, lemma_without_absent, uint_value, utf8,
    utf8_char, without_char, lemma_hex_text_digits, lemma_hex_text_value, lemma_lower_hex_digit_value,
    lower_hex_digit,
};

verus! {

/// A block tag found in a parameter.
#[derive(Debug, Clone, Copy, PartialEq, Eq, Structural)]
pub enum NamedNumber {
    Latest,
    Earliest,
    Safe,
    Finalized,
    Pending,
    Null,
}

/// The first tag, in the order `latest`, `earliest`, `safe`, `finalized`,
/// `pending`, whose bytes occur in the bytes of `s`; `Null` when none does.
pub open spec fn named_number(s: Seq<char>) -> NamedNumber {
    let b = utf8(s);
    if contains_bytes(b, utf8("latest"@)) {
        NamedNumber::Latest
    } else if contains_bytes(b, utf8("earliest"@)) {
        NamedNumber::Earliest
    } else if contains_bytes(b, utf8("safe"@)) {
        NamedNumber::Safe
    } else if contains_bytes(b, utf8("finalized"@)) {
        NamedNumber::Finalized
    } else if contains_bytes(b, utf8("pending"@)) {
        NamedNumber::Pending
    } else {
        NamedNumber::Null
    }
}

/// The tag a parameter names is found by the words `latest`, `earliest`,
/// `safe`, `finalized` and `pending`, looked for in that order; a parameter
/// holding none of them names no tag.
pub proof fn lemma_tag_words(s: Seq<char>)
    ensures
        contains_bytes(utf8(s), utf8("latest"@)) ==> named_number(s) == NamedNumber::Latest,
        !contains_bytes(utf8(s), utf8("latest"@)) && contains_bytes(utf8(s), utf8("earliest"@)) ==> named_number(s)
            == NamedNumber::Earliest,
        !contains_bytes(utf8(s), utf8("latest"@)) && !contains_bytes(utf8(s), utf8("earliest"@)) && contains_bytes(
            utf8(s),
            utf8("safe"@),
        ) ==> named_number(s) == NamedNumber::Safe,
        !contains_bytes(utf8(s), utf8("latest"@)) && !contains_bytes(utf8(s), utf8("earliest"@)) && !contains_bytes(
            utf8(s),
            utf8("safe"@),
        ) && contains_bytes(utf8(s), utf8("finalized"@)) ==> named_number(s) == NamedNumber::Finalized,
        !contains_bytes(utf8(s), utf8("latest"@)) && !contains_bytes(utf8(s), utf8("earliest"@)) && !contains_bytes(
            utf8(s),
            utf8("safe"@),
        ) && !contains_bytes(utf8(s), utf8("finalized"@)) && contains_bytes(utf8(s), utf8("pending"@))
            ==> named_number(s) == NamedNumber::Pending,
        !contains_bytes(utf8(s), utf8("latest"@)) && !contains_bytes(utf8(s), utf8("earliest"@)) && !contains_bytes(
            utf8(s),
            utf8("safe"@),
        ) && !contains_bytes(utf8(s), utf8("finalized"@)) && !contains_bytes(utf8(s), utf8("pending"@))
            ==> named_number(s) == NamedNumber::Null,
{
}

/// The block tag that occurs in `param`, if any.
pub fn has_named_number(param: &str) -> (r: NamedNumber)
    ensures
        r == named_number(param@),
{
    if contains_str(param, "latest") {
        NamedNumber::Latest
    } else if contains_str(param, "earliest") {
        NamedNumber::Earliest
    } else if contains_str(param, "safe") {
        NamedNumber::Safe
    } else if contains_str(param, "finalized") {
        NamedNumber::Finalized
    } else if contains_str(param, "pending") {
        NamedNumber::Pending
    } else {
        NamedNumber::Null
    }
}

/// The block number a tag stands for.
pub open spec fn tag_value(named: NamedBlocknumbers, nn: NamedNumber) -> Option<u64> {
    match nn {
        NamedNumber::Latest => Some(named.latest),
        NamedNumber::Earliest => Some(named.earliest),
        NamedNumber::Safe => Some(named.safe),
        NamedNumber::Finalized => Some(named.finalized),
        NamedNumber::Pending => Some(named.pending),
        NamedNumber::Null => None,
    }
}

/// The index of the block-number parameter of a request's method.
pub open spec fn method_position(tx: JsonValue) -> Option<usize> {
    match string_chars(field(tx, "method"@)) {
        Some(s) => position_of_name(s),
        None => None,
    }
}

/// The parameters of a request, when they are a non-empty array.
pub open spec fn nonempty_params(tx: JsonValue) -> bool {
    match array_items(field(tx, "params"@)) {
        Some(items) => items.len() > 0,
        None => false,
    }
}

/// The text of parameter `pos` with its quotes taken out (`null` past the
/// end of the parameters).
pub open spec fn param_text(tx: JsonValue, pos: int) -> Seq<char> {
    without_char(render(element(field(tx, "params"@), pos)), '"')
}

/// How many bytes a character takes in UTF-8.
pub open spec fn utf8_width(c: char) -> int {
    utf8_char(c).len() as int
}

/// The text starts with characters that take exactly two bytes, so that
/// it can be cut after its second byte.
pub open spec fn has_two_byte_head(s: Seq<char>) -> bool {
    ||| s.len() >= 1 && utf8_width(s[0]) == 2
    ||| s.len() >= 2 && utf8_width(s[0]) == 1 && utf8_width(s[1]) == 1
}

/// The text after its first two bytes.
pub open spec fn after_two_bytes(s: Seq<char>) -> Seq<char> {
    if s.len() >= 1 && utf8_width(s[0]) == 2 {
        s.skip(1)
    } else {
        s.skip(2)
    }
}

/// The block number a request asks about: the value of a block tag in its
/// block parameter, or the parameter read as hexadecimal after its first
/// two bytes (`0x`); `None` for a request without such a parameter or with
/// one that does not read (such as a number shorter than two bytes).
pub open spec fn requested_block(tx: JsonValue, named: NamedBlocknumbers) -> Option<u64> {
    if !nonempty_params(tx) {
        None
    } else {
        match method_position(tx) {
            None => None,
            Some(pos) => {
                let text = param_text(tx, pos as int);
                let nn = named_number(text);
                if nn != NamedNumber::Null {
                    tag_value(named, nn)
                } else if has_two_byte_head(text) {
                    match uint_value(after_two_bytes(text), 16, u64::MAX as int) {
                        Ok(v) => Some(v as u64),
                        Err(_) => None,
                    }
                } else {
                    None
                }
            },
        }
    }
}

/// The block a request asks about is the number its block parameter's tag
/// stands for (each tag its own number), or, for a parameter written as
/// `0x` and lower-case hexadecimal digits, that number.
pub proof fn lemma_requested_block_of_parameter(tx: JsonValue, named: NamedBlocknumbers, pos: usize, n: u64)
    requires
        nonempty_params(tx),
        method_position(tx) == Some(pos),
    ensures
        ({
            let text = param_text(tx, pos as int);
            &&& named_number(text) == NamedNumber::Latest ==> requested_block(tx, named) == Some(named.latest)
            &&& named_number(text) == NamedNumber::Earliest ==> requested_block(tx, named) == Some(named.earliest)
            &&& named_number(text) == NamedNumber::Safe ==> requested_block(tx, named) == Some(named.safe)
            &&& named_number(text) == NamedNumber::Finalized ==> requested_block(tx, named) == Some(
                named.finalized,
            )
            &&& named_number(text) == NamedNumber::Pending ==> requested_block(tx, named) == Some(named.pending)
            &&& (named_number(text) == NamedNumber::Null && text == seq!['0', 'x'] + hex_text(n as nat))
                ==> requested_block(tx, named) == Some(n)
        }),
{
    let text = param_text(tx, pos as int);
    if named_number(text) == NamedNumber::Null && text == seq!['0', 'x'] + hex_text(n as nat) {
        let digits = hex_text(n as nat);
        assert(text[0] == '0' && text[1] == 'x');
        assert(utf8_width('0') == 1 && utf8_width('x') == 1);
        assert(has_two_byte_head(text));
        assert(after_two_bytes(text) =~= digits);
        lemma_hex_text_digits(n as nat);
        let d0 = choose|d: int| 0 <= d < 16 && digits[0] == lower_hex_digit(d);
        lemma_lower_hex_digit_value(d0);
        assert(digits[0] != '+');
        lemma_hex_text_value(n as nat, u64::MAX as int);
    }
}

/// The text of parameter `pos` of `params`, quotes taken out.
fn param_text_of(params: &JsonValue, pos: usize) -> (r: String)
    ensures
        r@ == without_char(render(element(*params, pos as int)), '"'),
{
    let rendered = match params.index(pos) {
        Some(v) => v.render(),
        None => JsonValue::Null.render(),
    };
    remove_char(rendered.as_str(), '"')
}

/// The width in bytes of a character in UTF-8.
fn char_width(c: char) -> (r: usize)
    ensures
        r == utf8_width(c),
{
    let v = c as u32;
    if v < 0x80 {
        1
    } else if v < 0x800 {
        2
    } else if v < 0x10000 {
        3
    } else {
        4
    }
}

/// The block number a request asks about, if it asks about one.
pub fn get_block_number_from_request(tx: JsonValue, named_blocknumbers: &NamedBlocknumbers) -> (r: Option<u64>)
    ensures
        r == requested_block(tx, *named_blocknumbers),
{
    let params = match tx.get("params") {
        Some(p) => p,
        None => {
            return None;
        },
    };
    match params.as_array() {
        Some(items) => {
            if items.len() == 0 {
                return None;
            }
        },
        None => {
            return None;
        },
    }
    let method = match tx.get("method") {
        Some(m) => m.as_str(),
        None => None,
    };
    let position = match EthRpcMethod::get_position(method) {
        Some(p) => p,
        None => {
            return None;
        },
    };
    let block_number = param_text_of(params, position);
    let nn = has_named_number(block_number.as_str());
    if nn != NamedNumber::Null {
        return match nn {
            NamedNumber::Latest => Some(named_blocknumbers.latest),
            NamedNumber::Earliest => Some(named_blocknumbers.earliest),
            NamedNumber::Safe => Some(named_blocknumbers.safe),
            NamedNumber::Finalized => Some(named_blocknumbers.finalized),
            NamedNumber::Pending => Some(named_blocknumbers.pending),
            NamedNumber::Null => None,
        };
    }
    let cs = chars_of(block_number.as_str());
    let readable = (cs.len() >= 1 && char_width(cs[0]) == 2) || (cs.len() >= 2 && char_width(cs[0]) == 1
        && char_width(cs[1]) == 1);
    if !readable {
        return None;
    }
    let from: usize = if char_width(cs[0]) == 2 {
        1
    } else {
        2
    };
    match parse_uint_from(&cs, from, 16, u64::MAX) {
        Ok(v) => Some(v),
        Err(_) => None,
    }
}

/// Where a request's block tag is rewritten, and to which number: the
/// block parameter of a request whose tag is `latest` or `finalized`, when
/// that number is known (not 0).
pub open spec fn tag_rewrite(tx: JsonValue, named: NamedBlocknumbers) -> Option<(int, u64)> {
    if !nonempty_params(tx) {
        None
    } else {
        match method_position(tx) {
            None => None,
            Some(pos) => {
                let nn = named_number(param_text(tx, pos as int));
                if nn == NamedNumber::Latest && named.latest != 0 {
                    Some((pos as int, named.latest))
                } else if nn == NamedNumber::Finalized && named.finalized != 0 {
                    Some((pos as int, named.finalized))
                } else {
                    None
                }
            },
        }
    }
}

/// Only the tags `latest` and `finalized` are rewritten, each into the
/// number it stands for when that number is known: a request whose block
/// parameter names `earliest`, `safe` or `pending`, or no tag, is left as
/// it is, and a rewrite always targets the method's block parameter.
pub proof fn lemma_only_latest_and_finalized_rewritten(tx: JsonValue, named: NamedBlocknumbers)
    ensures
        tag_rewrite(tx, named) matches Some((pos, n)) ==> {
            &&& nonempty_params(tx)
            &&& method_position(tx) == Some(pos as usize)
            &&& n != 0
            &&& {
                ||| named_number(param_text(tx, pos)) == NamedNumber::Latest && n == named.latest
                ||| named_number(param_text(tx, pos)) == NamedNumber::Finalized && n == named.finalized
            }
        },
        method_position(tx) matches Some(pos) ==> nonempty_params(tx) ==> {
            let nn = named_number(param_text(tx, pos as int));
            &&& (nn == NamedNumber::Earliest || nn == NamedNumber::Safe || nn == NamedNumber::Pending
                || nn == NamedNumber::Null) ==> tag_rewrite(tx, named) is None
            &&& nn == NamedNumber::Latest ==> tag_rewrite(tx, named) == if named.latest != 0 {
                Some((pos as int, named.latest))
            } else {
                None
            }
            &&& nn == NamedNumber::Finalized ==> tag_rewrite(tx, named) == if named.finalized != 0 {
                Some((pos as int, named.finalized))
            } else {
                None
            }
        },
        !(nonempty_params(tx) && method_position(tx) is Some) ==> tag_rewrite(tx, named) is None,
{
}

/// `new` is the request `old` with element `pos` of its `params` replaced
/// by the string `text`, and nothing else changed.
pub open spec fn param_replaced(old: JsonValue, pos: int, text: Seq<char>, new: JsonValue) -> bool {
    match old {
        JsonValue::Object(m) => match new {
            JsonValue::Object(r) => {
                let i = first_member(m@, "params"@);
                let before = array_items(m@[i].1);
                let after = array_items(r@[i].1);
                &&& has_member(m@, "params"@)
                &&& r@.len() == m@.len()
                &&& forall|j: int| 0 <= j < m@.len() && j != i ==> r@[j] == m@[j]
                &&& r@[i].0 == m@[i].0
                &&& before is Some && after is Some
                &&& after->0.len() == before->0.len()
                &&& 0 <= pos < before->0.len()
                &&& forall|k: int| 0 <= k < before->0.len() && k != pos ==> after->0[k] == before->0[k]
                &&& string_chars(after->0[pos]) == Some(text)
            },
            _ => false,
        },
        _ => false,
    }
}

/// The text `null` holds neither `latest` nor `finalized`.
proof fn lemma_null_text_untagged()
    ensures
        ({
            let nn = named_number(without_char(seq!['n', 'u', 'l', 'l'], '"'));
            nn != NamedNumber::Latest && nn != NamedNumber::Finalized
        }),
{
    let s = seq!['n', 'u', 'l', 'l'];
    lemma_without_absent(s, '"');
    lemma_utf8_ascii_len(s);
    reveal_strlit("latest");
    reveal_strlit("finalized");
    lemma_utf8_len_at_least("latest"@);
    lemma_utf8_len_at_least("finalized"@);
}

/// The parameter to rewrite and the number to write there.
fn tag_target(tx: &JsonValue, named: &NamedBlocknumbers) -> (r: Option<(usize, u64)>)
    ensures
        match r {
            None => tag_rewrite(*tx, *named) is None,
            Some((p, n)) => tag_rewrite(*tx, *named) == Some((p as int, n)) && p < array_items(
                field(*tx, "params"@),
            )->0.len(),
        },
{
    let params = match tx.get("params") {
        Some(p) => p,
        None => {
            return None;
        },
    };
    let len = match params.as_array() {
        Some(items) => items.len(),
        None => {
            return None;
        },
    };
    if len == 0 {
        return None;
    }
    let method = match tx.get("method") {
        Some(m) => m.as_str(),
        None => None,
    };
    let position = match EthRpcMethod::get_position(method) {
        Some(p) => p,
        None => {
            return None;
        },
    };
    let block_number = param_text_of(params, position);
    let nn = has_named_number(block_number.as_str());
    proof {
        if position >= len {
            lemma_null_text_untagged();
        }
    }
    if nn == NamedNumber::Latest && named.latest != 0 {
        Some((position, named.latest))
    } else if nn == NamedNumber::Finalized && named.finalized != 0 {
        Some((position, named.finalized))
    } else {
        None
    }
}

/// Rewrites the block tag `latest` or `finalized` in a request's block
/// parameter into the hexadecimal number it stands for, when that number is
/// known; leaves every other request as it is.
pub fn replace_block_tags(tx: &mut JsonValue, named_blocknumbers: &NamedBlocknumbers)
    ensures
        match tag_rewrite(*old(tx), *named_blocknumbers) {
            None => *final(tx) == *old(tx),
            Some((pos, n)) => param_replaced(*old(tx), pos, seq!['0', 'x'] + hex_text(n as nat), *final(tx)),
        },
{
    let (position, number) = match tag_target(tx, named_blocknumbers) {
        Some(t) => t,
        None => {
            return;
        },
    };
    let i = match tx.member_position("params") {
        Some(i) => i,
        None => {
            return;
        },
    };
    let ghost orig = *tx;
    let hex = to_hex_string(number);
    match tx {
        JsonValue::Object(members) => {
            proof {
                lemma_first_member_unique(members@, "params"@, i as int);
            }
            let ghost m = members@;
            let mut entry = (String::new(), JsonValue::Null);
            members.set_and_swap(i, &mut entry);
            assert(entry == m[i as int]);
            match &mut entry.1 {
                JsonValue::Array(items) => {
                    items.set(position, JsonValue::Str(hex));
                },
                _ => {},
            }
            members.set_and_swap(i, &mut entry);
            assert(members@.len() == m.len());
        },
        _ => {},
    }
}

/// What stands for a request body that is not JSON:
/// `{"id": null, "jsonrpc": "2.0", "result": "Invalid JSON"}`.
pub open spec fn is_invalid_json_request(v: JsonValue) -> bool {
    v matches JsonValue::Object(m) && m@.len() == 3 && m@[0].0@ == "id"@ && m@[0].1 == JsonValue::Null
        && m@[1].0@ == "jsonrpc"@ && string_chars(m@[1].1) == Some("2.0"@) && m@[2].0@ == "result"@
        && string_chars(m@[2].1) == Some("Invalid JSON"@)
}

/// The request a body stands for: the JSON it parsed to (`None` when it is
/// not JSON), or, for a body that is not JSON, a stand-in request whose
/// result says so.
pub fn incoming_to_value(parsed: Option<JsonValue>) -> (r: JsonValue)
    ensures
        match parsed {
            Some(v) => r == v,
            None => is_invalid_json_request(r),
        },
{
    match parsed {
        Some(v) => v,
        None => JsonValue::Object(
            vec![
                ("id".to_string(), JsonValue::Null),
                ("jsonrpc".to_string(), JsonValue::Str("2.0".to_string())),
                ("result".to_string(), JsonValue::Str("Invalid JSON".to_string())),
            ],
        ),
    }
}

} // verus!
