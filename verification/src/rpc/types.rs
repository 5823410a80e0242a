//! The nodes the balancer forwards to, and reading what they answer.

use vstd::prelude::*;
use crate::json::{field, string_chars, JsonValue};
use crate::text::{
    chars_of, dec_text, hex_text, digit_value, lemma_hex_text_digits, lemma_hex_text_value, lemma_lower_hex_digit_value,
    lemma_upper_hex_digit_value, lemma_upper_hex_text_digits, lemma_upper_hex_text_value, lemma_without_char_concat,
    upper_hex_digit, upper_hex_text,
    lemma_without_absent, lower_hex_digit, parse_uint_from, remove_char, strip_hex_prefixes,
    to_decimal_string, uint_value, without_char, ParseIntError,
};

verus! {

/// `url::ParseError`, the error of parsing a URL.
#[verifier::external_type_specification]
#[verifier::external_body]
pub struct ExUrlParseError(url::ParseError);

/// Why talking to a node failed.
#[derive(Debug)]
pub enum RpcError {
    InvalidResponse(String),
    SendError(String),
    /// An HTTP request failed; the text of its error.
    ReqwestError(String),
}

impl ParseIntError {
    /// The message of the error (its `Display` text).
    pub open spec fn message_text(self) -> Seq<char> {
        match self {
            ParseIntError::Empty => "cannot parse integer from empty string"@,
            ParseIntError::InvalidDigit => "invalid digit found in string"@,
            ParseIntError::PosOverflow => "number too large to fit in target type"@,
        }
    }

    /// The message of the error.
    pub fn message(&self) -> (r: &'static str)
        ensures
            r@ == self.message_text(),
    {
        match self {
            ParseIntError::Empty => "cannot parse integer from empty string",
            ParseIntError::InvalidDigit => "invalid digit found in string",
            ParseIntError::PosOverflow => "number too large to fit in target type",
        }
    }
}

/// The value of a hexadecimal block number as nodes write it: quotes are
/// ignored and any leading `0x` taken off.
pub open spec fn hex_value(s: Seq<char>) -> Result<int, ParseIntError> {
    uint_value(strip_hex_prefixes(without_char(s, '"')), 16, u64::MAX as int)
}

/// Every character of `s` is a hexadecimal digit.
pub open spec fn all_hex_digits(s: Seq<char>) -> bool {
    forall|i: int| 0 <= i < s.len() ==> #[trigger] digit_value(s[i], 16) is Some
}

/// Hexadecimal digits, at least one, with any leading `0x` and quotes
/// around them, read as their value: the prefix and the quotes are taken
/// off, and digits never start with `0x` or hold a quote.
proof fn lemma_hex_digits_read(digits: Seq<char>, n: int, prefixed: bool, quoted: bool)
    requires
        digits.len() >= 1,
        all_hex_digits(digits),
        uint_value(digits, 16, u64::MAX as int) == Ok::<int, ParseIntError>(n),
    ensures
        ({
            let p = if prefixed { seq!['0', 'x'] + digits } else { digits };
            let q = if quoted { seq!['"'] + p + seq!['"'] } else { p };
            hex_value(q) == Ok::<int, ParseIntError>(n)
        }),
{
    let p = if prefixed { seq!['0', 'x'] + digits } else { digits };
    let q = if quoted { seq!['"'] + p + seq!['"'] } else { p };
    assert forall|i: int| 0 <= i < digits.len() implies digits[i] != '"' && digits[i] != 'x' by {
        assert(digit_value(digits[i], 16) is Some);
    }
    lemma_without_absent(p, '"');
    if quoted {
        lemma_without_char_concat(seq!['"'] + p, seq!['"'], '"');
        lemma_without_char_concat(seq!['"'], p, '"');
        let quote = seq!['"'];
        assert(without_char(quote, '"') =~= Seq::<char>::empty()) by {
            assert(quote.len() == 1 && quote.last() == '"');
            assert(quote.drop_last() =~= Seq::<char>::empty());
            assert(without_char(quote.drop_last(), '"') =~= Seq::<char>::empty());
        }
        assert(without_char(q, '"') =~= p);
    }
    assert(without_char(q, '"') == p);
    if prefixed {
        assert(p.skip(2) =~= digits);
    }
    if digits.len() >= 2 {
        assert(digits[1] != 'x');
    }
    assert(strip_hex_prefixes(digits) == digits);
    assert(strip_hex_prefixes(p) == digits);
}

/// A block number written in hexadecimal reads back as that number: in
/// lower-case digits after `0x` (as block tags are replaced in requests),
/// in upper-case digits without a prefix, and in either form within quotes.
pub proof fn lemma_hex_round_trip(n: u64)
    ensures
        hex_value(seq!['0', 'x'] + hex_text(n as nat)) == Ok::<int, ParseIntError>(n as int),
        hex_value(seq!['"', '0', 'x'] + hex_text(n as nat) + seq!['"']) == Ok::<int, ParseIntError>(n as int),
        hex_value(upper_hex_text(n as nat)) == Ok::<int, ParseIntError>(n as int),
        hex_value(seq!['"'] + upper_hex_text(n as nat) + seq!['"']) == Ok::<int, ParseIntError>(n as int),
{
    let lower = hex_text(n as nat);
    lemma_hex_text_digits(n as nat);
    lemma_hex_text_value(n as nat, u64::MAX as int);
    assert forall|i: int| 0 <= i < lower.len() implies #[trigger] digit_value(lower[i], 16) is Some by {
        let d = choose|d: int| 0 <= d < 16 && lower[i] == lower_hex_digit(d);
        lemma_lower_hex_digit_value(d);
    }
    let d0 = choose|d: int| 0 <= d < 16 && lower[0] == lower_hex_digit(d);
    lemma_lower_hex_digit_value(d0);
    lemma_hex_digits_read(lower, n as int, true, false);
    lemma_hex_digits_read(lower, n as int, true, true);
    assert(seq!['"', '0', 'x'] + lower + seq!['"'] =~= seq!['"'] + (seq!['0', 'x'] + lower) + seq!['"']);

    let upper = upper_hex_text(n as nat);
    lemma_upper_hex_text_digits(n as nat);
    lemma_upper_hex_text_value(n as nat, u64::MAX as int);
    assert forall|i: int| 0 <= i < upper.len() implies #[trigger] digit_value(upper[i], 16) is Some by {
        let d = choose|d: int| 0 <= d < 16 && upper[i] == upper_hex_digit(d);
        lemma_upper_hex_digit_value(d);
    }
    let u0 = choose|d: int| 0 <= d < 16 && upper[0] == upper_hex_digit(d);
    lemma_upper_hex_digit_value(u0);
    lemma_hex_digits_read(upper, n as int, false, false);
    lemma_hex_digits_read(upper, n as int, false, true);
}

/// Reads a hexadecimal number such as `0x1b4`.
pub fn hex_to_decimal(hex_string: &str) -> (r: Result<u64, ParseIntError>)
    ensures
        match r {
            Ok(v) => hex_value(hex_string@) == Ok::<int, ParseIntError>(v as int),
            Err(e) => hex_value(hex_string@) == Err::<int, ParseIntError>(e),
        },
{
    let unquoted = remove_char(hex_string, '"');
    let cs = chars_of(unquoted.as_str());
    let mut from: usize = 0;
    assert(cs@.skip(0) =~= cs@);
    while from < cs.len() && cs.len() - from >= 2 && cs[from] == '0' && cs[from + 1] == 'x'
        invariant
            from <= cs@.len(),
            strip_hex_prefixes(cs@) == strip_hex_prefixes(cs@.skip(from as int)),
        decreases cs@.len() - from,
    {
        proof {
            let t = cs@.skip(from as int);
            assert(t[0] == '0' && t[1] == 'x');
            assert(t.skip(2) =~= cs@.skip(from + 2));
        }
        from = from + 2;
    }
    proof {
        let rest = cs@.skip(from as int);
        if rest.len() >= 2 {
            assert(rest[0] == cs@[from as int] && rest[1] == cs@[from + 1]);
        }
        assert(strip_hex_prefixes(rest) == rest);
    }
    parse_uint_from(&cs, from, 16, u64::MAX)
}

/// What a node's answer to `eth_blockNumber` holds: the hexadecimal number
/// under `result`, or an error when `result` is not a string.
pub open spec fn answered_number(json: JsonValue) -> Option<u64> {
    match string_chars(field(json, "result"@)) {
        Some(s) => match hex_value(s) {
            Ok(v) => Some(v as u64),
            Err(_) => None,
        },
        None => None,
    }
}

/// Takes the block number out of a node's answer to `eth_blockNumber`.
pub fn extract_number(json: &JsonValue) -> (r: Result<u64, RpcError>)
    requires
        string_chars(field(*json, "result"@)) matches Some(s) ==> hex_value(s) is Ok,
    ensures
        match r {
            Ok(v) => answered_number(*json) == Some(v),
            Err(e) => string_chars(field(*json, "result"@)) is None && (e matches RpcError::InvalidResponse(m)
                && m@ == "error: Extracting response from request failed!"@),
        },
{
    let number = match json.get("result") {
        Some(v) => v.as_str(),
        None => None,
    };
    match number {
        Some(n) => Ok(hex_to_decimal(n).unwrap()),
        None => Err(RpcError::InvalidResponse("error: Extracting response from request failed!".to_string())),
    }
}

/// Takes the number of the finalized block out of a node's answer to
/// `eth_getBlockByNumber("finalized")`.
pub fn finalized_number(json: &JsonValue) -> (r: Result<u64, RpcError>)
    ensures
        match string_chars(field(field(*json, "result"@), "number"@)) {
            Some(s) => match hex_value(s) {
                Ok(v) => r matches Ok(x) && x == v,
                Err(e) => r matches Err(RpcError::InvalidResponse(m)) && m@ == e.message_text(),
            },
            None => r matches Err(RpcError::InvalidResponse(m)) && m@ == "error: Can't get finalized block!"@,
        },
{
    let number = match json.get("result") {
        Some(res) => match res.get("number") {
            Some(n) => n.as_str(),
            None => None,
        },
        None => None,
    };
    match number {
        Some(n) => match hex_to_decimal(n) {
            Ok(v) => Ok(v),
            Err(e) => Err(RpcError::InvalidResponse(e.message().to_string())),
        },
        None => Err(RpcError::InvalidResponse("error: Can't get finalized block!".to_string())),
    }
}

// ---------------------------------------------------------------------------
// Nodes
// ---------------------------------------------------------------------------

/// How a node has been doing.
#[derive(Debug, Clone, Copy, PartialEq, Eq, Structural)]
pub struct Status {
    /// Set when the node fell behind or stopped answering.
    pub is_erroring: bool,
    /// When the node last failed.
    pub last_error: u64,
    /// The moving average of its latency, in whole nanoseconds: the key by
    /// which nodes are ranked.
    pub latency: u64,
}

/// A node that requests are forwarded to.
#[derive(Debug)]
pub struct Rpc {
    /// The node's URL without its path or query, fit for logs.
    pub name: String,
    /// The node's full URL, which may hold credentials: never logged.
    pub url: String,
    pub ws_url: Option<String>,
    pub status: Status,
    /// How many requests in a row the node may serve.
    pub max_consecutive: u32,
    pub consecutive: u32,
    /// When the node was last used, in microseconds.
    pub last_used: u128,
    /// The least time between two requests to the node, in microseconds.
    pub min_time_delta: u128,
}

/// The characters of an optional text.
pub open spec fn opt_chars(o: Option<String>) -> Option<Seq<char>> {
    match o {
        Some(s) => Some(s@),
        None => None,
    }
}

/// What `url::Url::parse` finds in a text: its scheme, its host and its
/// port, or `None` when the text is no URL.
pub uninterp spec fn url_parts(s: Seq<char>) -> Option<(Seq<char>, Option<Seq<char>>, Option<u16>)>;

/// The text that `url::Url::parse` followed by `to_string` gives for a
/// text, or `None` when the text is no URL.
pub uninterp spec fn url_serialization(s: Seq<char>) -> Option<Seq<char>>;

/// Calls `url::Url::parse` and then its `scheme`, `host_str` and `port`.
/// Its result is named by `url_parts`; which error comes back is not
/// stated.
#[verifier::external_body]
fn parse_url_parts(s: &str) -> (r: Result<(String, Option<String>, Option<u16>), url::ParseError>)
    ensures
        match r {
            Ok((scheme, host, port)) => url_parts(s@) == Some((scheme@, opt_chars(host), port)),
            Err(_) => url_parts(s@) is None,
        },
{
    match url::Url::parse(s) {
        Ok(u) => {
            let host = match u.host_str() {
                Some(h) => Some(h.to_string()),
                None => None,
            };
            Ok((u.scheme().to_string(), host, u.port()))
        },
        Err(e) => Err(e),
    }
}

/// Calls `url::Url::parse` and prints the URL back with `to_string`. Its
/// result is named by `url_serialization`; which error comes back is not
/// stated.
#[verifier::external_body]
fn serialize_url(s: &str) -> (r: Result<String, url::ParseError>)
    ensures
        match r {
            Ok(t) => url_serialization(s@) == Some(t@),
            Err(_) => url_serialization(s@) is None,
        },
{
    match url::Url::parse(s) {
        Ok(u) => Ok(u.to_string()),
        Err(e) => Err(e),
    }
}

/// `scheme://host:port`, the port left out when there is none.
pub open spec fn origin_text(parts: (Seq<char>, Option<Seq<char>>, Option<u16>)) -> Seq<char> {
    let host = match parts.1 {
        Some(h) => h,
        None => Seq::empty(),
    };
    let port = match parts.2 {
        Some(p) => seq![':'] + dec_text(p as nat),
        None => Seq::empty(),
    };
    parts.0 + "://"@ + host + port
}

/// A URL without its path, query or credentials: scheme, host and port,
/// printed as a URL.
pub open spec fn sanitized_url(s: Seq<char>) -> Option<Seq<char>> {
    match url_parts(s) {
        Some(parts) => url_serialization(origin_text(parts)),
        None => None,
    }
}

/// Takes the path and the query (where API keys tend to be) out of a URL,
/// so that it can be logged.
pub fn sanitize_url(url: &str) -> (r: Result<String, url::ParseError>)
    ensures
        match r {
            Ok(t) => sanitized_url(url@) == Some(t@),
            Err(_) => sanitized_url(url@) is None,
        },
{
    let (scheme, host, port) = match parse_url_parts(url) {
        Ok(parts) => parts,
        Err(e) => {
            return Err(e);
        },
    };
    let ghost parts = (scheme@, opt_chars(host), port);
    let mut text = scheme;
    text.append("://");
    match &host {
        Some(h) => {
            text.append(h.as_str());
        },
        None => {},
    }
    match port {
        Some(p) => {
            text.append(":");
            let digits = to_decimal_string(p as u128);
            text.append(digits.as_str());
            proof {
                reveal_strlit(":");
            }
        },
        None => {},
    }
    assert(text@ =~= origin_text(parts));
    serialize_url(text.as_str())
}

/// The name a node is logged under: its sanitized URL, or the URL itself
/// when that does not parse.
pub open spec fn node_name(url: Seq<char>) -> Seq<char> {
    match sanitized_url(url) {
        Some(t) => t,
        None => url,
    }
}

impl Rpc {
    /// A node at `url`, not yet used.
    pub fn new(url: String, ws_url: Option<String>, max_consecutive: u32, min_time_delta: u128) -> (r: Rpc)
        ensures
            r.name@ == node_name(url@),
            r.url@ == url@,
            r.ws_url == ws_url,
            r.status == (Status { is_erroring: false, last_error: 0, latency: 0 }),
            r.max_consecutive == max_consecutive,
            r.consecutive == 0,
            r.last_used == 0,
            r.min_time_delta == min_time_delta,
    {
        let name = match sanitize_url(url.as_str()) {
            Ok(n) => n,
            Err(_) => url.clone(),
        };
        Rpc {
            name,
            url,
            ws_url,
            status: Status { is_erroring: false, last_error: 0, latency: 0 },
            max_consecutive,
            consecutive: 0,
            last_used: 0,
            min_time_delta,
        }
    }

    /// The node's full URL; it may expose credentials, so it is not logged.
    pub fn get_url(&self) -> (r: String)
        ensures
            r@ == self.url@,
    {
        self.url.clone()
    }

    /// A copy of the node.
    pub fn duplicate(&self) -> (r: Rpc)
        ensures
            r == *self,
    {
        let ws_url = match &self.ws_url {
            Some(w) => Some(w.clone()),
            None => None,
        };
        Rpc {
            name: self.name.clone(),
            url: self.url.clone(),
            ws_url,
            status: self.status,
            max_consecutive: self.max_consecutive,
            consecutive: self.consecutive,
            last_used: self.last_used,
            min_time_delta: self.min_time_delta,
        }
    }
}

impl Default for Rpc {
    /// A node with an empty URL, not yet used.
    fn default() -> (r: Rpc)
        ensures
            r.name@ == Seq::<char>::empty(),
            r.url@ == Seq::<char>::empty(),
            r.ws_url is None,
            r.status == (Status { is_erroring: false, last_error: 0, latency: 0 }),
            r.max_consecutive == 0,
            r.consecutive == 0,
            r.last_used == 0,
            r.min_time_delta == 0,
    {
        Rpc {
            name: String::new(),
            url: String::new(),
            ws_url: None,
            status: Status { is_erroring: false, last_error: 0, latency: 0 },
            max_consecutive: 0,
            consecutive: 0,
            last_used: 0,
            min_time_delta: 0,
        }
    }
}

} // verus!
