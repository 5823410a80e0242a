//! The Ethereum JSON-RPC methods the balancer treats specially.

use vstd::prelude::*;
use crate::json::{string_chars, JsonValue};
use crate::text::str_eq;

verus! {

/// A failed conversion of a method name: what was given, and the names
/// that are known.
#[derive(Debug)]
pub struct Error<Method>(pub Method, pub Vec<&'static str>);

/// Every known method name, in declaration order.
pub fn eth_all() -> (v: Vec<&'static str>)
    ensures
        v@.len() == 15,
        forall|i: int| 0 <= i < 15 ==> v@[i]@ == EthRpcMethod::all_methods()[i].name(),
{
    let mut v: Vec<&'static str> = Vec::new();
    v.push("eth_blockNumber");
    v.push("eth_getBlockByNumber");
    v.push("eth_syncing");
    v.push("eth_getBalance");
    v.push("eth_getStorageAt");
    v.push("eth_getTransactionCount");
    v.push("eth_getBlockTransactionCountByNumber");
    v.push("eth_getUncleCountByBlockNumber");
    v.push("eth_getCode");
    v.push("eth_call");
    v.push("eth_getTransactionByBlockNumberAndIndex");
    v.push("eth_getUncleByBlockNumberAndIndex");
    v.push("eth_subscribe");
    v.push("eth_unsubscribe");
    v.push("eth_subscription");
    v
}

impl<Method> Error<Method> {
    /// The error for `method`, listing the known method names.
    pub fn new(method: Method) -> (r: Self)
        ensures
            r.0 == method,
            r.1@.len() == 15,
            forall|i: int| 0 <= i < 15 ==> r.1@[i]@ == EthRpcMethod::all_methods()[i].name(),
    {
        Error(method, eth_all())
    }
}

/// A list of RPC methods, each with its JSON-RPC name.
#[derive(Debug, Clone, Copy, PartialEq, Eq, Structural)]
pub enum EthRpcMethod {
    BlockNumber,
    GetBlockByNumber,
    Syncing,
    GetBalance,
    GetStorageAt,
    GetTransactionCount,
    GetBlockTransactionCountByNumber,
    GetUncleCountByBlockNumber,
    GetCode,
    Call,
    GetTransactionByBlockNumberAndIndex,
    GetUncleByBlockNumberAndIndex,
    Subscribe,
    Unsubscribe,
    Subscription,
}

impl EthRpcMethod {
    /// The JSON-RPC name of the method.
    pub open spec fn name(self) -> Seq<char> {
        match self {
            EthRpcMethod::BlockNumber => "eth_blockNumber"@,
            EthRpcMethod::GetBlockByNumber => "eth_getBlockByNumber"@,
            EthRpcMethod::Syncing => "eth_syncing"@,
            EthRpcMethod::GetBalance => "eth_getBalance"@,
            EthRpcMethod::GetStorageAt => "eth_getStorageAt"@,
            EthRpcMethod::GetTransactionCount => "eth_getTransactionCount"@,
            EthRpcMethod::GetBlockTransactionCountByNumber => "eth_getBlockTransactionCountByNumber"@,
            EthRpcMethod::GetUncleCountByBlockNumber => "eth_getUncleCountByBlockNumber"@,
            EthRpcMethod::GetCode => "eth_getCode"@,
            EthRpcMethod::Call => "eth_call"@,
            EthRpcMethod::GetTransactionByBlockNumberAndIndex => "eth_getTransactionByBlockNumberAndIndex"@,
            EthRpcMethod::GetUncleByBlockNumberAndIndex => "eth_getUncleByBlockNumberAndIndex"@,
            EthRpcMethod::Subscribe => "eth_subscribe"@,
            EthRpcMethod::Unsubscribe => "eth_unsubscribe"@,
            EthRpcMethod::Subscription => "eth_subscription"@,
        }
    }

    /// All methods, in declaration order.
    pub open spec fn all_methods() -> Seq<EthRpcMethod> {
        seq![EthRpcMethod::BlockNumber, EthRpcMethod::GetBlockByNumber, EthRpcMethod::Syncing, EthRpcMethod::GetBalance, EthRpcMethod::GetStorageAt, EthRpcMethod::GetTransactionCount, EthRpcMethod::GetBlockTransactionCountByNumber, EthRpcMethod::GetUncleCountByBlockNumber, EthRpcMethod::GetCode, EthRpcMethod::Call, EthRpcMethod::GetTransactionByBlockNumberAndIndex, EthRpcMethod::GetUncleByBlockNumberAndIndex, EthRpcMethod::Subscribe, EthRpcMethod::Unsubscribe, EthRpcMethod::Subscription]
    }

    /// The JSON-RPC name of the method.
    pub fn as_str(&self) -> (r: &'static str)
        ensures
            r@ == self.name(),
    {
        match self {
            EthRpcMethod::BlockNumber => "eth_blockNumber",
            EthRpcMethod::GetBlockByNumber => "eth_getBlockByNumber",
            EthRpcMethod::Syncing => "eth_syncing",
            EthRpcMethod::GetBalance => "eth_getBalance",
            EthRpcMethod::GetStorageAt => "eth_getStorageAt",
            EthRpcMethod::GetTransactionCount => "eth_getTransactionCount",
            EthRpcMethod::GetBlockTransactionCountByNumber => "eth_getBlockTransactionCountByNumber",
            EthRpcMethod::GetUncleCountByBlockNumber => "eth_getUncleCountByBlockNumber",
            EthRpcMethod::GetCode => "eth_getCode",
            EthRpcMethod::Call => "eth_call",
            EthRpcMethod::GetTransactionByBlockNumberAndIndex => "eth_getTransactionByBlockNumberAndIndex",
            EthRpcMethod::GetUncleByBlockNumberAndIndex => "eth_getUncleByBlockNumberAndIndex",
            EthRpcMethod::Subscribe => "eth_subscribe",
            EthRpcMethod::Unsubscribe => "eth_unsubscribe",
            EthRpcMethod::Subscription => "eth_subscription",
        }
    }

    /// The method whose name is `value`; an error naming `value` when there
    /// is none.
    pub fn try_from_name(value: Option<&str>) -> (r: Result<Self, Error<Option<String>>>)
        ensures
            match r {
                Ok(m) => value matches Some(s) && m.name() == s@,
                Err(e) => (match value {
                    Some(s) => e.0 matches Some(g) && g@ == s@ && forall|m: EthRpcMethod| m.name() != s@,
                    None => e.0 is None,
                }) && e.1@.len() == 15,
            },
    {
        match value {
            None => Err(Error::new(None)),
            Some(s) => Self::from_str_name(s),
        }
    }

    fn from_str_name(s: &str) -> (r: Result<Self, Error<Option<String>>>)
        ensures
            match r {
                Ok(m) => m.name() == s@,
                Err(e) => e.0 matches Some(g) && g@ == s@ && e.1@.len() == 15 && forall|m: EthRpcMethod|
                    m.name() != s@,
            },
    {
        if str_eq(s, "eth_blockNumber") {
            Ok(EthRpcMethod::BlockNumber)
        } else if str_eq(s, "eth_getBlockByNumber") {
            Ok(EthRpcMethod::GetBlockByNumber)
        } else if str_eq(s, "eth_syncing") {
            Ok(EthRpcMethod::Syncing)
        } else if str_eq(s, "eth_getBalance") {
            Ok(EthRpcMethod::GetBalance)
        } else if str_eq(s, "eth_getStorageAt") {
            Ok(EthRpcMethod::GetStorageAt)
        } else if str_eq(s, "eth_getTransactionCount") {
            Ok(EthRpcMethod::GetTransactionCount)
        } else if str_eq(s, "eth_getBlockTransactionCountByNumber") {
            Ok(EthRpcMethod::GetBlockTransactionCountByNumber)
        } else if str_eq(s, "eth_getUncleCountByBlockNumber") {
            Ok(EthRpcMethod::GetUncleCountByBlockNumber)
        } else if str_eq(s, "eth_getCode") {
            Ok(EthRpcMethod::GetCode)
        } else if str_eq(s, "eth_call") {
            Ok(EthRpcMethod::Call)
        } else if str_eq(s, "eth_getTransactionByBlockNumberAndIndex") {
            Ok(EthRpcMethod::GetTransactionByBlockNumberAndIndex)
        } else if str_eq(s, "eth_getUncleByBlockNumberAndIndex") {
            Ok(EthRpcMethod::GetUncleByBlockNumberAndIndex)
        } else if str_eq(s, "eth_subscribe") {
            Ok(EthRpcMethod::Subscribe)
        } else if str_eq(s, "eth_unsubscribe") {
            Ok(EthRpcMethod::Unsubscribe)
        } else if str_eq(s, "eth_subscription") {
            Ok(EthRpcMethod::Subscription)
        } else {
            Err(Error::new(Some(s.to_owned())))
        }
    }

    /// The index of the parameter that carries the block number, for the
    /// methods that take one.
    pub open spec fn position(self) -> Option<usize> {
        match self {
            EthRpcMethod::GetBalance | EthRpcMethod::GetTransactionCount | EthRpcMethod::GetCode
            | EthRpcMethod::Call => Some(1),
            EthRpcMethod::GetStorageAt => Some(2),
            EthRpcMethod::GetBlockTransactionCountByNumber | EthRpcMethod::GetUncleCountByBlockNumber
            | EthRpcMethod::GetBlockByNumber | EthRpcMethod::GetTransactionByBlockNumberAndIndex
            | EthRpcMethod::GetUncleByBlockNumberAndIndex => Some(0),
            _ => None,
        }
    }

    /// The block-number parameter index of the method named `method`, if
    /// it names a method that has one.
    pub fn get_position(method: Option<&str>) -> (r: Option<usize>)
        ensures
            r == match method {
                None => None,
                Some(s) => position_of_name(s@),
            },
    {
        match Self::try_from_name(method) {
            Ok(m) => {
                proof {
                    lemma_method_named(m);
                }
                match m {
                    EthRpcMethod::GetBalance | EthRpcMethod::GetTransactionCount | EthRpcMethod::GetCode
                    | EthRpcMethod::Call => Some(1),
                    EthRpcMethod::GetStorageAt => Some(2),
                    EthRpcMethod::GetBlockTransactionCountByNumber
                    | EthRpcMethod::GetUncleCountByBlockNumber | EthRpcMethod::GetBlockByNumber
                    | EthRpcMethod::GetTransactionByBlockNumberAndIndex
                    | EthRpcMethod::GetUncleByBlockNumberAndIndex => Some(0),
                    _ => None,
                }
            },
            Err(_) => None,
        }
    }

    /// Whether `other` is this method's name.
    pub fn eq_str(&self, other: &str) -> (r: bool)
        ensures
            r == (other@ == self.name()),
    {
        str_eq(other, self.as_str())
    }

    /// Whether the JSON value is the string naming this method.
    pub fn matches_json(&self, v: &JsonValue) -> (r: bool)
        ensures
            r == (string_chars(*v) == Some(self.name())),
    {
        match v.as_str() {
            Some(s) => self.eq_str(s),
            None => false,
        }
    }
}

/// The method whose name is `s`, if there is one.
pub open spec fn method_named(s: Seq<char>) -> Option<EthRpcMethod> {
    if exists|m: EthRpcMethod| m.name() == s {
        Some(choose|m: EthRpcMethod| m.name() == s)
    } else {
        None
    }
}

/// The block-number parameter index for the method named `s`.
pub open spec fn position_of_name(s: Seq<char>) -> Option<usize> {
    match method_named(s) {
        Some(m) => m.position(),
        None => None,
    }
}

/// The block parameter index of a method, by its name: the parameter
/// after the address for `eth_getBalance`, `eth_getTransactionCount` and
/// `eth_getCode` and after the call object for `eth_call` (1); after the
/// address and the storage slot for `eth_getStorageAt` (2); the first one
/// for the methods that take a block number (0); and none for any other
/// name.
pub proof fn lemma_block_positions(s: Seq<char>)
    ensures
        position_of_name(s) == if s == "eth_getBalance"@ || s == "eth_getTransactionCount"@ || s == "eth_getCode"@
            || s == "eth_call"@ {
            Some(1usize)
        } else if s == "eth_getStorageAt"@ {
            Some(2usize)
        } else if s == "eth_getBlockTransactionCountByNumber"@ || s == "eth_getUncleCountByBlockNumber"@ || s
            == "eth_getBlockByNumber"@ || s == "eth_getTransactionByBlockNumberAndIndex"@ || s
            == "eth_getUncleByBlockNumberAndIndex"@ {
            Some(0usize)
        } else {
            None
        },
{
    reveal_strlit("eth_blockNumber");
    reveal_strlit("eth_getBlockByNumber");
    reveal_strlit("eth_syncing");
    reveal_strlit("eth_getBalance");
    reveal_strlit("eth_getStorageAt");
    reveal_strlit("eth_getTransactionCount");
    reveal_strlit("eth_getBlockTransactionCountByNumber");
    reveal_strlit("eth_getUncleCountByBlockNumber");
    reveal_strlit("eth_getCode");
    reveal_strlit("eth_call");
    reveal_strlit("eth_getTransactionByBlockNumberAndIndex");
    reveal_strlit("eth_getUncleByBlockNumberAndIndex");
    reveal_strlit("eth_subscribe");
    reveal_strlit("eth_unsubscribe");
    reveal_strlit("eth_subscription");
    lemma_method_named(EthRpcMethod::BlockNumber);
    lemma_method_named(EthRpcMethod::GetBlockByNumber);
    lemma_method_named(EthRpcMethod::Syncing);
    lemma_method_named(EthRpcMethod::GetBalance);
    lemma_method_named(EthRpcMethod::GetStorageAt);
    lemma_method_named(EthRpcMethod::GetTransactionCount);
    lemma_method_named(EthRpcMethod::GetBlockTransactionCountByNumber);
    lemma_method_named(EthRpcMethod::GetUncleCountByBlockNumber);
    lemma_method_named(EthRpcMethod::GetCode);
    lemma_method_named(EthRpcMethod::Call);
    lemma_method_named(EthRpcMethod::GetTransactionByBlockNumberAndIndex);
    lemma_method_named(EthRpcMethod::GetUncleByBlockNumberAndIndex);
    lemma_method_named(EthRpcMethod::Subscribe);
    lemma_method_named(EthRpcMethod::Unsubscribe);
    lemma_method_named(EthRpcMethod::Subscription);
}

/// A method's name names that method.
pub proof fn lemma_method_named(m: EthRpcMethod)
    ensures
        method_named(m.name()) == Some(m),
{
    let k = choose|k: EthRpcMethod| k.name() == m.name();
    lemma_names_distinct(k, m);
}

/// The length of a method's name.
spec fn name_len(m: EthRpcMethod) -> nat {
    match m {
        EthRpcMethod::BlockNumber => 15,
        EthRpcMethod::GetBlockByNumber => 20,
        EthRpcMethod::Syncing => 11,
        EthRpcMethod::GetBalance => 14,
        EthRpcMethod::GetStorageAt => 16,
        EthRpcMethod::GetTransactionCount => 23,
        EthRpcMethod::GetBlockTransactionCountByNumber => 36,
        EthRpcMethod::GetUncleCountByBlockNumber => 30,
        EthRpcMethod::GetCode => 11,
        EthRpcMethod::Call => 8,
        EthRpcMethod::GetTransactionByBlockNumberAndIndex => 39,
        EthRpcMethod::GetUncleByBlockNumberAndIndex => 33,
        EthRpcMethod::Subscribe => 13,
        EthRpcMethod::Unsubscribe => 15,
        EthRpcMethod::Subscription => 16,
    }
}

/// The fifth character of a method's name.
spec fn name_char4(m: EthRpcMethod) -> char {
    match m {
        EthRpcMethod::BlockNumber => 'b',
        EthRpcMethod::Syncing => 's',
        EthRpcMethod::Subscription => 's',
        EthRpcMethod::Subscribe => 's',
        EthRpcMethod::Unsubscribe => 'u',
        EthRpcMethod::Call => 'c',
        _ => 'g',
    }
}

proof fn lemma_name_shape(m: EthRpcMethod)
    ensures
        m.name().len() == name_len(m),
        m.name()[4] == name_char4(m),
{
    match m {
        EthRpcMethod::BlockNumber => { reveal_strlit("eth_blockNumber"); },
        EthRpcMethod::GetBlockByNumber => { reveal_strlit("eth_getBlockByNumber"); },
        EthRpcMethod::Syncing => { reveal_strlit("eth_syncing"); },
        EthRpcMethod::GetBalance => { reveal_strlit("eth_getBalance"); },
        EthRpcMethod::GetStorageAt => { reveal_strlit("eth_getStorageAt"); },
        EthRpcMethod::GetTransactionCount => { reveal_strlit("eth_getTransactionCount"); },
        EthRpcMethod::GetBlockTransactionCountByNumber => { reveal_strlit("eth_getBlockTransactionCountByNumber"); },
        EthRpcMethod::GetUncleCountByBlockNumber => { reveal_strlit("eth_getUncleCountByBlockNumber"); },
        EthRpcMethod::GetCode => { reveal_strlit("eth_getCode"); },
        EthRpcMethod::Call => { reveal_strlit("eth_call"); },
        EthRpcMethod::GetTransactionByBlockNumberAndIndex => { reveal_strlit("eth_getTransactionByBlockNumberAndIndex"); },
        EthRpcMethod::GetUncleByBlockNumberAndIndex => { reveal_strlit("eth_getUncleByBlockNumberAndIndex"); },
        EthRpcMethod::Subscribe => { reveal_strlit("eth_subscribe"); },
        EthRpcMethod::Unsubscribe => { reveal_strlit("eth_unsubscribe"); },
        EthRpcMethod::Subscription => { reveal_strlit("eth_subscription"); },
    }
}

/// Distinct methods have distinct names.
pub proof fn lemma_names_distinct(a: EthRpcMethod, b: EthRpcMethod)
    requires
        a.name() == b.name(),
    ensures
        a == b,
{
    lemma_name_shape(a);
    lemma_name_shape(b);
}

} // verus!
