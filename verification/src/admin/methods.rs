//! The admin namespace: its methods, and what a request to it asks for.

use vstd::prelude::*;
use crate::admin::error::AdminError;
use crate::json::{array_items, field, render, string_chars, JsonValue};
use crate::rpc::types::Rpc;
use crate::text::{
    dec_text, parse_uint, remove_char, str_eq, to_decimal_string, uint_value, without_char,
};

verus! {

/// A failed conversion of an admin method name: what was given, and the
/// names that are known.
#[derive(Debug)]
pub struct Error<Method>(pub Method, pub Vec<&'static str>);

/// `names` lists every admin method name, in declaration order.
pub open spec fn lists_admin_names(names: Seq<&'static str>) -> bool {
    names.len() == 13 && forall|i: int| 0 <= i < 13 ==> names[i]@ == BlutgangRpcMethod::all_methods()[i].name()
}

/// Every admin method name, in declaration order.
pub fn blutgang_all() -> (v: Vec<&'static str>)
    ensures
        lists_admin_names(v@),
{
    let mut v: Vec<&'static str> = Vec::new();
    v.push("blutgang_quit");
    v.push("blutgang_rpc_list");
    v.push("blutgang_flush_cache");
    v.push("blutgang_config");
    v.push("blutgang_poverty_list");
    v.push("blutgang_ttl");
    v.push("blutgang_health_check_ttl");
    v.push("blutgang_set_ttl");
    v.push("blutgang_set_health_check_ttl");
    v.push("blutgang_add_to_rpc_list");
    v.push("blutgang_add_to_poverty_list");
    v.push("blutgang_remove_from_rpc_list");
    v.push("blutgang_remove_from_poverty_list");
    v
}

impl<Method> Error<Method> {
    /// The error for `method`, listing the known names.
    pub fn new(method: Method) -> (r: Self)
        ensures
            r.0 == method,
            lists_admin_names(r.1@),
    {
        Error(method, blutgang_all())
    }
}

/// The methods of the admin namespace.
#[derive(Debug, Clone, Copy, PartialEq, Eq, Structural)]
pub enum BlutgangRpcMethod {
    Quit,
    RpcList,
    FlushCache,
    Config,
    PovertyList,
    Ttl,
    HealthCheckTtl,
    SetTtl,
    SetHealthCheckTtl,
    AddToRpcList,
    AddToPovertyList,
    RemoveFromRpcList,
    RemoveFromPovertyList,
}

impl BlutgangRpcMethod {
    /// The name of the method.
    pub open spec fn name(self) -> Seq<char> {
        match self {
            BlutgangRpcMethod::Quit => "blutgang_quit"@,
            BlutgangRpcMethod::RpcList => "blutgang_rpc_list"@,
            BlutgangRpcMethod::FlushCache => "blutgang_flush_cache"@,
            BlutgangRpcMethod::Config => "blutgang_config"@,
            BlutgangRpcMethod::PovertyList => "blutgang_poverty_list"@,
            BlutgangRpcMethod::Ttl => "blutgang_ttl"@,
            BlutgangRpcMethod::HealthCheckTtl => "blutgang_health_check_ttl"@,
            BlutgangRpcMethod::SetTtl => "blutgang_set_ttl"@,
            BlutgangRpcMethod::SetHealthCheckTtl => "blutgang_set_health_check_ttl"@,
            BlutgangRpcMethod::AddToRpcList => "blutgang_add_to_rpc_list"@,
            BlutgangRpcMethod::AddToPovertyList => "blutgang_add_to_poverty_list"@,
            BlutgangRpcMethod::RemoveFromRpcList => "blutgang_remove_from_rpc_list"@,
            BlutgangRpcMethod::RemoveFromPovertyList => "blutgang_remove_from_poverty_list"@,
        }
    }

    /// All methods, in declaration order.
    pub open spec fn all_methods() -> Seq<BlutgangRpcMethod> {
        seq![
            BlutgangRpcMethod::Quit,
            BlutgangRpcMethod::RpcList,
            BlutgangRpcMethod::FlushCache,
            BlutgangRpcMethod::Config,
            BlutgangRpcMethod::PovertyList,
            BlutgangRpcMethod::Ttl,
            BlutgangRpcMethod::HealthCheckTtl,
            BlutgangRpcMethod::SetTtl,
            BlutgangRpcMethod::SetHealthCheckTtl,
            BlutgangRpcMethod::AddToRpcList,
            BlutgangRpcMethod::AddToPovertyList,
            BlutgangRpcMethod::RemoveFromRpcList,
            BlutgangRpcMethod::RemoveFromPovertyList,
        ]
    }

    /// Whether the method changes the balancer (refused when the admin
    /// namespace is read-only).
    pub open spec fn writes(self) -> bool {
        !(self is RpcList || self is Config || self is PovertyList || self is Ttl || self is HealthCheckTtl)
    }

    /// The name of the method.
    pub fn as_str(&self) -> (r: &'static str)
        ensures
            r@ == self.name(),
    {
        match self {
            BlutgangRpcMethod::Quit => "blutgang_quit",
            BlutgangRpcMethod::RpcList => "blutgang_rpc_list",
            BlutgangRpcMethod::FlushCache => "blutgang_flush_cache",
            BlutgangRpcMethod::Config => "blutgang_config",
            BlutgangRpcMethod::PovertyList => "blutgang_poverty_list",
            BlutgangRpcMethod::Ttl => "blutgang_ttl",
            BlutgangRpcMethod::HealthCheckTtl => "blutgang_health_check_ttl",
            BlutgangRpcMethod::SetTtl => "blutgang_set_ttl",
            BlutgangRpcMethod::SetHealthCheckTtl => "blutgang_set_health_check_ttl",
            BlutgangRpcMethod::AddToRpcList => "blutgang_add_to_rpc_list",
            BlutgangRpcMethod::AddToPovertyList => "blutgang_add_to_poverty_list",
            BlutgangRpcMethod::RemoveFromRpcList => "blutgang_remove_from_rpc_list",
            BlutgangRpcMethod::RemoveFromPovertyList => "blutgang_remove_from_poverty_list",
        }
    }

    /// The method named `value`; an error naming `value` when there is none.
    pub fn try_from_name(value: Option<&str>) -> (r: Result<Self, Error<Option<String>>>)
        ensures
            match r {
                Ok(m) => value matches Some(s) && m.name() == s@,
                Err(e) => (match value {
                    Some(s) => e.0 matches Some(g) && g@ == s@ && forall|m: BlutgangRpcMethod| m.name() != s@,
                    None => e.0 is None,
                }) && lists_admin_names(e.1@),
            },
    {
        let s = match value {
            None => {
                return Err(Error::new(None));
            },
            Some(s) => s,
        };
        if str_eq(s, "blutgang_quit") {
            Ok(BlutgangRpcMethod::Quit)
        } else if str_eq(s, "blutgang_rpc_list") {
            Ok(BlutgangRpcMethod::RpcList)
        } else if str_eq(s, "blutgang_flush_cache") {
            Ok(BlutgangRpcMethod::FlushCache)
        } else if str_eq(s, "blutgang_config") {
            Ok(BlutgangRpcMethod::Config)
        } else if str_eq(s, "blutgang_poverty_list") {
            Ok(BlutgangRpcMethod::PovertyList)
        } else if str_eq(s, "blutgang_ttl") {
            Ok(BlutgangRpcMethod::Ttl)
        } else if str_eq(s, "blutgang_health_check_ttl") {
            Ok(BlutgangRpcMethod::HealthCheckTtl)
        } else if str_eq(s, "blutgang_set_ttl") {
            Ok(BlutgangRpcMethod::SetTtl)
        } else if str_eq(s, "blutgang_set_health_check_ttl") {
            Ok(BlutgangRpcMethod::SetHealthCheckTtl)
        } else if str_eq(s, "blutgang_add_to_rpc_list") {
            Ok(BlutgangRpcMethod::AddToRpcList)
        } else if str_eq(s, "blutgang_add_to_poverty_list") {
            Ok(BlutgangRpcMethod::AddToPovertyList)
        } else if str_eq(s, "blutgang_remove_from_rpc_list") {
            Ok(BlutgangRpcMethod::RemoveFromRpcList)
        } else if str_eq(s, "blutgang_remove_from_poverty_list") {
            Ok(BlutgangRpcMethod::RemoveFromPovertyList)
        } else {
            Err(Error::new(Some(s.to_owned())))
        }
    }
}

/// The length of a method's name.
spec fn admin_name_len(m: BlutgangRpcMethod) -> nat {
    match m {
        BlutgangRpcMethod::Quit => 13,
        BlutgangRpcMethod::RpcList => 17,
        BlutgangRpcMethod::FlushCache => 20,
        BlutgangRpcMethod::Config => 15,
        BlutgangRpcMethod::PovertyList => 21,
        BlutgangRpcMethod::Ttl => 12,
        BlutgangRpcMethod::HealthCheckTtl => 25,
        BlutgangRpcMethod::SetTtl => 16,
        BlutgangRpcMethod::SetHealthCheckTtl => 29,
        BlutgangRpcMethod::AddToRpcList => 24,
        BlutgangRpcMethod::AddToPovertyList => 28,
        BlutgangRpcMethod::RemoveFromRpcList => 29,
        BlutgangRpcMethod::RemoveFromPovertyList => 33,
    }
}

/// The tenth character of a method's name.
spec fn admin_name_char9(m: BlutgangRpcMethod) -> char {
    match m {
        BlutgangRpcMethod::SetHealthCheckTtl => 's',
        BlutgangRpcMethod::RemoveFromRpcList => 'r',
        _ => 'x',
    }
}

proof fn lemma_admin_name_shape(m: BlutgangRpcMethod)
    ensures
        m.name().len() == admin_name_len(m),
        m is SetHealthCheckTtl || m is RemoveFromRpcList ==> m.name()[9] == admin_name_char9(m),
{
    match m {
        BlutgangRpcMethod::Quit => { reveal_strlit("blutgang_quit"); },
        BlutgangRpcMethod::RpcList => { reveal_strlit("blutgang_rpc_list"); },
        BlutgangRpcMethod::FlushCache => { reveal_strlit("blutgang_flush_cache"); },
        BlutgangRpcMethod::Config => { reveal_strlit("blutgang_config"); },
        BlutgangRpcMethod::PovertyList => { reveal_strlit("blutgang_poverty_list"); },
        BlutgangRpcMethod::Ttl => { reveal_strlit("blutgang_ttl"); },
        BlutgangRpcMethod::HealthCheckTtl => { reveal_strlit("blutgang_health_check_ttl"); },
        BlutgangRpcMethod::SetTtl => { reveal_strlit("blutgang_set_ttl"); },
        BlutgangRpcMethod::SetHealthCheckTtl => { reveal_strlit("blutgang_set_health_check_ttl"); },
        BlutgangRpcMethod::AddToRpcList => { reveal_strlit("blutgang_add_to_rpc_list"); },
        BlutgangRpcMethod::AddToPovertyList => { reveal_strlit("blutgang_add_to_poverty_list"); },
        BlutgangRpcMethod::RemoveFromRpcList => { reveal_strlit("blutgang_remove_from_rpc_list"); },
        BlutgangRpcMethod::RemoveFromPovertyList => {
            reveal_strlit("blutgang_remove_from_poverty_list");
        },
    }
}

/// Distinct admin methods have distinct names.
pub proof fn lemma_admin_names_distinct(a: BlutgangRpcMethod, b: BlutgangRpcMethod)
    requires
        a.name() == b.name(),
    ensures
        a == b,
{
    lemma_admin_name_shape(a);
    lemma_admin_name_shape(b);
}

/// The admin method whose name is `s`, if there is one.
pub open spec fn admin_method_named(s: Seq<char>) -> Option<BlutgangRpcMethod> {
    if exists|m: BlutgangRpcMethod| m.name() == s {
        Some(choose|m: BlutgangRpcMethod| m.name() == s)
    } else {
        None
    }
}

/// A method's name names that method.
pub proof fn lemma_admin_method_named(m: BlutgangRpcMethod)
    ensures
        admin_method_named(m.name()) == Some(m),
{
    let k = choose|k: BlutgangRpcMethod| k.name() == m.name();
    lemma_admin_names_distinct(k, m);
}

// ---------------------------------------------------------------------------
// What an admin request asks for
// ---------------------------------------------------------------------------

/// A node to add, as an admin request gives it.
#[derive(Debug)]
pub struct NewRpc {
    pub url: String,
    pub ws_url: Option<String>,
    pub max_consecutive: u32,
    /// The least time between two requests, in microseconds.
    pub min_time_delta: u64,
    /// The text of the moving-average length (a number, read by the caller).
    pub ma_len: String,
}

/// What an admin request asks the balancer to do.
#[derive(Debug)]
pub enum AdminCommand {
    Quit,
    RpcList,
    FlushCache,
    Config,
    PovertyList,
    Ttl,
    HealthCheckTtl,
    SetTtl(u64),
    SetHealthCheckTtl(u64),
    AddToRpcList(NewRpc),
    AddToPovertyList(NewRpc),
    RemoveFromRpcList(u64),
    RemoveFromPovertyList(u64),
}

/// The kind of an admin error.
#[derive(Debug, Clone, Copy, PartialEq, Eq, Structural)]
pub enum AdminErrorKind {
    InvalidMethod,
    InvalidParams,
    InvalidLen,
    ParseError,
    WriteProtectionEnabled,
    Inaccessible,
    OutOfBounds,
}

impl AdminError {
    /// The kind of the error.
    pub open spec fn kind(self) -> AdminErrorKind {
        match self {
            AdminError::InvalidMethod(_) => AdminErrorKind::InvalidMethod,
            AdminError::InvalidParams => AdminErrorKind::InvalidParams,
            AdminError::InvalidLen => AdminErrorKind::InvalidLen,
            AdminError::ParseError => AdminErrorKind::ParseError,
            AdminError::WriteProtectionEnabled => AdminErrorKind::WriteProtectionEnabled,
            AdminError::Inaccessible => AdminErrorKind::Inaccessible,
            AdminError::OutOfBounds => AdminErrorKind::OutOfBounds,
        }
    }
}

/// A node to add, as plain values: URL, WebSocket URL, most requests in a
/// row, least time between requests, and the moving-average length text.
pub type NewRpcView = (Seq<char>, Option<Seq<char>>, u32, u64, Seq<char>);

/// What an admin request asks for, as plain values.
pub enum CommandView {
    Quit,
    RpcList,
    FlushCache,
    Config,
    PovertyList,
    Ttl,
    HealthCheckTtl,
    SetTtl(u64),
    SetHealthCheckTtl(u64),
    AddToRpcList(NewRpcView),
    AddToPovertyList(NewRpcView),
    RemoveFromRpcList(u64),
    RemoveFromPovertyList(u64),
}

/// The plain values of a node to add.
pub open spec fn new_rpc_view(n: NewRpc) -> NewRpcView {
    (
        n.url@,
        match n.ws_url {
            Some(w) => Some(w@),
            None => None,
        },
        n.max_consecutive,
        n.min_time_delta,
        n.ma_len@,
    )
}

impl AdminCommand {
    /// The command as plain values.
    pub open spec fn view(self) -> CommandView {
        match self {
            AdminCommand::Quit => CommandView::Quit,
            AdminCommand::RpcList => CommandView::RpcList,
            AdminCommand::FlushCache => CommandView::FlushCache,
            AdminCommand::Config => CommandView::Config,
            AdminCommand::PovertyList => CommandView::PovertyList,
            AdminCommand::Ttl => CommandView::Ttl,
            AdminCommand::HealthCheckTtl => CommandView::HealthCheckTtl,
            AdminCommand::SetTtl(v) => CommandView::SetTtl(v),
            AdminCommand::SetHealthCheckTtl(v) => CommandView::SetHealthCheckTtl(v),
            AdminCommand::AddToRpcList(n) => CommandView::AddToRpcList(new_rpc_view(n)),
            AdminCommand::AddToPovertyList(n) => CommandView::AddToPovertyList(new_rpc_view(n)),
            AdminCommand::RemoveFromRpcList(i) => CommandView::RemoveFromRpcList(i),
            AdminCommand::RemoveFromPovertyList(i) => CommandView::RemoveFromPovertyList(i),
        }
    }
}

/// The text of a parameter with its quotes taken out.
pub open spec fn admin_param_text(v: JsonValue) -> Seq<char> {
    without_char(render(v), '"')
}

/// A parameter read as a decimal number no larger than `max`, or 0 when it
/// does not read.
pub open spec fn number_or_zero(v: JsonValue, max: int) -> int {
    match uint_value(admin_param_text(v), 10, max) {
        Ok(n) => n,
        Err(_) => 0,
    }
}

/// The node that the parameters of an add request describe: URL (a
/// string), WebSocket URL (a string or `null`), most requests in a row,
/// requests per second (turned into the least time between two requests),
/// and the moving-average length.
pub open spec fn new_rpc_of(params: Option<Seq<JsonValue>>) -> Result<NewRpcView, AdminErrorKind> {
    match params {
        None => Err(AdminErrorKind::InvalidParams),
        Some(p) => if p.len() != 5 {
            Err(AdminErrorKind::InvalidLen)
        } else {
            match string_chars(p[0]) {
                None => Err(AdminErrorKind::ParseError),
                Some(url) => {
                    let ws: Result<Option<Seq<char>>, AdminErrorKind> = if p[1] is Null {
                        Ok(None)
                    } else {
                        match string_chars(p[1]) {
                            Some(w) => Ok(Some(w)),
                            None => Err(AdminErrorKind::ParseError),
                        }
                    };
                    match ws {
                        Err(e) => Err(e),
                        Ok(w) => {
                            let d = number_or_zero(p[3], u64::MAX as int);
                            Ok(
                                (
                                    url,
                                    w,
                                    number_or_zero(p[2], u32::MAX as int) as u32,
                                    if d != 0 {
                                        (1_000_000int / d) as u64
                                    } else {
                                        0u64
                                    },
                                    admin_param_text(p[4]),
                                ),
                            )
                        },
                    }
                },
            }
        },
    }
}

/// The number that the one parameter of a request gives.
pub open spec fn single_number_of(params: Option<Seq<JsonValue>>) -> Result<u64, AdminErrorKind> {
    match params {
        None => Err(AdminErrorKind::InvalidParams),
        Some(p) => if p.len() != 1 {
            Err(AdminErrorKind::InvalidLen)
        } else {
            match uint_value(admin_param_text(p[0]), 10, u64::MAX as int) {
                Ok(n) => Ok(n as u64),
                Err(_) => Err(AdminErrorKind::ParseError),
            }
        },
    }
}

/// What an admin request asks for: the method its `method` names, refused
/// when it writes and the namespace is read-only, with its parameters read.
pub open spec fn expected_command(tx: JsonValue, readonly: bool) -> Result<CommandView, AdminErrorKind> {
    let params = array_items(field(tx, "params"@));
    let method = match string_chars(field(tx, "method"@)) {
        Some(s) => admin_method_named(s),
        None => None,
    };
    match method {
        None => Err(AdminErrorKind::InvalidMethod),
        Some(m) => if readonly && m.writes() {
            Err(AdminErrorKind::WriteProtectionEnabled)
        } else {
            match m {
                BlutgangRpcMethod::Quit => Ok(CommandView::Quit),
                BlutgangRpcMethod::RpcList => Ok(CommandView::RpcList),
                BlutgangRpcMethod::FlushCache => Ok(CommandView::FlushCache),
                BlutgangRpcMethod::Config => Ok(CommandView::Config),
                BlutgangRpcMethod::PovertyList => Ok(CommandView::PovertyList),
                BlutgangRpcMethod::Ttl => Ok(CommandView::Ttl),
                BlutgangRpcMethod::HealthCheckTtl => Ok(CommandView::HealthCheckTtl),
                BlutgangRpcMethod::SetTtl => match single_number_of(params) {
                    Ok(n) => Ok(CommandView::SetTtl(n)),
                    Err(e) => Err(e),
                },
                BlutgangRpcMethod::SetHealthCheckTtl => match single_number_of(params) {
                    Ok(n) => Ok(CommandView::SetHealthCheckTtl(n)),
                    Err(e) => Err(e),
                },
                BlutgangRpcMethod::AddToRpcList => match new_rpc_of(params) {
                    Ok(n) => Ok(CommandView::AddToRpcList(n)),
                    Err(e) => Err(e),
                },
                BlutgangRpcMethod::AddToPovertyList => match new_rpc_of(params) {
                    Ok(n) => Ok(CommandView::AddToPovertyList(n)),
                    Err(e) => Err(e),
                },
                BlutgangRpcMethod::RemoveFromRpcList => match single_number_of(params) {
                    Ok(n) => Ok(CommandView::RemoveFromRpcList(n)),
                    Err(e) => Err(e),
                },
                BlutgangRpcMethod::RemoveFromPovertyList => match single_number_of(params) {
                    Ok(n) => Ok(CommandView::RemoveFromPovertyList(n)),
                    Err(e) => Err(e),
                },
            }
        },
    }
}

/// The text of a parameter, quotes taken out.
fn param_text(v: &JsonValue) -> (r: String)
    ensures
        r@ == admin_param_text(*v),
{
    let rendered = v.render();
    remove_char(rendered.as_str(), '"')
}

/// A parameter read as a decimal number, or 0.
fn read_number_or_zero(v: &JsonValue, max: u64) -> (r: u64)
    requires
        max >= 36,
    ensures
        r == number_or_zero(*v, max as int),
{
    let text = param_text(v);
    match parse_uint(text.as_str(), 10, max) {
        Ok(n) => n,
        Err(_) => 0,
    }
}

/// Reads the parameters of an add request.
fn read_new_rpc(params: Option<&Vec<JsonValue>>) -> (r: Result<NewRpc, AdminError>)
    ensures
        match r {
            Ok(n) => new_rpc_of(match params {
                Some(p) => Some(p@),
                None => None,
            }) == Ok::<NewRpcView, AdminErrorKind>(new_rpc_view(n)),
            Err(e) => new_rpc_of(match params {
                Some(p) => Some(p@),
                None => None,
            }) == Err::<NewRpcView, AdminErrorKind>(e.kind()),
        },
{
    let params = match params {
        Some(p) => p,
        None => {
            return Err(AdminError::InvalidParams);
        },
    };
    if params.len() != 5 {
        return Err(AdminError::InvalidLen);
    }
    let url = match params[0].as_str() {
        Some(u) => u.to_owned(),
        None => {
            return Err(AdminError::ParseError);
        },
    };
    let ws_url = if params[1].is_null() {
        None
    } else {
        match params[1].as_str() {
            Some(w) => Some(w.to_owned()),
            None => {
                return Err(AdminError::ParseError);
            },
        }
    };
    let max_consecutive = read_number_or_zero(&params[2], 0xffff_ffff) as u32;
    let mut delta = read_number_or_zero(&params[3], u64::MAX);
    if delta != 0 {
        delta = 1_000_000 / delta;
    }
    let ma_len = param_text(&params[4]);
    Ok(NewRpc { url, ws_url, max_consecutive, min_time_delta: delta, ma_len })
}

/// Reads the one number parameter of a request.
fn read_single_number(params: Option<&Vec<JsonValue>>) -> (r: Result<u64, AdminError>)
    ensures
        match r {
            Ok(n) => single_number_of(match params {
                Some(p) => Some(p@),
                None => None,
            }) == Ok::<u64, AdminErrorKind>(n),
            Err(e) => single_number_of(match params {
                Some(p) => Some(p@),
                None => None,
            }) == Err::<u64, AdminErrorKind>(e.kind()),
        },
{
    let params = match params {
        Some(p) => p,
        None => {
            return Err(AdminError::InvalidParams);
        },
    };
    if params.len() != 1 {
        return Err(AdminError::InvalidLen);
    }
    let text = param_text(&params[0]);
    match parse_uint(text.as_str(), 10, u64::MAX) {
        Ok(n) => Ok(n),
        Err(_) => Err(AdminError::ParseError),
    }
}

/// What an admin request asks for; an error when its method is unknown,
/// when it writes and `readonly` is set, or when its parameters do not
/// read. An unknown method's error holds the `method` text given.
pub fn plan_admin_request(tx: &JsonValue, readonly: bool) -> (r: Result<AdminCommand, AdminError>)
    ensures
        match r {
            Ok(c) => expected_command(*tx, readonly) == Ok::<CommandView, AdminErrorKind>(c.view()),
            Err(e) => expected_command(*tx, readonly) == Err::<CommandView, AdminErrorKind>(e.kind())
                && (e matches AdminError::InvalidMethod(inner) ==> lists_admin_names(inner.1@) && match string_chars(
                field(*tx, "method"@),
            ) {
                Some(s) => inner.0 matches Some(g) && g@ == s,
                None => inner.0 is None,
            }),
        },
{
    let method_text = match tx.get("method") {
        Some(m) => m.as_str(),
        None => None,
    };
    let method = match BlutgangRpcMethod::try_from_name(method_text) {
        Ok(m) => m,
        Err(e) => {
            proof {
                if let Some(s) = string_chars(field(*tx, "method"@)) {
                    assert(!(exists|m: BlutgangRpcMethod| m.name() == s));
                }
            }
            return Err(AdminError::InvalidMethod(e));
        },
    };
    proof {
        lemma_admin_method_named(method);
    }
    let writes = match method {
        BlutgangRpcMethod::RpcList | BlutgangRpcMethod::Config | BlutgangRpcMethod::PovertyList
        | BlutgangRpcMethod::Ttl | BlutgangRpcMethod::HealthCheckTtl => false,
        _ => true,
    };
    if readonly && writes {
        return Err(AdminError::WriteProtectionEnabled);
    }
    let params = match tx.get("params") {
        Some(p) => p.as_array(),
        None => None,
    };
    match method {
        BlutgangRpcMethod::Quit => Ok(AdminCommand::Quit),
        BlutgangRpcMethod::RpcList => Ok(AdminCommand::RpcList),
        BlutgangRpcMethod::FlushCache => Ok(AdminCommand::FlushCache),
        BlutgangRpcMethod::Config => Ok(AdminCommand::Config),
        BlutgangRpcMethod::PovertyList => Ok(AdminCommand::PovertyList),
        BlutgangRpcMethod::Ttl => Ok(AdminCommand::Ttl),
        BlutgangRpcMethod::HealthCheckTtl => Ok(AdminCommand::HealthCheckTtl),
        BlutgangRpcMethod::SetTtl => match read_single_number(params) {
            Ok(n) => Ok(AdminCommand::SetTtl(n)),
            Err(e) => Err(e),
        },
        BlutgangRpcMethod::SetHealthCheckTtl => match read_single_number(params) {
            Ok(n) => Ok(AdminCommand::SetHealthCheckTtl(n)),
            Err(e) => Err(e),
        },
        BlutgangRpcMethod::AddToRpcList => match read_new_rpc(params) {
            Ok(n) => Ok(AdminCommand::AddToRpcList(n)),
            Err(e) => Err(e),
        },
        BlutgangRpcMethod::AddToPovertyList => match read_new_rpc(params) {
            Ok(n) => Ok(AdminCommand::AddToPovertyList(n)),
            Err(e) => Err(e),
        },
        BlutgangRpcMethod::RemoveFromRpcList => match read_single_number(params) {
            Ok(n) => Ok(AdminCommand::RemoveFromRpcList(n)),
            Err(e) => Err(e),
        },
        BlutgangRpcMethod::RemoveFromPovertyList => match read_single_number(params) {
            Ok(n) => Ok(AdminCommand::RemoveFromPovertyList(n)),
            Err(e) => Err(e),
        },
    }
}

/// The position a remove request names, in a list of `len` nodes; an
/// error when it is past the end.
pub fn remove_position(index: u64, len: usize) -> (r: Result<usize, AdminError>)
    ensures
        match r {
            Ok(i) => index < len && i == index,
            Err(e) => index >= len && e is OutOfBounds,
        },
{
    if index >= len as u64 {
        return Err(AdminError::OutOfBounds);
    }
    Ok(index as usize)
}

/// How a node is listed: `{"name": "<name>", "max_consecutive": <n>,
/// "last_error": <n>}`.
pub open spec fn rpc_entry_text(rpc: Rpc) -> Seq<char> {
    "{\"name\": \""@ + rpc.name@ + "\", \"max_consecutive\": "@ + dec_text(rpc.max_consecutive as nat)
        + ", \"last_error\": "@ + dec_text(rpc.status.last_error as nat) + "}"@
}

/// The entries of the nodes, one after the other.
pub open spec fn rpc_entries_text(list: Seq<Rpc>) -> Seq<char>
    decreases list.len(),
{
    if list.len() == 0 {
        Seq::empty()
    } else {
        rpc_entries_text(list.drop_last()) + rpc_entry_text(list.last())
    }
}

/// The listing of nodes that the admin namespace answers with: the entries
/// of the nodes between brackets.
pub fn rpc_list_text(list: &Vec<Rpc>) -> (r: String)
    ensures
        r@ == seq!['['] + rpc_entries_text(list@) + seq![']'],
{
    let mut out = String::new();
    out.append("[");
    proof {
        reveal_strlit("[");
        reveal_strlit("]");
    }
    let mut i: usize = 0;
    while i < list.len()
        invariant
            i <= list@.len(),
            out@ == seq!['['] + rpc_entries_text(list@.take(i as int)),
        decreases list@.len() - i,
    {
        let ghost before = out@;
        assert(list@.take(i + 1).drop_last() =~= list@.take(i as int));
        out.append("{\"name\": \"");
        out.append(list[i].name.as_str());
        out.append("\", \"max_consecutive\": ");
        let mc = to_decimal_string(list[i].max_consecutive as u128);
        out.append(mc.as_str());
        out.append(", \"last_error\": ");
        let le = to_decimal_string(list[i].status.last_error as u128);
        out.append(le.as_str());
        out.append("}");
        assert(out@ =~= before + rpc_entry_text(list@[i as int]));
        i = i + 1;
    }
    assert(list@.take(list@.len() as int) =~= list@);
    out.append("]");
    assert(out@ =~= seq!['['] + rpc_entries_text(list@) + seq![']']);
    out
}

/// The answer of the admin namespace: `{"id": null, "jsonrpc": "2.0",
/// "result": result}`.
pub fn admin_response(result: JsonValue) -> (r: JsonValue)
    ensures
        r matches JsonValue::Object(m) && (m@.len() == 3 && m@[0].0@ == "id"@ && m@[0].1 == JsonValue::Null
            && m@[1].0@ == "jsonrpc"@ && string_chars(m@[1].1) == Some("2.0"@)
            && m@[2].0@ == "result"@ && m@[2].1 == result),
{
    let mut members: Vec<(String, JsonValue)> = Vec::new();
    members.push(("id".to_string(), JsonValue::Null));
    members.push(("jsonrpc".to_string(), JsonValue::Str("2.0".to_string())));
    members.push(("result".to_string(), result));
    JsonValue::Object(members)
}

} // verus!
