//! Carrying out admin requests: the changes to the node lists and the
//! ttls, and the answers.

use vstd::prelude::*;
use crate::admin::error::AdminError;
use crate::admin::methods::{
    admin_response, expected_command, lists_admin_names, plan_admin_request, remove_position,
    rpc_entries_text, rpc_list_text, AdminCommand, AdminErrorKind, CommandView, NewRpc, NewRpcView,
};
use crate::config::cli_args::is_fresh_rpc;
use crate::json::{field, string_chars, JsonValue};
use crate::rpc::types::{opt_chars, Rpc};
use crate::text::{dec_text, to_decimal_string};

verus! {

/// The ttls that the admin namespace reads and sets.
#[derive(Debug, Clone, Copy, PartialEq, Eq, Structural)]
pub struct AdminTtls {
    /// How long to wait for a node, in milliseconds.
    pub ttl: u128,
    /// How often the health check runs, in milliseconds.
    pub health_check_ttl: u64,
}

/// What an admin request leads to.
#[derive(Debug)]
pub enum AdminEffect {
    /// Answer with this value.
    Answer(JsonValue),
    /// A node was added: the answer names its URL, its most requests in a
    /// row and its moving-average length (a number the caller writes).
    Added { url: String, max_consecutive: u32, ma_len: String },
    /// Flush the cache and stop.
    Quit,
    /// Flush the cache and answer how long it took.
    FlushCache,
    /// Answer with the settings.
    Config,
}

/// The `result` of an answer of the admin namespace,
/// `{"id": null, "jsonrpc": "2.0", "result": result}`.
pub open spec fn admin_result(v: JsonValue) -> Option<JsonValue> {
    match v {
        JsonValue::Object(m) => if m@.len() == 3 && m@[0].0@ == "id"@ && m@[0].1 == JsonValue::Null
            && m@[1].0@ == "jsonrpc"@ && string_chars(m@[1].1) == Some("2.0"@) && m@[2].0@ == "result"@ {
            Some(m@[2].1)
        } else {
            None
        },
        _ => None,
    }
}

/// The effect is an answer whose result is the text `text`.
pub open spec fn answers_text(e: AdminEffect, text: Seq<char>) -> bool {
    e matches AdminEffect::Answer(v) && (admin_result(v) matches Some(res) && string_chars(res) == Some(text))
}

/// The effect is an answer whose result is the number `n`.
pub open spec fn answers_number(e: AdminEffect, n: nat) -> bool {
    e matches AdminEffect::Answer(v) && (admin_result(v) matches Some(res) && (res matches JsonValue::Number(t)
        && t@ == dec_text(n)))
}

/// `after` is `before` with the node `n` added at its end.
pub open spec fn node_added(before: Seq<Rpc>, n: NewRpcView, after: Seq<Rpc>) -> bool {
    &&& after.len() == before.len() + 1
    &&& after.drop_last() == before
    &&& is_fresh_rpc(after.last(), n.0, n.1, n.2 as int, n.3 as int)
}

/// The effect names the node `n` that was added.
pub open spec fn names_added(e: AdminEffect, n: NewRpcView) -> bool {
    e matches AdminEffect::Added { url, max_consecutive, ma_len } && url@ == n.0 && max_consecutive == n.2
        && ma_len@ == n.4
}

/// What carrying out `c` does: from the node list `rl`, the poverty list
/// `pl` and the ttls `t` it leads to the result `r`, the lists `rl2` and
/// `pl2` and the ttls `t2`.
pub open spec fn admin_executed(
    c: CommandView,
    rl: Seq<Rpc>,
    pl: Seq<Rpc>,
    t: AdminTtls,
    r: Result<AdminEffect, AdminError>,
    rl2: Seq<Rpc>,
    pl2: Seq<Rpc>,
    t2: AdminTtls,
) -> bool {
    match c {
        CommandView::Quit => (r matches Ok(AdminEffect::Quit)) && rl2 == rl && pl2 == pl && t2 == t,
        CommandView::FlushCache => (r matches Ok(AdminEffect::FlushCache)) && rl2 == rl && pl2 == pl && t2 == t,
        CommandView::Config => (r matches Ok(AdminEffect::Config)) && rl2 == rl && pl2 == pl && t2 == t,
        CommandView::RpcList => (r matches Ok(e) && answers_text(e, seq!['['] + rpc_entries_text(rl) + seq![']']))
            && rl2 == rl && pl2 == pl && t2 == t,
        CommandView::PovertyList => (r matches Ok(e) && answers_text(e, seq!['['] + rpc_entries_text(pl) + seq![']']))
            && rl2 == rl && pl2 == pl && t2 == t,
        CommandView::Ttl => (r matches Ok(e) && answers_number(e, t.ttl as nat)) && rl2 == rl && pl2 == pl && t2 == t,
        CommandView::HealthCheckTtl => (r matches Ok(e) && answers_number(e, t.health_check_ttl as nat)) && rl2 == rl
            && pl2 == pl && t2 == t,
        CommandView::SetTtl(n) => (r matches Ok(e) && answers_number(e, n as nat)) && rl2 == rl && pl2 == pl && t2
            == (AdminTtls { ttl: n as u128, ..t }),
        CommandView::SetHealthCheckTtl(n) => (r matches Ok(e) && answers_number(e, n as nat)) && rl2 == rl && pl2
            == pl && t2 == (AdminTtls { health_check_ttl: n, ..t }),
        CommandView::AddToRpcList(n) => (r matches Ok(e) && names_added(e, n)) && node_added(rl, n, rl2) && pl2 == pl
            && t2 == t,
        CommandView::AddToPovertyList(n) => (r matches Ok(e) && names_added(e, n)) && node_added(pl, n, pl2) && rl2
            == rl && t2 == t,
        CommandView::RemoveFromRpcList(i) => (if i < rl.len() {
            (r matches Ok(e) && answers_text(e, rl[i as int].name@)) && rl2 == rl.remove(i as int)
        } else {
            (r matches Err(AdminError::OutOfBounds)) && rl2 == rl
        }) && pl2 == pl && t2 == t,
        CommandView::RemoveFromPovertyList(i) => (if i < pl.len() {
            (r matches Ok(e) && answers_text(e, pl[i as int].name@)) && pl2 == pl.remove(i as int)
        } else {
            (r matches Err(AdminError::OutOfBounds)) && pl2 == pl
        }) && rl2 == rl && t2 == t,
    }
}

/// The answer with a number as its result.
fn number_answer(n: u128) -> (r: AdminEffect)
    ensures
        answers_number(r, n as nat),
{
    AdminEffect::Answer(admin_response(JsonValue::Number(to_decimal_string(n))))
}

/// The answer with a text as its result.
fn text_answer(text: String) -> (r: AdminEffect)
    ensures
        answers_text(r, text@),
{
    AdminEffect::Answer(admin_response(JsonValue::Str(text)))
}

/// Removes node `index` from `list` and returns its name; an error, with
/// the list unchanged, when there is no such node.
pub fn remove_rpc(list: &mut Vec<Rpc>, index: u64) -> (r: Result<String, AdminError>)
    ensures
        match r {
            Ok(name) => index < old(list)@.len() && final(list)@ == old(list)@.remove(index as int) && name@
                == old(list)@[index as int].name@,
            Err(e) => index >= old(list)@.len() && (e is OutOfBounds) && final(list)@ == old(list)@,
        },
{
    let position = match remove_position(index, list.len()) {
        Ok(p) => p,
        Err(e) => {
            return Err(e);
        },
    };
    let removed = list.remove(position);
    Ok(removed.name)
}

/// Adds node `new` at the end of `list`.
pub fn add_rpc(list: &mut Vec<Rpc>, new: NewRpc) -> (r: AdminEffect)
    ensures
        node_added(
            old(list)@,
            (new.url@, opt_chars(new.ws_url), new.max_consecutive, new.min_time_delta, new.ma_len@),
            final(list)@,
        ),
        names_added(r, (new.url@, opt_chars(new.ws_url), new.max_consecutive, new.min_time_delta, new.ma_len@)),
{
    let NewRpc { url, ws_url, max_consecutive, min_time_delta, ma_len } = new;
    let name_url = url.clone();
    let rpc = Rpc::new(url, ws_url, max_consecutive, min_time_delta as u128);
    let ghost before = list@;
    list.push(rpc);
    assert(list@.drop_last() =~= before);
    AdminEffect::Added { url: name_url, max_consecutive, ma_len }
}

/// Carries out an admin command on the node lists and the ttls.
pub fn execute_command(
    command: AdminCommand,
    rpc_list: &mut Vec<Rpc>,
    poverty_list: &mut Vec<Rpc>,
    ttls: &mut AdminTtls,
) -> (r: Result<AdminEffect, AdminError>)
    ensures
        admin_executed(
            command.view(),
            old(rpc_list)@,
            old(poverty_list)@,
            *old(ttls),
            r,
            final(rpc_list)@,
            final(poverty_list)@,
            *final(ttls),
        ),
{
    match command {
        AdminCommand::Quit => Ok(AdminEffect::Quit),
        AdminCommand::FlushCache => Ok(AdminEffect::FlushCache),
        AdminCommand::Config => Ok(AdminEffect::Config),
        AdminCommand::RpcList => Ok(text_answer(rpc_list_text(rpc_list))),
        AdminCommand::PovertyList => Ok(text_answer(rpc_list_text(poverty_list))),
        AdminCommand::Ttl => Ok(number_answer(ttls.ttl)),
        AdminCommand::HealthCheckTtl => Ok(number_answer(ttls.health_check_ttl as u128)),
        AdminCommand::SetTtl(n) => {
            ttls.ttl = n as u128;
            Ok(number_answer(n as u128))
        },
        AdminCommand::SetHealthCheckTtl(n) => {
            ttls.health_check_ttl = n;
            Ok(number_answer(n as u128))
        },
        AdminCommand::AddToRpcList(new) => Ok(add_rpc(rpc_list, new)),
        AdminCommand::AddToPovertyList(new) => Ok(add_rpc(poverty_list, new)),
        AdminCommand::RemoveFromRpcList(index) => match remove_rpc(rpc_list, index) {
            Ok(name) => Ok(text_answer(name)),
            Err(e) => Err(e),
        },
        AdminCommand::RemoveFromPovertyList(index) => match remove_rpc(poverty_list, index) {
            Ok(name) => Ok(text_answer(name)),
            Err(e) => Err(e),
        },
    }
}

/// Reads an admin request and carries it out: an error, with nothing
/// changed, when its method is unknown, when it writes while `readonly` is
/// set, or when its parameters do not read.
pub fn execute_method(
    tx: &JsonValue,
    readonly: bool,
    rpc_list: &mut Vec<Rpc>,
    poverty_list: &mut Vec<Rpc>,
    ttls: &mut AdminTtls,
) -> (r: Result<AdminEffect, AdminError>)
    ensures
        match expected_command(*tx, readonly) {
            Ok(c) => admin_executed(
                c,
                old(rpc_list)@,
                old(poverty_list)@,
                *old(ttls),
                r,
                final(rpc_list)@,
                final(poverty_list)@,
                *final(ttls),
            ),
            Err(k) => {
                &&& r matches Err(e) && e.kind() == k
                &&& final(rpc_list)@ == old(rpc_list)@
                &&& final(poverty_list)@ == old(poverty_list)@
                &&& *final(ttls) == *old(ttls)
                &&& r matches Err(AdminError::InvalidMethod(inner)) ==> lists_admin_names(inner.1@) && match string_chars(
                    field(*tx, "method"@),
                ) {
                    Some(s) => inner.0 matches Some(g) && g@ == s,
                    None => inner.0 is None,
                }
            },
        },
{
    match plan_admin_request(tx, readonly) {
        Ok(command) => execute_command(command, rpc_list, poverty_list, ttls),
        Err(e) => Err(e),
    }
}

/// After `blutgang_set_ttl` with `n`, `blutgang_ttl` answers `n`, and
/// neither call touches the node lists.
pub proof fn lemma_ttl_read_after_set(
    n: u64,
    rl: Seq<Rpc>,
    pl: Seq<Rpc>,
    t: AdminTtls,
    r1: Result<AdminEffect, AdminError>,
    rl1: Seq<Rpc>,
    pl1: Seq<Rpc>,
    t1: AdminTtls,
    r2: Result<AdminEffect, AdminError>,
    rl2: Seq<Rpc>,
    pl2: Seq<Rpc>,
    t2: AdminTtls,
)
    requires
        admin_executed(CommandView::SetTtl(n), rl, pl, t, r1, rl1, pl1, t1),
        admin_executed(CommandView::Ttl, rl1, pl1, t1, r2, rl2, pl2, t2),
    ensures
        r2 matches Ok(e) && answers_number(e, n as nat),
        t2.ttl == n,
        t2.health_check_ttl == t.health_check_ttl,
        rl2 == rl,
        pl2 == pl,
{
}

/// Removing the node that `blutgang_add_to_rpc_list` just added (the last
/// one) gives back the list as it was, and answers with that node's name.
pub proof fn lemma_remove_undoes_add(
    node: NewRpcView,
    rl: Seq<Rpc>,
    pl: Seq<Rpc>,
    t: AdminTtls,
    r1: Result<AdminEffect, AdminError>,
    rl1: Seq<Rpc>,
    pl1: Seq<Rpc>,
    t1: AdminTtls,
    r2: Result<AdminEffect, AdminError>,
    rl2: Seq<Rpc>,
    pl2: Seq<Rpc>,
    t2: AdminTtls,
)
    requires
        rl.len() < u64::MAX,
        admin_executed(CommandView::AddToRpcList(node), rl, pl, t, r1, rl1, pl1, t1),
        admin_executed(CommandView::RemoveFromRpcList(rl.len() as u64), rl1, pl1, t1, r2, rl2, pl2, t2),
    ensures
        r2 matches Ok(e) && answers_text(e, rl1.last().name@),
        rl2 == rl,
        pl2 == pl,
        t2 == t,
{
    assert(rl1.remove(rl.len() as int) =~= rl1.drop_last());
}

} // verus!
