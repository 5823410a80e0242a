//! Handing subscription messages to their users, and moving subscriptions
//! off a failed node.

use vstd::prelude::*;
use crate::config::system::WS_SUB_MANAGER_ID;
use crate::json::{field, json_u64, string_chars, JsonValue};
use crate::text::dec_text;
use crate::websocket::error::WsError;
use crate::websocket::table::{to_map, unique_keys};
use crate::websocket::types::{
    ids_on, moved_to, requests_on, subscribers_of, Dispatch, RequestResult, SubscriptionData,
};

verus! {

/// `{"id":<id>,"jsonrpc":"2.0","method":<method>,"params":[<param>]}`, with
/// the members in the order a serialized object keeps them.
pub open spec fn manager_request(id: Seq<char>, method: Seq<char>, param: Seq<char>, result: JsonValue) -> bool {
    result matches JsonValue::Object(m) && (m@.len() == 4 && m@[0].0@ == "id"@ && (m@[0].1 matches JsonValue::Number(
        t,
    ) && t@ == id) && m@[1].0@ == "jsonrpc"@ && string_chars(m@[1].1) == Some("2.0"@) && m@[2].0@ == "method"@
        && string_chars(m@[2].1) == Some(method) && m@[3].0@ == "params"@ && (m@[3].1 matches JsonValue::Array(
        p,
    ) && p@.len() == 1 && string_chars(p@[0]) == Some(param)))
}

/// Builds a request of the subscription manager.
fn manager_message(id: u32, method: &str, param: String) -> (r: JsonValue)
    ensures
        manager_request(dec_text(id as nat), method@, param@, r),
{
    let mut params: Vec<JsonValue> = Vec::new();
    params.push(JsonValue::Str(param));
    let mut members: Vec<(String, JsonValue)> = Vec::new();
    members.push(("id".to_string(), JsonValue::from_u64(id as u64)));
    members.push(("jsonrpc".to_string(), JsonValue::Str("2.0".to_string())));
    members.push(("method".to_string(), JsonValue::Str(method.to_string())));
    members.push(("params".to_string(), JsonValue::Array(params)));
    JsonValue::Object(members)
}

/// What to do with a message from a node.
#[derive(Debug)]
pub enum DispatchStep {
    /// It is no subscription message.
    Ignore,
    /// Send it to these users.
    Send(Vec<u32>),
    /// The subscription has no users left: send this unsubscription to the
    /// node.
    Unsubscribe(JsonValue),
}

/// The subscription id of a subscription message.
pub open spec fn message_subscription(content: JsonValue) -> Option<Seq<char>> {
    string_chars(field(field(content, "params"@), "subscription"@))
}

/// Decides what to do with a message from node `node_id`: subscription
/// messages go to the users of their subscription, and a subscription that
/// has none left is ended on the node.
pub fn on_node_message<U>(sub_data: &mut SubscriptionData<U>, content: JsonValue, node_id: usize) -> (r: DispatchStep)
    requires
        old(sub_data).wf(),
        string_chars(field(content, "method"@)) == Some("eth_subscription"@) ==> message_subscription(content) is Some,
    ensures
        final(sub_data).wf(),
        final(sub_data).users_view() == old(sub_data).users_view(),
        final(sub_data).subscribers() == old(sub_data).subscribers(),
        if string_chars(field(content, "method"@)) != Some("eth_subscription"@) {
            r is Ignore && final(sub_data).registrations() == old(sub_data).registrations()
        } else {
            let id = message_subscription(content)->0;
            let key = (node_id, id);
            if old(sub_data).subscribers().contains_key(key) && old(sub_data).subscribers()[key].is_empty() {
                (r matches DispatchStep::Unsubscribe(m) && manager_request(
                    dec_text(WS_SUB_MANAGER_ID as nat),
                    "eth_unsubscribe"@,
                    id,
                    m,
                )) && final(sub_data).registrations() == old(sub_data).registrations().remove(id)
            } else {
                (r matches DispatchStep::Send(v) && v@.no_duplicates() && v@.to_set() == subscribers_of(
                    old(sub_data).subscribers(),
                    key,
                ).filter(|u: u32| old(sub_data).users_view().contains_key(u)))
                    && final(sub_data).registrations() == old(sub_data).registrations()
            }
        },
{
    let is_subscription = match content.get("method") {
        Some(m) => match m.as_str() {
            Some(s) => crate::text::str_eq(s, "eth_subscription"),
            None => false,
        },
        None => false,
    };
    if !is_subscription {
        return DispatchStep::Ignore;
    }
    let id = match content.get("params") {
        Some(p) => match p.get("subscription") {
            Some(s) => s.as_str(),
            None => None,
        },
        None => None,
    };
    let id = match id {
        Some(s) => s.to_owned(),
        None => {
            return DispatchStep::Ignore;
        },
    };
    let message = RequestResult::Subscription(content);
    match sub_data.dispatch_to_subscribers(id.as_str(), node_id, &message) {
        Ok(Dispatch::Unsubscribed) => DispatchStep::Unsubscribe(manager_message(WS_SUB_MANAGER_ID, "eth_unsubscribe", id)),
        Ok(Dispatch::SendTo(v)) => DispatchStep::Send(v),
        Err(_) => DispatchStep::Ignore,
    }
}

/// A move of the subscriptions of a failed node under way: the requests
/// sent to make each subscription again, by the number of the request.
pub struct SubscriptionMove {
    pairs: Vec<(u32, String)>,
}

/// A request of the move: its number and its parameters text.
pub open spec fn pair_view(e: (u32, String)) -> (u32, Seq<char>) {
    (e.0, e.1@)
}

impl SubscriptionMove {
    /// The requests still waiting for an answer, by number.
    pub closed spec fn pending(&self) -> Map<u32, Seq<char>> {
        to_map(self.pairs@.map_values(|e: (u32, String)| pair_view(e)))
    }

    /// No request number occurs twice.
    pub closed spec fn wf(&self) -> bool {
        unique_keys(self.pairs@.map_values(|e: (u32, String)| pair_view(e)))
    }

    /// Handles an answer from node `node_id` during the move: the answer to
    /// one of the move's requests moves the users of the subscription that
    /// request was registered for to that node, and the request is done.
    pub fn on_response<U>(&mut self, sub_data: &mut SubscriptionData<U>, content: &JsonValue, node_id: usize) -> (r: Result<(), WsError>)
        requires
            old(self).wf(),
            old(sub_data).wf(),
        ensures
            final(self).wf(),
            final(sub_data).wf(),
            final(sub_data).users_view() == old(sub_data).users_view(),
            match json_u64(field(*content, "id"@)) {
                None => (r matches Err(WsError::InvalidData(m)) && m@ == "No ID in response!"@)
                    && final(self).pending() == old(self).pending()
                    && final(sub_data).subscribers() == old(sub_data).subscribers()
                    && final(sub_data).registrations() == old(sub_data).registrations(),
                Some(n) => {
                    let k = n as u32;
                    if !old(self).pending().contains_key(k) {
                        r is Ok && final(self).pending() == old(self).pending() && final(sub_data).subscribers()
                            == old(sub_data).subscribers() && final(sub_data).registrations()
                            == old(sub_data).registrations()
                    } else {
                        let params = old(self).pending()[k];
                        if !old(sub_data).registrations().contains_key(params) {
                            (r matches Err(WsError::MissingSubscription())) && final(self).pending() == old(
                                self,
                            ).pending() && final(sub_data).subscribers() == old(sub_data).subscribers()
                                && final(sub_data).registrations() == old(sub_data).registrations()
                        } else {
                            let sid = old(sub_data).registrations()[params].1;
                            match r {
                                Ok(()) => final(self).pending() == old(self).pending().remove(k) && exists|
                                    key: (usize, Seq<char>),
                                |
                                    #[trigger] old(sub_data).subscribers().contains_key(key) && key.1 == sid
                                        && !old(sub_data).subscribers()[key].is_empty()
                                        && final(sub_data).subscribers() == moved_to(
                                        old(sub_data).subscribers(),
                                        old(sub_data).subscribers()[key],
                                        (node_id, sid),
                                    ) && final(sub_data).registrations() == old(sub_data).registrations().insert(
                                        params,
                                        (node_id, sid),
                                    ),
                                Err(e) => {
                                    &&& e matches WsError::EmptyList(m) && m@ == "User list empty!"@
                                    &&& final(self).pending() == old(self).pending()
                                    &&& final(sub_data).subscribers() == old(sub_data).subscribers()
                                    &&& final(sub_data).registrations() == old(sub_data).registrations()
                                    &&& (forall|key: (usize, Seq<char>)|
                                        #[trigger] old(sub_data).subscribers().contains_key(key) ==> key.1 != sid)
                                        || exists|key: (usize, Seq<char>)|
                                        #[trigger] old(sub_data).subscribers().contains_key(key) && key.1 == sid
                                            && old(sub_data).subscribers()[key].is_empty()
                                },
                            }
                        }
                    }
                },
            },
    {
        let ghost pv = self.pairs@.map_values(|e: (u32, String)| pair_view(e));
        proof {
            crate::websocket::table::lemma_to_map_lookup(pv);
        }
        let pair_id: u32 = match content.get("id") {
            Some(v) => match v.as_u64() {
                Some(n) => n as u32,
                None => {
                    return Err(WsError::InvalidData("No ID in response!".to_string()));
                },
            },
            None => {
                return Err(WsError::InvalidData("No ID in response!".to_string()));
            },
        };
        let mut found: Option<usize> = None;
        let mut j: usize = 0;
        while j < self.pairs.len() && found.is_none()
            invariant
                j <= self.pairs@.len(),
                pv == self.pairs@.map_values(|e: (u32, String)| pair_view(e)),
                match found {
                    Some(f) => f < self.pairs@.len() && self.pairs@[f as int].0 == pair_id,
                    None => forall|k: int| 0 <= k < j ==> (#[trigger] self.pairs@[k]).0 != pair_id,
                },
            decreases self.pairs@.len() - j,
        {
            if self.pairs[j].0 == pair_id {
                found = Some(j);
            }
            j = j + 1;
        }
        let i = match found {
            Some(f) => f,
            None => {
                proof {
                    assert forall|a: int| 0 <= a < pv.len() implies pv[a].0 != pair_id by {
                        assert(pv[a] == pair_view(self.pairs@[a]));
                    }
                    assert(!self.pending().contains_key(pair_id));
                }
                return Ok(());
            },
        };
        proof {
            assert(pv[i as int] == pair_view(self.pairs@[i as int]));
            assert(self.pending()[pv[i as int].0] == pv[i as int].1);
            assert(self.pending()[pair_id] == self.pairs@[i as int].1@);
        }
        let params = self.pairs[i].1.clone();
        let sub_id = match sub_data.get_sub_id_by_params(params.as_str()) {
            Some(s) => s,
            None => {
                return Err(WsError::MissingSubscription());
            },
        };
        match sub_data.move_subscriptions(node_id, params, sub_id) {
            Ok(()) => {},
            Err(e) => {
                return Err(e);
            },
        }
        let ghost before = self.pairs@;
        self.pairs.remove(i);
        proof {
            assert(self.pairs@ == before.remove(i as int));
            assert(self.pairs@.map_values(|e: (u32, String)| pair_view(e)) =~= pv.remove(i as int));
            crate::websocket::table::lemma_to_map_remove(pv, i as int);
        }
        Ok(())
    }

    /// Whether every request was answered.
    pub fn is_done(&self) -> (r: bool)
        requires
            self.wf(),
        ensures
            r == self.pending().is_empty(),
    {
        proof {
            let pv = self.pairs@.map_values(|e: (u32, String)| pair_view(e));
            crate::websocket::table::lemma_to_map_lookup(pv);
            if self.pairs@.len() > 0 {
                assert(pv[0] == pair_view(self.pairs@[0]));
                assert(self.pending().contains_key(pv[0].0));
            } else {
                assert(self.pending() =~= Map::<u32, Seq<char>>::empty());
            }
        }
        self.pairs.len() == 0
    }
}

/// Starts moving the subscriptions of node `node_id`: the messages to send
/// (an unsubscription to the node for each of its subscription ids, then a
/// new subscription request, to any node, for each of its requests), and
/// the move, waiting for the answers to those requests.
pub fn start_move<U>(sub_data: &SubscriptionData<U>, node_id: usize) -> (r: (Vec<(JsonValue, Option<usize>)>, SubscriptionMove))
    requires
        sub_data.wf(),
        sub_data.reg_entries().len() < 0xffff_0000,
    ensures
        r.1.wf(),
        ({
            let ids = ids_on(sub_data.reg_entries(), node_id);
            let subs = requests_on(sub_data.reg_entries(), node_id);
            &&& r.0@.len() == ids.len() + subs.len()
            &&& forall|i: int| 0 <= i < ids.len() ==> r.0@[i].1 == Some(node_id) && manager_request(
                dec_text(WS_SUB_MANAGER_ID as nat),
                "eth_unsubscribe"@,
                #[trigger] ids[i],
                r.0@[i].0,
            )
            &&& forall|j: int| 0 <= j < subs.len() ==> r.0@[ids.len() + j].1 is None && manager_request(
                dec_text((WS_SUB_MANAGER_ID + 32001 + j) as nat),
                "eth_subscribe"@,
                #[trigger] subs[j],
                r.0@[ids.len() + j].0,
            )
            &&& r.1.pending() == Map::new(
                |k: u32| WS_SUB_MANAGER_ID + 32001 <= k < WS_SUB_MANAGER_ID + 32001 + subs.len(),
                |k: u32| subs[k - (WS_SUB_MANAGER_ID + 32001)],
            )
        }),
{
    let subs = sub_data.get_subscription_by_node(node_id);
    proof {
        lemma_requests_on_len(sub_data.reg_entries(), node_id);
    }
    let ids = sub_data.get_sub_id_by_node(node_id);
    let ghost id_views = ids@.map_values(|s: String| s@);
    let ghost sub_views = subs@.map_values(|s: String| s@);
    let mut messages: Vec<(JsonValue, Option<usize>)> = Vec::new();
    let mut i: usize = 0;
    assert(id_views.len() == ids@.len());
    while i < ids.len()
        invariant
            i <= ids@.len(),
            id_views == ids@.map_values(|s: String| s@),
            messages@.len() == i,
            forall|k: int| #![trigger messages@[k]] 0 <= k < i ==> messages@[k].1 == Some(node_id) && manager_request(
                dec_text(WS_SUB_MANAGER_ID as nat),
                "eth_unsubscribe"@,
                id_views[k],
                messages@[k].0,
            ),
        decreases ids@.len() - i,
    {
        let ghost before = messages@;
        let param = ids[i].clone();
        let m = manager_message(WS_SUB_MANAGER_ID, "eth_unsubscribe", param);
        assert(manager_request(dec_text(WS_SUB_MANAGER_ID as nat), "eth_unsubscribe"@, param@, m));
        assert(param@ == id_views[i as int]);
        messages.push((m, Some(node_id)));
        proof {
            assert(messages@[i as int] == (m, Some(node_id)));
            assert forall|k: int| #![trigger messages@[k]] 0 <= k < i + 1 implies messages@[k].1 == Some(node_id) && manager_request(
                dec_text(WS_SUB_MANAGER_ID as nat),
                "eth_unsubscribe"@,
                id_views[k],
                messages@[k].0,
            ) by {
                if k < i {
                    assert(messages@[k] == before[k]);
                    assert(before[k].1 == Some(node_id));
                    assert(manager_request(dec_text(WS_SUB_MANAGER_ID as nat), "eth_unsubscribe"@, id_views[k], before[k].0));
                } else {
                    assert(k == i);
                    assert(messages@[k].0 == m);
                    assert(manager_request(dec_text(WS_SUB_MANAGER_ID as nat), "eth_unsubscribe"@, id_views[k], m));
                }
            }
        }
        i = i + 1;
    }
    let mut pairs: Vec<(u32, String)> = Vec::new();
    let mut sub_msgs: Vec<(JsonValue, Option<usize>)> = Vec::new();
    let mut id: u32 = WS_SUB_MANAGER_ID + 32000;
    let mut j: usize = 0;
    while j < subs.len()
        invariant
            j <= subs@.len(),
            sub_views == subs@.map_values(|s: String| s@),
            sub_msgs@.len() == j,
            forall|k: int| #![trigger sub_msgs@[k]] 0 <= k < j ==> sub_msgs@[k].1 is None && manager_request(
                dec_text((WS_SUB_MANAGER_ID + 32001 + k) as nat),
                "eth_subscribe"@,
                sub_views[k],
                sub_msgs@[k].0,
            ),
            id == WS_SUB_MANAGER_ID + 32000 + j,
            subs@.len() < 0xffff_0000,
            pairs@.len() == j,
            forall|k: int| 0 <= k < j ==> (#[trigger] pairs@[k]).1@ == sub_views[k],
            forall|k: int| 0 <= k < j ==> (#[trigger] pairs@[k]).0 == WS_SUB_MANAGER_ID + 32001 + k,
        decreases subs@.len() - j,
    {
        id = id + 1;
        let ghost before = sub_msgs@;
        let ghost before_pairs = pairs@;
        let param = subs[j].clone();
        let m = manager_message(id, "eth_subscribe", param);
        assert(param@ == sub_views[j as int]);
        sub_msgs.push((m, None));
        pairs.push((id, subs[j].clone()));
        proof {
            assert forall|k: int| #![trigger sub_msgs@[k]] 0 <= k < j + 1 implies sub_msgs@[k].1 is None && manager_request(
                dec_text((WS_SUB_MANAGER_ID + 32001 + k) as nat),
                "eth_subscribe"@,
                sub_views[k],
                sub_msgs@[k].0,
            ) by {
                if k < j {
                    assert(sub_msgs@[k] == before[k]);
                } else {
                    assert(sub_msgs@[k].0 == m);
                }
            }
            assert forall|k: int| 0 <= k < j + 1 implies (#[trigger] pairs@[k]).1@ == sub_views[k] && pairs@[k].0
                == WS_SUB_MANAGER_ID + 32001 + k by {
                if k < j {
                    assert(pairs@[k] == before_pairs[k]);
                }
            }
        }
        j = j + 1;
    }
    let ghost first = messages@;
    let ghost second = sub_msgs@;
    messages.append(&mut sub_msgs);
    assert(messages@ == first + second);
    proof {
        let ids_spec = ids_on(sub_data.reg_entries(), node_id);
        let subs_spec = requests_on(sub_data.reg_entries(), node_id);
        assert(id_views == ids_spec);
        assert(sub_views == subs_spec);
        assert forall|k: int| 0 <= k < ids_spec.len() implies messages@[k].1 == Some(node_id) && manager_request(
            dec_text(WS_SUB_MANAGER_ID as nat),
            "eth_unsubscribe"@,
            #[trigger] ids_spec[k],
            messages@[k].0,
        ) by {
            assert(messages@[k] == first[k]);
        }
        assert forall|k: int| 0 <= k < subs_spec.len() implies messages@[ids_spec.len() + k].1 is None && manager_request(
            dec_text((WS_SUB_MANAGER_ID + 32001 + k) as nat),
            "eth_subscribe"@,
            #[trigger] subs_spec[k],
            messages@[ids_spec.len() + k].0,
        ) by {
            assert(first.len() == ids_spec.len());
            assert(messages@[ids_spec.len() + k] == second[k]);
        }
    }
    let state = SubscriptionMove { pairs };
    proof {
        let pv = state.pairs@.map_values(|e: (u32, String)| pair_view(e));
        assert forall|a: int, b: int| 0 <= a < b < pv.len() implies pv[a].0 != pv[b].0 by {
            assert(pv[a] == pair_view(state.pairs@[a]));
            assert(pv[b] == pair_view(state.pairs@[b]));
        }
        crate::websocket::table::lemma_to_map_lookup(pv);
        assert(sub_views.len() == subs@.len());
        let base = WS_SUB_MANAGER_ID + 32001;
        assert forall|k: u32| #[trigger] state.pending().contains_key(k) <==> base <= k < base + sub_views.len() by {
            if state.pending().contains_key(k) {
                let a = choose|a: int| 0 <= a < pv.len() && pv[a].0 == k;
                assert(pv[a] == pair_view(state.pairs@[a]));
            }
            if base <= k < base + sub_views.len() {
                let a = k - base;
                assert(pv[a] == pair_view(state.pairs@[a]));
            }
        }
        assert forall|k: u32| #[trigger] state.pending().contains_key(k) implies state.pending()[k] == sub_views[k - base] by {
            let a = k - base;
            assert(pv[a] == pair_view(state.pairs@[a]));
            assert(state.pending()[pv[a].0] == pv[a].1);
        }
        assert(state.pending() =~= Map::new(
            |k: u32| base <= k < base + sub_views.len(),
            |k: u32| sub_views[k - base],
        ));
    }
    (messages, state)
}

/// There are no more requests on a node than registrations.
proof fn lemma_requests_on_len(regs: Seq<(Seq<char>, (usize, Seq<char>))>, node: usize)
    ensures
        requests_on(regs, node).len() <= regs.len(),
    decreases regs.len(),
{
    if regs.len() > 0 {
        lemma_requests_on_len(regs.drop_last(), node);
    }
}

} // verus!
