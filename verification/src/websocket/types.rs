//! Who is subscribed to what: the users connected over WebSocket, the
//! subscriptions the balancer made on the nodes, and the users each of
//! them serves.

use vstd::prelude::*;
use crate::json::{array_items, field, render, JsonValue};
use crate::text::str_eq;
use crate::websocket::error::WsError;
use crate::websocket::table::{
    lemma_to_map_lookup, lemma_to_map_map_entries, lemma_to_map_map_values, lemma_to_map_push,
    lemma_to_map_remove, lemma_to_map_update, to_map, unique_keys,
};

verus! {

/// What came back for a user: the answer to a call, or a subscription
/// message.
#[derive(Debug)]
pub enum RequestResult {
    Call(JsonValue),
    Subscription(JsonValue),
}

/// A message to the connection manager: a user's call (with the node it
/// should go to, if any), or the order to reconnect.
#[derive(Debug)]
pub enum WsconnMessage {
    Message(JsonValue, Option<usize>),
    Reconnect(),
}

/// A node's connection closed.
#[derive(Debug, Clone, Copy, PartialEq, Eq, Structural)]
pub enum WsChannelErr {
    Closed(usize),
}

/// A message from a node.
#[derive(Debug)]
pub struct IncomingResponse {
    pub content: JsonValue,
    pub node_id: usize,
}

/// A subscription on a node: the node and the id the node gave it.
#[derive(Debug)]
pub struct NodeSubInfo {
    pub node_id: usize,
    pub subscription_id: String,
}

impl NodeSubInfo {
    /// The node and the subscription id.
    pub open spec fn key(self) -> (usize, Seq<char>) {
        (self.node_id, self.subscription_id@)
    }

    /// Whether both name the same subscription on the same node.
    pub fn same(&self, other: &NodeSubInfo) -> (r: bool)
        ensures
            r == (self.key() == other.key()),
    {
        self.node_id == other.node_id && str_eq(self.subscription_id.as_str(), other.subscription_id.as_str())
    }

    /// A copy.
    pub fn duplicate(&self) -> (r: NodeSubInfo)
        ensures
            r == *self,
    {
        NodeSubInfo { node_id: self.node_id, subscription_id: self.subscription_id.clone() }
    }
}

/// A subscription and its subscribers, as keys and a set.
pub open spec fn sub_view(e: (NodeSubInfo, Vec<u32>)) -> ((usize, Seq<char>), Set<u32>) {
    (e.0.key(), e.1@.to_set())
}

/// A registration: the request text and the subscription it made.
pub open spec fn reg_view(e: (String, NodeSubInfo)) -> (Seq<char>, (usize, Seq<char>)) {
    (e.0@, e.1.key())
}

/// The users of subscription `k` (none when there is no such
/// subscription).
pub open spec fn subscribers_of(m: Map<(usize, Seq<char>), Set<u32>>, k: (usize, Seq<char>)) -> Set<u32> {
    if m.contains_key(k) {
        m[k]
    } else {
        Set::empty()
    }
}

/// `m` with the users `gone` taken out of every subscription whose id is
/// `id`.
pub open spec fn without_users(
    m: Map<(usize, Seq<char>), Set<u32>>,
    gone: Set<u32>,
    id: Seq<char>,
) -> Map<(usize, Seq<char>), Set<u32>> {
    Map::new(
        |k: (usize, Seq<char>)| m.contains_key(k),
        |k: (usize, Seq<char>)|
            if k.1 == id {
                m[k].difference(gone)
            } else {
                m[k]
            },
    )
}

/// The subscription ids registered on `node`, in the order of the
/// registrations.
pub open spec fn ids_on(regs: Seq<(Seq<char>, (usize, Seq<char>))>, node: usize) -> Seq<Seq<char>>
    decreases regs.len(),
{
    if regs.len() == 0 {
        Seq::empty()
    } else {
        let rest = ids_on(regs.drop_last(), node);
        if regs.last().1.0 == node {
            rest.push(regs.last().1.1)
        } else {
            rest
        }
    }
}

/// What `serde_json` makes of a text read as a list of strings and printed
/// back, or `None` when the text is no such list.
pub uninterp spec fn string_list_json(s: Seq<char>) -> Option<Seq<char>>;

/// Calls `serde_json::from_str::<Vec<String>>` and, on success,
/// `serde_json::to_string` on the list. Its result is named by
/// `string_list_json`.
#[verifier::external_body]
fn reprint_string_list(s: &str) -> (r: Option<String>)
    ensures
        match r {
            Some(t) => string_list_json(s@) == Some(t@),
            None => string_list_json(s@) is None,
        },
{
    match serde_json::from_str::<Vec<String>>(s) {
        Ok(v) => match serde_json::to_string(&v) {
            Ok(t) => Some(t),
            Err(_) => None,
        },
        Err(_) => None,
    }
}

/// The request texts registered on `node`, each read as a list of strings
/// and printed back, in the order of the registrations; texts that are no
/// such list are left out.
pub open spec fn requests_on(regs: Seq<(Seq<char>, (usize, Seq<char>))>, node: usize) -> Seq<Seq<char>>
    decreases regs.len(),
{
    if regs.len() == 0 {
        Seq::empty()
    } else {
        let rest = requests_on(regs.drop_last(), node);
        if regs.last().1.0 == node {
            match string_list_json(regs.last().0) {
                Some(t) => rest.push(t),
                None => rest,
            }
        } else {
            rest
        }
    }
}

/// The subscriptions after the users `moved` of a subscription were taken
/// out of every subscription with the id of `info` (on any node) and
/// subscribed to `info`, that id on its new node, instead.
pub open spec fn moved_to(
    m: Map<(usize, Seq<char>), Set<u32>>,
    moved: Set<u32>,
    info: (usize, Seq<char>),
) -> Map<(usize, Seq<char>), Set<u32>> {
    let w = without_users(m, moved, info.1);
    w.insert(info, subscribers_of(w, info).union(moved))
}

/// What to do with a subscription message from a node.
#[derive(Debug)]
pub enum Dispatch {
    /// The subscription had no users left and was unregistered.
    Unsubscribed,
    /// Send the message to these users.
    SendTo(Vec<u32>),
}

/// The subscriptions of users, and the subscriptions made on the nodes.
///
/// A subscription request is made once on a node and shared by every user
/// who asks for it: `registrations` maps the text of a request's
/// parameters to the subscription made for it, and `subscribers` maps each
/// subscription to the users it serves.
pub struct SubscriptionData<U> {
    users: Vec<(u32, U)>,
    subscriptions: Vec<(NodeSubInfo, Vec<u32>)>,
    incoming_subscriptions: Vec<(String, NodeSubInfo)>,
}

impl<U> SubscriptionData<U> {
    /// The users, in the order they came.
    pub closed spec fn user_entries(&self) -> Seq<(u32, U)> {
        self.users@
    }

    /// The subscriptions and their subscribers, in the order they were made.
    pub closed spec fn sub_entries(&self) -> Seq<((usize, Seq<char>), Set<u32>)> {
        self.subscriptions@.map_values(|e: (NodeSubInfo, Vec<u32>)| sub_view(e))
    }

    /// The registrations, in the order they were made.
    pub closed spec fn reg_entries(&self) -> Seq<(Seq<char>, (usize, Seq<char>))> {
        self.incoming_subscriptions@.map_values(|e: (String, NodeSubInfo)| reg_view(e))
    }

    /// The connected users and what reaches them.
    pub open spec fn users_view(&self) -> Map<u32, U> {
        to_map(self.user_entries())
    }

    /// The users of each subscription, by node and subscription id.
    pub open spec fn subscribers(&self) -> Map<(usize, Seq<char>), Set<u32>> {
        to_map(self.sub_entries())
    }

    /// The subscription made for each request text.
    pub open spec fn registrations(&self) -> Map<Seq<char>, (usize, Seq<char>)> {
        to_map(self.reg_entries())
    }

    /// No user, subscription or registration occurs twice.
    pub closed spec fn wf(&self) -> bool {
        &&& unique_keys(self.user_entries())
        &&& unique_keys(self.sub_entries())
        &&& unique_keys(self.reg_entries())
        &&& forall|i: int| 0 <= i < self.subscriptions@.len() ==> (#[trigger] self.subscriptions@[i]).1@.no_duplicates()
    }

    /// No users and no subscriptions.
    pub fn new() -> (r: Self)
        ensures
            r.wf(),
            r.users_view() == Map::<u32, U>::empty(),
            r.subscribers() == Map::<(usize, Seq<char>), Set<u32>>::empty(),
            r.registrations() == Map::<Seq<char>, (usize, Seq<char>)>::empty(),
    {
        let r = SubscriptionData { users: Vec::new(), subscriptions: Vec::new(), incoming_subscriptions: Vec::new() };
        assert(r.sub_entries() =~= Seq::empty());
        assert(r.reg_entries() =~= Seq::empty());
        r
    }

    /// The position of user `user_id`.
    fn find_user(&self, user_id: u32) -> (r: Option<usize>)
        ensures
            match r {
                Some(i) => i < self.user_entries().len() && self.user_entries()[i as int].0 == user_id,
                None => forall|i: int| 0 <= i < self.user_entries().len() ==> self.user_entries()[i].0 != user_id,
            },
    {
        let mut i: usize = 0;
        while i < self.users.len()
            invariant
                i <= self.users@.len(),
                forall|j: int| 0 <= j < i ==> self.users@[j].0 != user_id,
            decreases self.users@.len() - i,
        {
            if self.users[i].0 == user_id {
                return Some(i);
            }
            i = i + 1;
        }
        None
    }

    /// The position of the registration for the request text `text`.
    fn find_registration(&self, text: &str) -> (r: Option<usize>)
        ensures
            match r {
                Some(i) => i < self.reg_entries().len() && self.reg_entries()[i as int].0 == text@,
                None => forall|i: int| 0 <= i < self.reg_entries().len() ==> self.reg_entries()[i].0 != text@,
            },
    {
        let mut i: usize = 0;
        while i < self.incoming_subscriptions.len()
            invariant
                i <= self.incoming_subscriptions@.len(),
                forall|j: int| 0 <= j < i ==> self.reg_entries()[j].0 != text@,
            decreases self.incoming_subscriptions@.len() - i,
        {
            if str_eq(self.incoming_subscriptions[i].0.as_str(), text) {
                return Some(i);
            }
            i = i + 1;
        }
        None
    }

    /// The position of the subscription `info`.
    fn find_subscription(&self, info: &NodeSubInfo) -> (r: Option<usize>)
        ensures
            match r {
                Some(i) => i < self.sub_entries().len() && self.sub_entries()[i as int].0 == info.key(),
                None => forall|i: int| 0 <= i < self.sub_entries().len() ==> self.sub_entries()[i].0 != info.key(),
            },
    {
        let mut i: usize = 0;
        while i < self.subscriptions.len()
            invariant
                i <= self.subscriptions@.len(),
                forall|j: int| 0 <= j < i ==> self.sub_entries()[j].0 != info.key(),
            decreases self.subscriptions@.len() - i,
        {
            if self.subscriptions[i].0.same(info) {
                return Some(i);
            }
            i = i + 1;
        }
        None
    }

    /// Adds a user, or replaces what reaches a user already there.
    pub fn add_user(&mut self, user_id: u32, user_data: U)
        requires
            old(self).wf(),
        ensures
            final(self).wf(),
            final(self).users_view() == old(self).users_view().insert(user_id, user_data),
            final(self).subscribers() == old(self).subscribers(),
            final(self).registrations() == old(self).registrations(),
    {
        let ghost before = self.user_entries();
        proof {
            lemma_to_map_lookup(before);
        }
        match self.find_user(user_id) {
            Some(i) => {
                self.users.set(i, (user_id, user_data));
                proof {
                    lemma_to_map_update(before, i as int, user_data);
                    assert(self.user_entries() =~= before.update(i as int, (before[i as int].0, user_data)));
                }
            },
            None => {
                self.users.push((user_id, user_data));
                proof {
                    lemma_to_map_push(before, user_id, user_data);
                }
            },
        }
    }

    /// Takes `user_id` out of the users of every subscription.
    fn drop_from_subscriptions(&mut self, user_id: u32)
        requires
            old(self).wf(),
        ensures
            final(self).wf(),
            final(self).user_entries() == old(self).user_entries(),
            final(self).reg_entries() == old(self).reg_entries(),
            final(self).sub_entries() == old(self).sub_entries().map_values(
                |e: ((usize, Seq<char>), Set<u32>)| (e.0, e.1.remove(user_id)),
            ),
    {
        let ghost start = self.sub_entries();
        let mut i: usize = 0;
        while i < self.subscriptions.len()
            invariant
                i <= self.subscriptions@.len(),
                self.subscriptions@.len() == start.len(),
                self.user_entries() == old(self).user_entries(),
                self.reg_entries() == old(self).reg_entries(),
                forall|j: int| 0 <= j < self.subscriptions@.len() ==> (#[trigger] self.subscriptions@[j]).1@.no_duplicates(),
                forall|j: int| 0 <= j < i ==> #[trigger] self.sub_entries()[j] == (start[j].0, start[j].1.remove(user_id)),
                forall|j: int| i <= j < self.subscriptions@.len() ==> #[trigger] self.sub_entries()[j] == start[j],
            decreases self.subscriptions@.len() - i,
        {
            let ghost orig_i = self.subscriptions@[i as int];
            let ghost prev = self.sub_entries();
            let ghost prev_subs = self.subscriptions@;
            assert(self.sub_entries()[i as int] == start[i as int]);
            assert(self.sub_entries()[i as int] == sub_view(orig_i));
            assert(orig_i.1@.no_duplicates());
            let mut entry = (NodeSubInfo { node_id: 0, subscription_id: String::new() }, Vec::new());
            self.subscriptions.set_and_swap(i, &mut entry);
            assert(entry == orig_i);
            remove_value(&mut entry.1, user_id);
            let ghost new_entry = entry;
            self.subscriptions.set_and_swap(i, &mut entry);
            assert(self.subscriptions@[i as int] == new_entry);
            assert(sub_view(new_entry) == (start[i as int].0, start[i as int].1.remove(user_id)));
            assert(self.subscriptions@ == prev_subs.update(i as int, new_entry));
            assert(self.sub_entries() =~= prev.update(i as int, sub_view(new_entry)));
            i = i + 1;
        }
        assert(self.sub_entries() =~= start.map_values(
            |e: ((usize, Seq<char>), Set<u32>)| (e.0, e.1.remove(user_id)),
        ));
        proof {
            assert forall|a: int, b: int| 0 <= a < b < self.sub_entries().len() implies self.sub_entries()[a].0
                != self.sub_entries()[b].0 by {
                assert(start[a].0 != start[b].0);
            }
        }
    }

    /// Takes a user out, and out of every subscription; nothing changes for
    /// a user that is not there.
    pub fn remove_user(&mut self, user_id: u32)
        requires
            old(self).wf(),
        ensures
            final(self).wf(),
            final(self).registrations() == old(self).registrations(),
            if old(self).users_view().contains_key(user_id) {
                &&& final(self).users_view() == old(self).users_view().remove(user_id)
                &&& final(self).subscribers() == old(self).subscribers().map_values(|s: Set<u32>| s.remove(user_id))
            } else {
                &&& final(self).users_view() == old(self).users_view()
                &&& final(self).subscribers() == old(self).subscribers()
            },
    {
        let ghost before = self.user_entries();
        proof {
            lemma_to_map_lookup(before);
        }
        match self.find_user(user_id) {
            Some(i) => {
                self.users.remove(i);
                proof {
                    lemma_to_map_remove(before, i as int);
                    assert(self.user_entries() =~= before.remove(i as int));
                }
                let ghost subs = self.sub_entries();
                self.drop_from_subscriptions(user_id);
                proof {
                    let f = |s: Set<u32>| s.remove(user_id);
                    lemma_to_map_map_values(subs, f);
                    assert(subs.map_values(|e: ((usize, Seq<char>), Set<u32>)| (e.0, f(e.1))) =~= subs.map_values(
                        |e: ((usize, Seq<char>), Set<u32>)| (e.0, e.1.remove(user_id)),
                    ));
                }
            },
            None => {},
        }
    }

    /// Records that the request text `subscription` made the subscription
    /// `subscription_id` on node `node_id`.
    pub fn raw_register(&mut self, subscription: &str, subscription_id: String, node_id: usize)
        requires
            old(self).wf(),
        ensures
            final(self).wf(),
            final(self).registrations() == old(self).registrations().insert(
                subscription@,
                (node_id, subscription_id@),
            ),
            final(self).users_view() == old(self).users_view(),
            final(self).subscribers() == old(self).subscribers(),
    {
        let ghost before = self.reg_entries();
        proof {
            lemma_to_map_lookup(before);
        }
        let info = NodeSubInfo { node_id, subscription_id };
        match self.find_registration(subscription) {
            Some(i) => {
                self.incoming_subscriptions.set(i, (subscription.to_owned(), info));
                proof {
                    lemma_to_map_update(before, i as int, (node_id, info.subscription_id@));
                    assert(self.reg_entries() =~= before.update(
                        i as int,
                        (before[i as int].0, (node_id, info.subscription_id@)),
                    ));
                }
            },
            None => {
                self.incoming_subscriptions.push((subscription.to_owned(), info));
                proof {
                    lemma_to_map_push(before, subscription@, (node_id, info.subscription_id@));
                    assert(self.reg_entries() =~= before.push((subscription@, (node_id, info.subscription_id@))));
                }
            },
        }
    }

    /// Records the subscription made for a subscription request, under the
    /// compact text of the request's parameters.
    pub fn register_subscription(&mut self, subscription: &JsonValue, subscription_id: String, node_id: usize)
        requires
            old(self).wf(),
        ensures
            final(self).wf(),
            final(self).registrations() == old(self).registrations().insert(
                render(field(*subscription, "params"@)),
                (node_id, subscription_id@),
            ),
            final(self).users_view() == old(self).users_view(),
            final(self).subscribers() == old(self).subscribers(),
    {
        let text = match subscription.get("params") {
            Some(p) => p.render(),
            None => JsonValue::Null.render(),
        };
        self.raw_register(text.as_str(), subscription_id, node_id);
    }

    /// Forgets the registration of a request text.
    pub fn unregister_subscription(&mut self, subscription_request: String)
        requires
            old(self).wf(),
        ensures
            final(self).wf(),
            final(self).registrations() == old(self).registrations().remove(subscription_request@),
            final(self).users_view() == old(self).users_view(),
            final(self).subscribers() == old(self).subscribers(),
    {
        let ghost before = self.reg_entries();
        proof {
            lemma_to_map_lookup(before);
        }
        match self.find_registration(subscription_request.as_str()) {
            Some(i) => {
                self.incoming_subscriptions.remove(i);
                proof {
                    lemma_to_map_remove(before, i as int);
                    assert(self.reg_entries() =~= before.remove(i as int));
                }
            },
            None => {
                assert(before.len() == self.reg_entries().len());
                assert(!self.registrations().contains_key(subscription_request@));
                assert(self.registrations().remove(subscription_request@) =~= self.registrations());
            },
        }
    }

    /// Subscribes a user to the subscription registered for the request
    /// text `subscription`, and returns its id; an error, with nothing
    /// changed, when the text is not registered.
    pub fn raw_subscribe(&mut self, user_id: u32, subscription: &str) -> (r: Result<String, WsError>)
        requires
            old(self).wf(),
        ensures
            final(self).wf(),
            final(self).users_view() == old(self).users_view(),
            final(self).registrations() == old(self).registrations(),
            match old(self).registrations().get(subscription@) {
                None => r matches Err(WsError::FailedParsing()) && final(self).subscribers()
                    == old(self).subscribers(),
                Some(info) => (r matches Ok(id) && id@ == info.1) && final(self).subscribers()
                    == old(self).subscribers().insert(
                    info,
                    subscribers_of(old(self).subscribers(), info).insert(user_id),
                ),
            },
    {
        let ghost regs = self.reg_entries();
        let ghost subs = self.sub_entries();
        proof {
            lemma_to_map_lookup(regs);
            lemma_to_map_lookup(subs);
        }
        let i = match self.find_registration(subscription) {
            Some(i) => i,
            None => {
                return Err(WsError::FailedParsing());
            },
        };
        let info = self.incoming_subscriptions[i].1.duplicate();
        assert(regs[i as int] == reg_view(self.incoming_subscriptions@[i as int]));
        let id = info.subscription_id.clone();
        match self.find_subscription(&info) {
            Some(j) => {
                let ghost prev_subs = self.subscriptions@;
                assert(subs[j as int] == sub_view(prev_subs[j as int]));
                assert(prev_subs[j as int].1@.no_duplicates());
                let mut entry = (NodeSubInfo { node_id: 0, subscription_id: String::new() }, Vec::new());
                self.subscriptions.set_and_swap(j, &mut entry);
                insert_value(&mut entry.1, user_id);
                let ghost new_entry = entry;
                self.subscriptions.set_and_swap(j, &mut entry);
                proof {
                    assert(self.subscriptions@ == prev_subs.update(j as int, new_entry));
                    assert(sub_view(new_entry) == (subs[j as int].0, subs[j as int].1.insert(user_id)));
                    assert(self.sub_entries() =~= subs.update(j as int, (subs[j as int].0, subs[j as int].1.insert(user_id))));
                    lemma_to_map_update(subs, j as int, subs[j as int].1.insert(user_id));
                    assert forall|k: int| 0 <= k < self.subscriptions@.len() implies (#[trigger] self.subscriptions@[k]).1@.no_duplicates() by {
                        if k != j {
                            assert(self.subscriptions@[k] == prev_subs[k]);
                        }
                    }
                }
            },
            None => {
                let ghost prev_subs = self.subscriptions@;
                let mut users: Vec<u32> = Vec::new();
                users.push(user_id);
                proof {
                    assert(users@ =~= seq![user_id]);
                    assert(users@.to_set() =~= Set::<u32>::empty().insert(user_id)) by {
                        assert forall|y: u32| users@.to_set().contains(y) <==> y == user_id by {
                            if y == user_id {
                                assert(users@[0] == y);
                            }
                        }
                    }
                }
                self.subscriptions.push((info, users));
                proof {
                    lemma_to_map_push(subs, info.key(), Set::<u32>::empty().insert(user_id));
                    assert(self.sub_entries() =~= subs.push((info.key(), Set::<u32>::empty().insert(user_id))));
                    assert forall|k: int| 0 <= k < self.subscriptions@.len() implies (#[trigger] self.subscriptions@[k]).1@.no_duplicates() by {
                        if k < prev_subs.len() {
                            assert(self.subscriptions@[k] == prev_subs[k]);
                        }
                    }
                }
            },
        }
        Ok(id)
    }

    /// Subscribes a user to the subscription made for a subscription
    /// request (found by the compact text of its parameters), and returns
    /// its id; an error when the parameters are no non-empty array or the
    /// request is not registered.
    pub fn subscribe_user(&mut self, user_id: u32, subscription: &JsonValue) -> (r: Result<String, WsError>)
        requires
            old(self).wf(),
        ensures
            final(self).wf(),
            final(self).users_view() == old(self).users_view(),
            final(self).registrations() == old(self).registrations(),
            match array_items(field(*subscription, "params"@)) {
                Some(items) if items.len() > 0 => match old(self).registrations().get(
                    render(field(*subscription, "params"@)),
                ) {
                    None => r matches Err(WsError::FailedParsing()) && final(self).subscribers()
                        == old(self).subscribers(),
                    Some(info) => (r matches Ok(id) && id@ == info.1) && final(self).subscribers()
                        == old(self).subscribers().insert(
                        info,
                        subscribers_of(old(self).subscribers(), info).insert(user_id),
                    ),
                },
                _ => r matches Err(WsError::FailedParsing()) && final(self).subscribers() == old(self).subscribers(),
            },
    {
        let params = match subscription.get("params") {
            Some(p) => p,
            None => {
                return Err(WsError::FailedParsing());
            },
        };
        match params.as_array() {
            Some(items) => {
                if items.len() == 0 {
                    return Err(WsError::FailedParsing());
                }
            },
            None => {
                return Err(WsError::FailedParsing());
            },
        }
        let text = params.render();
        self.raw_subscribe(user_id, text.as_str())
    }

    /// Takes a user out of every subscription whose id is `subscription_id`.
    pub fn unsubscribe_user(&mut self, user_id: u32, subscription_id: String)
        requires
            old(self).wf(),
        ensures
            final(self).wf(),
            final(self).users_view() == old(self).users_view(),
            final(self).registrations() == old(self).registrations(),
            final(self).subscribers() == without_users(
                old(self).subscribers(),
                set![user_id],
                subscription_id@,
            ),
    {
        let ghost start = self.sub_entries();
        let ghost id = subscription_id@;
        let mut i: usize = 0;
        while i < self.subscriptions.len()
            invariant
                i <= self.subscriptions@.len(),
                self.subscriptions@.len() == start.len(),
                self.user_entries() == old(self).user_entries(),
                self.reg_entries() == old(self).reg_entries(),
                id == subscription_id@,
                forall|j: int| 0 <= j < self.subscriptions@.len() ==> (#[trigger] self.subscriptions@[j]).1@.no_duplicates(),
                forall|j: int| 0 <= j < i ==> #[trigger] self.sub_entries()[j] == (start[j].0, if start[j].0.1 == id {
                    start[j].1.difference(set![user_id])
                } else {
                    start[j].1
                }),
                forall|j: int| i <= j < self.subscriptions@.len() ==> #[trigger] self.sub_entries()[j] == start[j],
            decreases self.subscriptions@.len() - i,
        {
            let ghost prev = self.sub_entries();
            let ghost prev_subs = self.subscriptions@;
            assert(prev[i as int] == start[i as int]);
            assert(prev[i as int] == sub_view(prev_subs[i as int]));
            if str_eq(self.subscriptions[i].0.subscription_id.as_str(), subscription_id.as_str()) {
                assert(prev_subs[i as int].1@.no_duplicates());
                let mut entry = (NodeSubInfo { node_id: 0, subscription_id: String::new() }, Vec::new());
                self.subscriptions.set_and_swap(i, &mut entry);
                remove_value(&mut entry.1, user_id);
                let ghost new_entry = entry;
                self.subscriptions.set_and_swap(i, &mut entry);
                proof {
                    assert(self.subscriptions@ == prev_subs.update(i as int, new_entry));
                    assert(start[i as int].1.remove(user_id) =~= start[i as int].1.difference(set![user_id]));
                    assert(self.sub_entries() =~= prev.update(i as int, sub_view(new_entry)));
                }
            } else {
                assert(self.sub_entries() =~= prev);
            }
            i = i + 1;
        }
        proof {
            let f = |k: (usize, Seq<char>), v: Set<u32>| if k.1 == id {
                v.difference(set![user_id])
            } else {
                v
            };
            assert(self.sub_entries() =~= start.map_values(
                |e: ((usize, Seq<char>), Set<u32>)| (e.0, f(e.0, e.1)),
            ));
            lemma_to_map_map_entries(start, f);
            assert(self.subscribers() =~= without_users(to_map(start), set![user_id], id));
            assert forall|a: int, b: int| 0 <= a < b < self.sub_entries().len() implies self.sub_entries()[a].0
                != self.sub_entries()[b].0 by {
                assert(start[a].0 != start[b].0);
            }
        }
    }

    /// The node of a registered subscription with id `subscription_id`.
    pub fn get_node_from_id(&self, subscription_id: &str) -> (r: Option<usize>)
        requires
            self.wf(),
        ensures
            match r {
                Some(n) => exists|t: Seq<char>| #[trigger] self.registrations().contains_key(t)
                    && self.registrations()[t] == (n, subscription_id@),
                None => forall|t: Seq<char>| #[trigger] self.registrations().contains_key(t)
                    ==> self.registrations()[t].1 != subscription_id@,
            },
    {
        proof {
            lemma_to_map_lookup(self.reg_entries());
        }
        let mut i: usize = 0;
        while i < self.incoming_subscriptions.len()
            invariant
                self.wf(),
                i <= self.incoming_subscriptions@.len(),
                forall|j: int| 0 <= j < i ==> #[trigger] self.reg_entries()[j].1.1 != subscription_id@,
            decreases self.incoming_subscriptions@.len() - i,
        {
            if str_eq(self.incoming_subscriptions[i].1.subscription_id.as_str(), subscription_id) {
                let n = self.incoming_subscriptions[i].1.node_id;
                proof {
                    lemma_to_map_lookup(self.reg_entries());
                    let e = self.reg_entries()[i as int];
                    assert(e == reg_view(self.incoming_subscriptions@[i as int]));
                    assert(self.registrations()[e.0] == e.1);
                    assert(self.registrations().contains_key(e.0));
                    assert(e.1 == (n, subscription_id@));
                }
                return Some(n);
            }
            assert(self.reg_entries()[i as int] == reg_view(self.incoming_subscriptions@[i as int]));
            i = i + 1;
        }
        proof {
            assert forall|t: Seq<char>| #[trigger] self.registrations().contains_key(t)
                implies self.registrations()[t].1 != subscription_id@ by {
                let j = choose|j: int| 0 <= j < self.reg_entries().len() && self.reg_entries()[j].0 == t;
                assert(self.registrations()[self.reg_entries()[j].0] == self.reg_entries()[j].1);
            }
        }
        None
    }

    /// How many subscription requests are registered.
    pub fn registration_count(&self) -> (r: usize)
        ensures
            r == self.reg_entries().len(),
    {
        self.incoming_subscriptions.len()
    }

    /// The ids of the subscriptions registered on `node_id`, in the order
    /// they were registered.
    pub fn get_sub_id_by_node(&self, node_id: usize) -> (r: Vec<String>)
        ensures
            r@.map_values(|s: String| s@) == ids_on(self.reg_entries(), node_id),
    {
        let mut out: Vec<String> = Vec::new();
        let mut i: usize = 0;
        while i < self.incoming_subscriptions.len()
            invariant
                i <= self.incoming_subscriptions@.len(),
                out@.map_values(|s: String| s@) == ids_on(self.reg_entries().take(i as int), node_id),
            decreases self.incoming_subscriptions@.len() - i,
        {
            let ghost before = out@;
            assert(self.reg_entries().take(i + 1).drop_last() =~= self.reg_entries().take(i as int));
            assert(self.reg_entries()[i as int] == reg_view(self.incoming_subscriptions@[i as int]));
            if self.incoming_subscriptions[i].1.node_id == node_id {
                out.push(self.incoming_subscriptions[i].1.subscription_id.clone());
                assert(out@.map_values(|s: String| s@) =~= before.map_values(|s: String| s@).push(
                    self.incoming_subscriptions@[i as int].1.subscription_id@,
                ));
            }
            i = i + 1;
        }
        assert(self.reg_entries().take(self.reg_entries().len() as int) =~= self.reg_entries());
        out
    }

    /// The request texts registered on `node_id`, each read as a list of
    /// strings and printed back, in the order they were registered.
    pub fn get_subscription_by_node(&self, node_id: usize) -> (r: Vec<String>)
        ensures
            r@.map_values(|s: String| s@) == requests_on(self.reg_entries(), node_id),
    {
        let mut out: Vec<String> = Vec::new();
        let mut i: usize = 0;
        while i < self.incoming_subscriptions.len()
            invariant
                i <= self.incoming_subscriptions@.len(),
                out@.map_values(|s: String| s@) == requests_on(self.reg_entries().take(i as int), node_id),
            decreases self.incoming_subscriptions@.len() - i,
        {
            let ghost before = out@;
            assert(self.reg_entries().take(i + 1).drop_last() =~= self.reg_entries().take(i as int));
            assert(self.reg_entries()[i as int] == reg_view(self.incoming_subscriptions@[i as int]));
            if self.incoming_subscriptions[i].1.node_id == node_id {
                match reprint_string_list(self.incoming_subscriptions[i].0.as_str()) {
                    Some(t) => {
                        out.push(t);
                        assert(out@.map_values(|s: String| s@) =~= before.map_values(|s: String| s@).push(t@));
                    },
                    None => {},
                }
            }
            i = i + 1;
        }
        assert(self.reg_entries().take(self.reg_entries().len() as int) =~= self.reg_entries());
        out
    }

    /// The id of the subscription registered for the request text `params`.
    pub fn get_sub_id_by_params(&self, params: &str) -> (r: Option<String>)
        requires
            self.wf(),
        ensures
            match r {
                Some(id) => self.registrations().contains_key(params@) && self.registrations()[params@].1 == id@,
                None => !self.registrations().contains_key(params@),
            },
    {
        proof {
            lemma_to_map_lookup(self.reg_entries());
        }
        match self.find_registration(params) {
            Some(i) => {
                assert(self.reg_entries()[i as int] == reg_view(self.incoming_subscriptions@[i as int]));
                Some(self.incoming_subscriptions[i].1.subscription_id.clone())
            },
            None => None,
        }
    }

    /// The users of a subscription with id `subscription_id` (of the first
    /// one made, if several nodes gave the same id); none when there is
    /// none.
    pub fn get_users_for_subscription(&self, subscription_id: &str) -> (r: Vec<u32>)
        requires
            self.wf(),
        ensures
            r@.no_duplicates(),
            (exists|k: (usize, Seq<char>)| #[trigger] self.subscribers().contains_key(k) && k.1 == subscription_id@)
                ==> exists|k: (usize, Seq<char>)|
                #![trigger self.subscribers()[k]]
                self.subscribers().contains_key(k) && k.1 == subscription_id@ && r@.to_set()
                    == self.subscribers()[k],
            (forall|k: (usize, Seq<char>)| #[trigger] self.subscribers().contains_key(k) ==> k.1 != subscription_id@)
                ==> r@.len() == 0,
    {
        proof {
            lemma_to_map_lookup(self.sub_entries());
        }
        let mut i: usize = 0;
        while i < self.subscriptions.len()
            invariant
                self.wf(),
                i <= self.subscriptions@.len(),
                forall|j: int| 0 <= j < i ==> #[trigger] self.sub_entries()[j].0.1 != subscription_id@,
            decreases self.subscriptions@.len() - i,
        {
            assert(self.sub_entries()[i as int] == sub_view(self.subscriptions@[i as int]));
            if str_eq(self.subscriptions[i].0.subscription_id.as_str(), subscription_id) {
                let users = self.subscriptions[i].1.clone();
                proof {
                    lemma_to_map_lookup(self.sub_entries());
                    let e = self.sub_entries()[i as int];
                    assert(self.subscribers()[e.0] == e.1);
                    assert(self.subscriptions@[i as int].1@.no_duplicates());
                    assert(users@ == self.subscriptions@[i as int].1@);
                }
                return users;
            }
            i = i + 1;
        }
        proof {
            assert forall|k: (usize, Seq<char>)| #[trigger] self.subscribers().contains_key(k) implies k.1
                != subscription_id@ by {
                let j = choose|j: int| 0 <= j < self.sub_entries().len() && self.sub_entries()[j].0 == k;
            }
        }
        Vec::new()
    }

    /// What reaches user `user_id`.
    pub fn get_user(&self, user_id: u32) -> (r: Option<&U>)
        requires
            self.wf(),
        ensures
            match r {
                Some(u) => self.users_view().contains_key(user_id) && self.users_view()[user_id] == *u,
                None => !self.users_view().contains_key(user_id),
            },
    {
        proof {
            lemma_to_map_lookup(self.user_entries());
        }
        match self.find_user(user_id) {
            Some(i) => Some(&self.users[i].1),
            None => None,
        }
    }

    /// Moves the users of a subscription to node `target`: each is taken
    /// out of every subscription with id `subscription_id`,
    /// the request is registered as `subscription_id` on `target`, and each
    /// is subscribed to it; an error, with nothing changed, when the
    /// subscription has no users.
    pub fn move_subscriptions(&mut self, target: usize, request: String, subscription_id: String) -> (r: Result<(), WsError>)
        requires
            old(self).wf(),
        ensures
            final(self).wf(),
            final(self).users_view() == old(self).users_view(),
            match r {
                Err(e) => {
                    &&& e matches WsError::EmptyList(m) && m@ == "User list empty!"@
                    &&& final(self).subscribers() == old(self).subscribers()
                    &&& final(self).registrations() == old(self).registrations()
                    &&& (forall|k: (usize, Seq<char>)| #[trigger] old(self).subscribers().contains_key(k)
                        ==> k.1 != subscription_id@) || exists|k: (usize, Seq<char>)|
                        #[trigger] old(self).subscribers().contains_key(k) && k.1 == subscription_id@
                            && old(self).subscribers()[k].is_empty()
                },
                Ok(()) => exists|k: (usize, Seq<char>)|
                    #[trigger] old(self).subscribers().contains_key(k) && k.1 == subscription_id@
                        && !old(self).subscribers()[k].is_empty() && final(self).subscribers() == moved_to(
                        old(self).subscribers(),
                        old(self).subscribers()[k],
                        (target, subscription_id@),
                    ) && final(self).registrations() == old(self).registrations().insert(
                        request@,
                        (target, subscription_id@),
                    ),
            },
    {
        let users = self.get_users_for_subscription(subscription_id.as_str());
        if users.len() == 0 {
            proof {
                if exists|k: (usize, Seq<char>)| #[trigger] self.subscribers().contains_key(k) && k.1 == subscription_id@ {
                    let k = choose|k: (usize, Seq<char>)|
                        self.subscribers().contains_key(k) && k.1 == subscription_id@ && users@.to_set()
                            == self.subscribers()[k];
                    assert(users@.to_set() =~= Set::<u32>::empty());
                }
            }
            return Err(WsError::EmptyList("User list empty!".to_string()));
        }
        let ghost start = self.subscribers();
        let ghost moved = users@.to_set();
        let ghost req = request@;
        let ghost sid = subscription_id@;
        let ghost info = (target, subscription_id@);
        proof {
            assert(users@.to_set().contains(users@[0]));
        }
        let mut k: usize = 0;
        assert(users@.take(0).to_set() =~= Set::<u32>::empty());
        assert(self.subscribers() =~~= without_users(start, Set::<u32>::empty(), sid));
        while k < users.len()
            invariant
                self.wf(),
                k <= users@.len(),
                req == request@,
                sid == subscription_id@,
                self.users_view() == old(self).users_view(),
                self.registrations() == old(self).registrations(),
                self.subscribers() == without_users(start, users@.take(k as int).to_set(), sid),
            decreases users@.len() - k,
        {
            let ghost prev = self.subscribers();
            self.unsubscribe_user(users[k], subscription_id.clone());
            proof {
                let a = users@.take(k as int).to_set();
                assert(users@.take(k + 1) =~= users@.take(k as int).push(users@[k as int]));
                lemma_take_one_more(users@, k as int);
                assert(self.subscribers() =~~= without_users(start, users@.take(k + 1).to_set(), sid));
            }
            k = k + 1;
        }
        assert(users@.take(users@.len() as int) =~= users@);
        let ghost w = self.subscribers();
        self.unregister_subscription(request.clone());
        self.raw_register(request.as_str(), subscription_id, target);
        assert(self.registrations() =~= old(self).registrations().insert(req, info));
        let mut k: usize = 0;
        while k < users.len()
            invariant
                self.wf(),
                k <= users@.len(),
                req == request@,
                users@.len() > 0,
                self.users_view() == old(self).users_view(),
                self.registrations() == old(self).registrations().insert(req, info),
                k == 0 ==> self.subscribers() == w,
                k > 0 ==> self.subscribers() == w.insert(info, subscribers_of(w, info).union(users@.take(k as int).to_set())),
            decreases users@.len() - k,
        {
            let ghost prev = self.subscribers();
            match self.raw_subscribe(users[k], request.as_str()) {
                Ok(_) => {},
                Err(e) => {
                    return Err(e);
                },
            }
            proof {
                let a = users@.take(k as int).to_set();
                let b = users@.take(k + 1).to_set();
                lemma_take_one_more(users@, k as int);
                if k == 0 {
                    assert(a =~= Set::<u32>::empty());
                }
                assert(self.subscribers() =~~= w.insert(info, subscribers_of(w, info).union(b)));
            }
            k = k + 1;
        }
        proof {
            let key = choose|key: (usize, Seq<char>)|
                #![trigger start[key]]
                start.contains_key(key) && key.1 == subscription_id@ && users@.to_set() == start[key];
            assert(start[key] == moved);
            assert(!moved.is_empty()) by {
                assert(moved.contains(users@[0]));
            }
            assert(self.subscribers() =~= moved_to(start, moved, info));
        }
        Ok(())
    }

    /// What to do with a subscription message that node `node_id` sent for
    /// its subscription `subscription_id`: an error for a call; when the
    /// subscription has no users left, it is unregistered (by its id) and
    /// nothing is sent; otherwise the message goes to its users that are
    /// still connected.
    pub fn dispatch_to_subscribers(&mut self, subscription_id: &str, node_id: usize, message: &RequestResult) -> (r: Result<Dispatch, WsError>)
        requires
            old(self).wf(),
        ensures
            final(self).wf(),
            final(self).users_view() == old(self).users_view(),
            final(self).subscribers() == old(self).subscribers(),
            match r {
                Err(e) => (message is Call) && (e matches WsError::InvalidData(m)
                    && m@ == "Trying to send a call as a subscription!"@) && final(self).registrations()
                    == old(self).registrations(),
                Ok(Dispatch::Unsubscribed) => (message is Subscription) && old(self).subscribers().contains_key(
                    (node_id, subscription_id@),
                ) && old(self).subscribers()[(node_id, subscription_id@)].is_empty()
                    && final(self).registrations() == old(self).registrations().remove(subscription_id@),
                Ok(Dispatch::SendTo(v)) => {
                    &&& message is Subscription
                    &&& !(old(self).subscribers().contains_key((node_id, subscription_id@))
                        && old(self).subscribers()[(node_id, subscription_id@)].is_empty())
                    &&& v@.no_duplicates()
                    &&& v@.to_set() == subscribers_of(old(self).subscribers(), (node_id, subscription_id@)).filter(
                        |u: u32| old(self).users_view().contains_key(u),
                    )
                    &&& final(self).registrations() == old(self).registrations()
                },
            },
    {
        match message {
            RequestResult::Call(_) => {
                return Err(WsError::InvalidData("Trying to send a call as a subscription!".to_string()));
            },
            RequestResult::Subscription(_) => {},
        }
        let info = NodeSubInfo { node_id, subscription_id: subscription_id.to_string() };
        let ghost key = info.key();
        proof {
            lemma_to_map_lookup(self.sub_entries());
            lemma_to_map_lookup(self.user_entries());
        }
        let j = match self.find_subscription(&info) {
            Some(j) => j,
            None => {
                let v: Vec<u32> = Vec::new();
                proof {
                    assert(!self.subscribers().contains_key(key));
                    assert(v@.to_set() =~= subscribers_of(self.subscribers(), key).filter(
                        |u: u32| self.users_view().contains_key(u),
                    ));
                }
                return Ok(Dispatch::SendTo(v));
            },
        };
        assert(self.sub_entries()[j as int] == sub_view(self.subscriptions@[j as int]));
        assert(self.subscribers()[key] == self.subscriptions@[j as int].1@.to_set());
        if self.subscriptions[j].1.len() == 0 {
            proof {
                assert(self.subscriptions@[j as int].1@.to_set() =~= Set::<u32>::empty());
            }
            self.unregister_subscription(subscription_id.to_string());
            return Ok(Dispatch::Unsubscribed);
        }
        proof {
            assert(self.subscriptions@[j as int].1@.to_set().contains(self.subscriptions@[j as int].1@[0]));
        }
        let subscribers = &self.subscriptions[j].1;
        let mut out: Vec<u32> = Vec::new();
        let mut i: usize = 0;
        while i < subscribers.len()
            invariant
                self.wf(),
                i <= subscribers@.len(),
                *subscribers == self.subscriptions@[j as int].1,
                subscribers@.no_duplicates(),
                out@.no_duplicates(),
                forall|y: u32| #[trigger] out@.contains(y) <==> (exists|k: int| 0 <= k < i && subscribers@[k] == y) && self.users_view().contains_key(y),
            decreases subscribers@.len() - i,
        {
            let u = subscribers[i];
            if self.find_user(u).is_some() {
                proof {
                    lemma_to_map_lookup(self.user_entries());
                    assert(!out@.contains(u)) by {
                        if out@.contains(u) {
                            let k = choose|k: int| 0 <= k < i && subscribers@[k] == u;
                            assert(subscribers@[k] == subscribers@[i as int]);
                        }
                    }
                }
                let ghost before = out@;
                out.push(u);
                proof {
                    assert forall|a: int, b: int| 0 <= a < b < out@.len() implies out@[a] != out@[b] by {
                        if b == before.len() {
                            assert(before.contains(before[a]));
                        }
                    }
                    assert forall|y: u32| #[trigger] out@.contains(y) <==> (exists|k: int| 0 <= k < i + 1 && subscribers@[k] == y) && self.users_view().contains_key(y) by {
                        if out@.contains(y) {
                            let a = choose|a: int| 0 <= a < out@.len() && out@[a] == y;
                            if a < before.len() {
                                assert(before.contains(y));
                            }
                        }
                        if exists|k: int| 0 <= k < i + 1 && subscribers@[k] == y {
                            let k = choose|k: int| 0 <= k < i + 1 && subscribers@[k] == y;
                            if k < i && self.users_view().contains_key(y) {
                                assert(before.contains(y));
                                let a = choose|a: int| 0 <= a < before.len() && before[a] == y;
                                assert(out@[a] == y);
                            }
                            if k == i {
                                assert(out@[before.len() as int] == y);
                            }
                        }
                    }
                }
            } else {
                proof {
                    lemma_to_map_lookup(self.user_entries());
                    assert forall|y: u32| #[trigger] out@.contains(y) <==> (exists|k: int| 0 <= k < i + 1 && subscribers@[k] == y) && self.users_view().contains_key(y) by {
                        if exists|k: int| 0 <= k < i + 1 && subscribers@[k] == y {
                            let k = choose|k: int| 0 <= k < i + 1 && subscribers@[k] == y;
                            if k == i {
                                assert(!self.users_view().contains_key(y));
                            }
                        }
                    }
                }
            }
            i = i + 1;
        }
        proof {
            assert(out@.to_set() =~= subscribers_of(self.subscribers(), key).filter(
                |u: u32| self.users_view().contains_key(u),
            )) by {
                assert forall|y: u32| out@.to_set().contains(y) <==> subscribers_of(self.subscribers(), key).filter(
                    |u: u32| self.users_view().contains_key(u),
                ).contains(y) by {
                    if subscribers@.contains(y) {
                        let k = choose|k: int| 0 <= k < subscribers@.len() && subscribers@[k] == y;
                        assert(exists|k: int| 0 <= k < i && subscribers@[k] == y);
                    }
                    if exists|k: int| 0 <= k < i && subscribers@[k] == y {
                        let k = choose|k: int| 0 <= k < i && subscribers@[k] == y;
                        assert(subscribers@.contains(y));
                    }
                }
            }
        }
        Ok(Dispatch::SendTo(out))
    }
}

/// The values of the first `k + 1` elements are those of the first `k`
/// and element `k`.
proof fn lemma_take_one_more(s: Seq<u32>, k: int)
    requires
        0 <= k < s.len(),
    ensures
        s.take(k + 1).to_set() == s.take(k).to_set().insert(s[k]),
{
    let t1 = s.take(k + 1);
    let t0 = s.take(k);
    assert forall|y: u32| t1.to_set().contains(y) <==> t0.to_set().insert(s[k]).contains(y) by {
        if t1.contains(y) {
            let j = choose|j: int| 0 <= j < t1.len() && t1[j] == y;
            if j < k {
                assert(t0[j] == y);
                assert(t0.contains(y));
            }
        }
        if t0.contains(y) {
            let j = choose|j: int| 0 <= j < t0.len() && t0[j] == y;
            assert(t1[j] == y);
            assert(t1.contains(y));
        }
        if y == s[k] {
            assert(t1[k] == y);
            assert(t1.contains(y));
        }
    }
    assert(t1.to_set() =~= t0.to_set().insert(s[k]));
}

/// Takes the value `x` out of a list without repetitions.
fn remove_value(v: &mut Vec<u32>, x: u32)
    requires
        old(v)@.no_duplicates(),
    ensures
        final(v)@.no_duplicates(),
        final(v)@.to_set() == old(v)@.to_set().remove(x),
{
    broadcast use vstd::seq_lib::group_seq_properties;

    let mut i: usize = 0;
    while i < v.len()
        invariant
            v@ == old(v)@,
            old(v)@.no_duplicates(),
            i <= v@.len(),
            forall|j: int| 0 <= j < i ==> v@[j] != x,
        decreases v@.len() - i,
    {
        if v[i] == x {
            let ghost before = v@;
            v.remove(i);
            proof {
                assert(v@ == before.remove(i as int));
                assert forall|a: int, b: int| 0 <= a < b < v@.len() implies v@[a] != v@[b] by {
                    let a2 = if a < i { a } else { a + 1 };
                    let b2 = if b < i { b } else { b + 1 };
                    assert(v@[a] == before[a2] && v@[b] == before[b2]);
                    assert(a2 != b2);
                }
                assert forall|y: u32| #[trigger] v@.to_set().contains(y) <==> before.to_set().remove(x).contains(y) by {
                    if v@.contains(y) {
                        let k = choose|k: int| 0 <= k < v@.len() && v@[k] == y;
                        let k2 = if k < i { k } else { k + 1 };
                        assert(before[k2] == y);
                        assert(k2 != i);
                        assert(before.contains(y));
                    }
                    if before.contains(y) && y != x {
                        let k = choose|k: int| 0 <= k < before.len() && before[k] == y;
                        assert(k != i);
                        let k2 = if k < i { k } else { k - 1 };
                        assert(v@[k2] == y);
                        assert(v@.contains(y));
                    }
                }
                assert(v@.to_set() =~= before.to_set().remove(x));
            }
            return;
        }
        i = i + 1;
    }
    assert(!v@.contains(x));
    assert(v@.to_set() =~= old(v)@.to_set().remove(x));
}

/// Adds the value `x` to a list without repetitions, unless it is there.
fn insert_value(v: &mut Vec<u32>, x: u32)
    requires
        old(v)@.no_duplicates(),
    ensures
        final(v)@.no_duplicates(),
        final(v)@.to_set() == old(v)@.to_set().insert(x),
{
    broadcast use vstd::seq_lib::group_seq_properties;

    let mut i: usize = 0;
    while i < v.len()
        invariant
            v@ == old(v)@,
            old(v)@.no_duplicates(),
            i <= v@.len(),
            forall|j: int| 0 <= j < i ==> v@[j] != x,
        decreases v@.len() - i,
    {
        if v[i] == x {
            assert(v@.contains(x));
            assert(v@.to_set() =~= old(v)@.to_set().insert(x));
            return;
        }
        i = i + 1;
    }
    let ghost before = v@;
    v.push(x);
    proof {
        assert(!before.contains(x));
        assert forall|a: int, b: int| 0 <= a < b < v@.len() implies v@[a] != v@[b] by {
            if b == before.len() {
                assert(v@[a] == before[a]);
            }
        }
        assert forall|y: u32| #[trigger] v@.to_set().contains(y) <==> before.to_set().insert(x).contains(y) by {
            if v@.contains(y) {
                let k = choose|k: int| 0 <= k < v@.len() && v@[k] == y;
                if k < before.len() {
                    assert(before[k] == y);
                }
            }
            if before.contains(y) {
                let k = choose|k: int| 0 <= k < before.len() && before[k] == y;
                assert(v@[k] == y);
            }
            if y == x {
                assert(v@[before.len() as int] == x);
            }
        }
        assert(v@.to_set() =~= before.to_set().insert(x));
    }
}

/// A request text, once registered, leads to the subscription it was
/// registered with, and subscribing to it adds the user to that
/// subscription.
pub proof fn lemma_registered_subscription_found(
    registrations: Map<Seq<char>, (usize, Seq<char>)>,
    subscribers: Map<(usize, Seq<char>), Set<u32>>,
    text: Seq<char>,
    info: (usize, Seq<char>),
    user: u32,
)
    ensures
        registrations.insert(text, info).get(text) == Some(info),
        subscribers.insert(info, subscribers_of(subscribers, info).insert(user))[info].contains(user),
{
}

/// A user who was removed is in no subscription.
pub proof fn lemma_removed_user_gone(subscribers: Map<(usize, Seq<char>), Set<u32>>, user: u32)
    ensures
        forall|k: (usize, Seq<char>)| #[trigger] subscribers.contains_key(k) ==> !subscribers.map_values(
            |s: Set<u32>| s.remove(user),
        )[k].contains(user),
{
}

/// A user who unsubscribed from an id is in no subscription with that id,
/// and the other subscriptions are as they were.
pub proof fn lemma_unsubscribed_user_gone(subscribers: Map<(usize, Seq<char>), Set<u32>>, user: u32, id: Seq<char>)
    ensures
        forall|k: (usize, Seq<char>)| #[trigger] subscribers.contains_key(k) && k.1 == id ==> !without_users(
            subscribers,
            set![user],
            id,
        )[k].contains(user),
        forall|k: (usize, Seq<char>)| #[trigger] subscribers.contains_key(k) && k.1 != id ==> without_users(
            subscribers,
            set![user],
            id,
        )[k] == subscribers[k],
{
}

/// After a move every moved user is subscribed to the subscription on the
/// target node, and to no subscription with that id on another node.
pub proof fn lemma_moved_users_follow(
    subscribers: Map<(usize, Seq<char>), Set<u32>>,
    moved: Set<u32>,
    info: (usize, Seq<char>),
    u: u32,
)
    requires
        moved.contains(u),
    ensures
        moved_to(subscribers, moved, info)[info].contains(u),
        forall|k: (usize, Seq<char>)|
            #[trigger] moved_to(subscribers, moved, info).contains_key(k) && k.1 == info.1 && k != info
                ==> !moved_to(subscribers, moved, info)[k].contains(u),
{
}

} // verus!
