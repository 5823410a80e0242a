//! Picking the node that serves the next request.

use vstd::prelude::*;
use crate::rpc::types::{Rpc, Status};

verus! {

/// Node `a` ranks before node `b`: it is faster, or as fast and earlier in
/// the list.
pub open spec fn ranks_before(list: Seq<Rpc>, a: int, b: int) -> bool {
    ||| list[a].status.latency < list[b].status.latency
    ||| list[a].status.latency == list[b].status.latency && a < b
}

/// `x` occurs in `order`.
pub open spec fn has_index(order: Seq<usize>, x: int) -> bool {
    exists|i: int| 0 <= i < order.len() && order[i] == x
}

/// `order` lists every index of `list` once, fastest first.
pub open spec fn is_latency_order(list: Seq<Rpc>, order: Seq<usize>) -> bool {
    &&& order.len() == list.len()
    &&& forall|i: int| 0 <= i < order.len() ==> order[i] < list.len()
    &&& forall|x: int| 0 <= x < list.len() ==> #[trigger] has_index(order, x)
    &&& forall|i: int, j: int|
        0 <= i < j < order.len() ==> ranks_before(list, order[i] as int, order[j] as int)
}

/// The indices of `data`, from the fastest node to the slowest (nodes that
/// are as fast keep their order).
pub fn argsort(data: &Vec<Rpc>) -> (r: Vec<usize>)
    ensures
        is_latency_order(data@, r@),
{
    let mut order: Vec<usize> = Vec::new();
    let mut k: usize = 0;
    while k < data.len()
        invariant
            k <= data@.len(),
            order@.len() == k,
            forall|i: int| 0 <= i < order@.len() ==> order@[i] < k,
            forall|x: int| 0 <= x < k ==> #[trigger] has_index(order@, x),
            forall|i: int, j: int|
                0 <= i < j < order@.len() ==> ranks_before(data@, order@[i] as int, order@[j] as int),
        decreases data@.len() - k,
    {
        let key = data[k].status.latency;
        let mut p: usize = 0;
        while p < order.len() && data[order[p]].status.latency <= key
            invariant
                p <= order@.len(),
                k < data@.len(),
                key == data@[k as int].status.latency,
                forall|i: int| 0 <= i < order@.len() ==> order@[i] < k,
                forall|i: int| 0 <= i < p ==> ranks_before(data@, order@[i] as int, k as int),
            decreases order@.len() - p,
        {
            p = p + 1;
        }
        let ghost before = order@;
        order.insert(p, k);
        proof {
            assert forall|x: int| 0 <= x < k + 1 implies #[trigger] has_index(order@, x) by {
                if x == k {
                    assert(order@[p as int] == x);
                    assert(has_index(order@, x));
                } else {
                    assert(has_index(before, x));
                    let i0 = choose|i: int| 0 <= i < before.len() && before[i] == x;
                    if i0 < p {
                        assert(order@[i0] == x);
                    } else {
                        assert(order@[i0 + 1] == x);
                    }
                    assert(has_index(order@, x));
                }
            }
            assert forall|i: int, j: int| 0 <= i < j < order@.len() implies ranks_before(
                data@,
                order@[i] as int,
                order@[j] as int,
            ) by {
                if i < p && j == p {
                } else if i == p && j > p {
                    assert(order@[j] == before[j - 1]);
                    assert(!(data@[before[j - 1] as int].status.latency <= key) || j - 1 >= p);
                    if p < before.len() {
                        assert(ranks_before(data@, before[p as int] as int, before[j - 1] as int)
                            || j - 1 == p);
                    }
                } else if j < p {
                } else if i < p && j > p {
                    assert(order@[j] == before[j - 1]);
                } else {
                    assert(order@[i] == before[i - 1]);
                    assert(order@[j] == before[j - 1]);
                }
            }
        }
        k = k + 1;
    }
    order
}

/// `f` is the fastest node of `list`.
pub open spec fn is_fastest(list: Seq<Rpc>, f: int) -> bool {
    &&& 0 <= f < list.len()
    &&& forall|j: int| 0 <= j < list.len() && j != f ==> ranks_before(list, f, j)
}

/// `s` is the fastest node of `list` after `f`.
pub open spec fn is_runner_up(list: Seq<Rpc>, f: int, s: int) -> bool {
    &&& 0 <= s < list.len()
    &&& s != f
    &&& forall|j: int| 0 <= j < list.len() && j != f && j != s ==> ranks_before(list, s, j)
}

/// The node with its run of consecutive requests set to `c`.
pub open spec fn with_consecutive(rpc: Rpc, c: u32) -> Rpc {
    Rpc { consecutive: c, ..rpc }
}

/// The selection rule, weighed round-robin: the fastest node serves the
/// request and its run grows by one, unless it has served its
/// `max_consecutive` in a row; then the next fastest serves, its run
/// starting at 1, and the fastest node's run is reset.
pub open spec fn picked(old: Seq<Rpc>, new: Seq<Rpc>, r: Option<usize>) -> bool {
    if old.len() == 0 {
        r is None && new == old
    } else if old.len() == 1 {
        r == Some(0usize) && new == old
    } else {
        exists|f: int, s: int|
            {
                &&& is_fastest(old, f)
                &&& is_runner_up(old, f, s)
                &&& if old[f].max_consecutive <= old[f].consecutive {
                    &&& r == Some(s as usize)
                    &&& new == old.update(s, with_consecutive(old[s], 1)).update(
                        f,
                        with_consecutive(old[f], 0),
                    )
                } else {
                    &&& r == Some(f as usize)
                    &&& new == old.update(f, with_consecutive(old[f], (old[f].consecutive + 1) as u32))
                }
            }
    }
}

/// There is only one fastest node and one runner-up.
pub proof fn lemma_fastest_unique(list: Seq<Rpc>, f: int, g: int, s: int, t: int)
    requires
        is_fastest(list, f),
        is_fastest(list, g),
        is_runner_up(list, f, s),
        is_runner_up(list, g, t),
    ensures
        f == g,
        s == t,
{
    if f != g {
        assert(ranks_before(list, f, g) && ranks_before(list, g, f));
    }
    if s != t {
        assert(ranks_before(list, s, t) && ranks_before(list, t, s));
    }
}

/// Sets the run of consecutive requests of node `i`.
fn set_consecutive(list: &mut Vec<Rpc>, i: usize, c: u32)
    requires
        i < old(list)@.len(),
    ensures
        final(list)@ == old(list)@.update(i as int, with_consecutive(old(list)@[i as int], c)),
{
    let mut slot = Rpc::default();
    list.set_and_swap(i, &mut slot);
    slot.consecutive = c;
    list.set_and_swap(i, &mut slot);
    assert(list@ =~= old(list)@.update(i as int, with_consecutive(old(list)@[i as int], c)));
}

/// A node with an empty name and URL, not yet used: what `pick` gives for
/// an empty list.
pub open spec fn is_blank_rpc(r: Rpc) -> bool {
    &&& r.name@ == Seq::<char>::empty()
    &&& r.url@ == Seq::<char>::empty()
    &&& r.ws_url is None
    &&& r.status == (Status { is_erroring: false, last_error: 0, latency: 0 })
    &&& r.max_consecutive == 0
    &&& r.consecutive == 0
    &&& r.last_used == 0
    &&& r.min_time_delta == 0
}

/// Picks the node for the next request, updating the runs of consecutive
/// requests, and returns a copy of it (as it is after the update) with its
/// position; a blank node and `None` for an empty list.
pub fn pick(list: &mut Vec<Rpc>) -> (r: (Rpc, Option<usize>))
    ensures
        picked(old(list)@, final(list)@, r.1),
        match r.1 {
            Some(i) => i < final(list)@.len() && r.0 == final(list)@[i as int],
            None => is_blank_rpc(r.0),
        },
{
    let position = pick_position(list);
    match position {
        Some(i) => {
            (list[i].duplicate(), Some(i))
        },
        None => (Rpc::default(), None),
    }
}

/// The position of the node for the next request (`None` for an empty
/// list), updating the runs of consecutive requests.
fn pick_position(list: &mut Vec<Rpc>) -> (r: Option<usize>)
    ensures
        picked(old(list)@, final(list)@, r),
{
    if list.len() == 1 {
        return Some(0);
    } else if list.len() == 0 {
        return None;
    }
    algo(list)
}

/// The weighed round-robin rule on a list of at least two nodes.
fn algo(list: &mut Vec<Rpc>) -> (r: Option<usize>)
    requires
        old(list)@.len() >= 2,
    ensures
        picked(old(list)@, final(list)@, r),
{
    let indices = argsort(list);
    let f = indices[0];
    let s = indices[1];
    let ghost old_list = list@;
    proof {
        assert forall|j: int| 0 <= j < old_list.len() && j != f implies ranks_before(
            old_list,
            f as int,
            j,
        ) by {
            assert(has_index(indices@, j));
            let i = choose|i: int| 0 <= i < indices@.len() && indices@[i] == j;
            assert(i != 0);
        }
        assert forall|j: int| 0 <= j < old_list.len() && j != f && j != s implies ranks_before(
            old_list,
            s as int,
            j,
        ) by {
            assert(has_index(indices@, j));
            let i = choose|i: int| 0 <= i < indices@.len() && indices@[i] == j;
            assert(i != 0 && i != 1);
        }
        assert(ranks_before(old_list, indices@[0] as int, indices@[1] as int));
        assert(is_fastest(old_list, f as int));
        assert(is_runner_up(old_list, f as int, s as int));
    }
    if list[f].max_consecutive <= list[f].consecutive {
        set_consecutive(list, s, 1);
        set_consecutive(list, f, 0);
        Some(s)
    } else {
        let c = list[f].consecutive + 1;
        set_consecutive(list, f, c);
        Some(f)
    }
}

/// After a new pick: whether the published choice of node must be sent out
/// again (the node picked changed, or the list's length changed, so the
/// same position may hold another node). The published choice becomes the
/// new pick.
pub fn publish_index(published: &mut Option<usize>, index: Option<usize>, old_len: usize, new_len: usize) -> (r: bool)
    ensures
        r == (*old(published) != index || old_len != new_len),
        *final(published) == index,
{
    if *published != index {
        *published = index;
        return true;
    }
    old_len != new_len
}

} // verus!
