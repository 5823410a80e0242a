//! Moving nodes that fall behind the chain's head to the poverty list, and
//! back once they catch up.

use vstd::prelude::*;
use crate::rpc::types::{Rpc, Status};

verus! {

/// The head block that a node reported; 0 when it did not answer in time.
#[derive(Debug, Clone, Copy, PartialEq, Eq, Structural, Default)]
pub struct HeadResult {
    pub rpc_list_index: usize,
    pub reported_head: u64,
}

/// The highest head reported, 0 for none.
pub open spec fn highest_head(heads: Seq<HeadResult>) -> u64
    decreases heads.len(),
{
    if heads.len() == 0 {
        0
    } else {
        let rest = highest_head(heads.drop_last());
        if heads.last().reported_head > rest {
            heads.last().reported_head
        } else {
            rest
        }
    }
}

/// The node with its erroring mark set to `e`.
pub open spec fn with_erroring(rpc: Rpc, e: bool) -> Rpc {
    Rpc { status: Status { is_erroring: e, ..rpc.status }, ..rpc }
}

/// Some head result of `heads` for node `i` reports less than `head`.
pub open spec fn reported_behind(heads: Seq<HeadResult>, i: int, head: u64) -> bool {
    exists|k: int| 0 <= k < heads.len() && heads[k].rpc_list_index == i && heads[k].reported_head < head
}

/// Some head result of `heads` for node `i` reports at least `head`.
pub open spec fn reported_caught_up(heads: Seq<HeadResult>, i: int, head: u64) -> bool {
    exists|k: int| 0 <= k < heads.len() && heads[k].rpc_list_index == i && heads[k].reported_head >= head
}

/// `list` with every node that reported less than `head` marked erroring.
pub open spec fn mark_behind(list: Seq<Rpc>, heads: Seq<HeadResult>, head: u64) -> Seq<Rpc> {
    Seq::new(
        list.len(),
        |i: int|
            if reported_behind(heads, i, head) {
                with_erroring(list[i], true)
            } else {
                list[i]
            },
    )
}

/// `list` with every node that reported at least `head` marked healthy.
pub open spec fn mark_caught_up(list: Seq<Rpc>, heads: Seq<HeadResult>, head: u64) -> Seq<Rpc> {
    Seq::new(
        list.len(),
        |i: int|
            if reported_caught_up(heads, i, head) {
                with_erroring(list[i], false)
            } else {
                list[i]
            },
    )
}

/// The copies pushed to the poverty list: one per head result behind
/// `head`, in order, marked erroring.
pub open spec fn demoted(list: Seq<Rpc>, heads: Seq<HeadResult>, head: u64) -> Seq<Rpc>
    decreases heads.len(),
{
    if heads.len() == 0 {
        Seq::empty()
    } else {
        let rest = demoted(list, heads.drop_last(), head);
        let h = heads.last();
        if h.reported_head < head {
            rest.push(with_erroring(list[h.rpc_list_index as int], true))
        } else {
            rest
        }
    }
}

/// The copies moved back to the node list: one per head result at or
/// beyond `head`, in order, marked healthy.
pub open spec fn promoted(list: Seq<Rpc>, heads: Seq<HeadResult>, head: u64) -> Seq<Rpc>
    decreases heads.len(),
{
    if heads.len() == 0 {
        Seq::empty()
    } else {
        let rest = promoted(list, heads.drop_last(), head);
        let h = heads.last();
        if h.reported_head >= head {
            rest.push(with_erroring(list[h.rpc_list_index as int], false))
        } else {
            rest
        }
    }
}

/// The nodes of `list` that are not erroring, in order.
pub open spec fn healthy(list: Seq<Rpc>) -> Seq<Rpc>
    decreases list.len(),
{
    if list.len() == 0 {
        Seq::empty()
    } else if list.last().status.is_erroring {
        healthy(list.drop_last())
    } else {
        healthy(list.drop_last()).push(list.last())
    }
}

/// The nodes of `list` that are erroring, in order.
pub open spec fn erroring(list: Seq<Rpc>) -> Seq<Rpc>
    decreases list.len(),
{
    if list.len() == 0 {
        Seq::empty()
    } else if list.last().status.is_erroring {
        erroring(list.drop_last()).push(list.last())
    } else {
        erroring(list.drop_last())
    }
}

/// Every head result names a node of a list of `len` nodes.
pub open spec fn heads_in_range(heads: Seq<HeadResult>, len: nat) -> bool {
    forall|k: int| 0 <= k < heads.len() ==> (#[trigger] heads[k]).rpc_list_index < len
}

/// Sets the erroring mark of node `i`.
fn set_erroring(list: &mut Vec<Rpc>, i: usize, e: bool)
    requires
        i < old(list)@.len(),
    ensures
        final(list)@ == old(list)@.update(i as int, with_erroring(old(list)@[i as int], e)),
{
    let mut slot = Rpc::default();
    list.set_and_swap(i, &mut slot);
    slot.status.is_erroring = e;
    list.set_and_swap(i, &mut slot);
    assert(list@ =~= old(list)@.update(i as int, with_erroring(old(list)@[i as int], e)));
}

/// The nodes of `list` whose erroring mark is `keep_erroring`, in order.
fn keep_marked(list: &Vec<Rpc>, keep_erroring: bool) -> (r: Vec<Rpc>)
    ensures
        r@ == if keep_erroring {
            erroring(list@)
        } else {
            healthy(list@)
        },
{
    let mut out: Vec<Rpc> = Vec::new();
    let mut i: usize = 0;
    while i < list.len()
        invariant
            i <= list@.len(),
            out@ == if keep_erroring {
                erroring(list@.take(i as int))
            } else {
                healthy(list@.take(i as int))
            },
        decreases list@.len() - i,
    {
        assert(list@.take(i + 1).drop_last() =~= list@.take(i as int));
        if list[i].status.is_erroring == keep_erroring {
            out.push(list[i].duplicate());
        }
        i = i + 1;
    }
    assert(list@.take(list@.len() as int) =~= list@);
    out
}

/// The highest head of a health check.
fn highest_reported(heads: &Vec<HeadResult>) -> (r: u64)
    ensures
        r == highest_head(heads@),
{
    let mut highest: u64 = 0;
    let mut i: usize = 0;
    assert(heads@.take(0) =~= Seq::<HeadResult>::empty());
    while i < heads.len()
        invariant
            i <= heads@.len(),
            highest == highest_head(heads@.take(i as int)),
        decreases heads@.len() - i,
    {
        assert(heads@.take(i + 1).drop_last() =~= heads@.take(i as int));
        if heads[i].reported_head > highest {
            highest = heads[i].reported_head;
        }
        i = i + 1;
    }
    assert(heads@.take(heads@.len() as int) =~= heads@);
    highest
}

/// Moves the nodes that report a head below the highest one to the poverty
/// list and returns the highest head: each is marked erroring, a copy of it
/// goes to the end of the poverty list, and every erroring node leaves the
/// node list.
pub fn make_poverty(rpc_list: &mut Vec<Rpc>, poverty_list: &mut Vec<Rpc>, heads: Vec<HeadResult>) -> (r: u64)
    requires
        heads_in_range(heads@, old(rpc_list)@.len()),
    ensures
        r == highest_head(heads@),
        final(poverty_list)@ == old(poverty_list)@ + demoted(old(rpc_list)@, heads@, r),
        final(rpc_list)@ == healthy(mark_behind(old(rpc_list)@, heads@, r)),
{
    let highest_head = highest_reported(&heads);
    let ghost start = rpc_list@;
    let ghost pov = poverty_list@;
    let mut i: usize = 0;
    assert(rpc_list@ =~= mark_behind(start, heads@.take(0), highest_head));
    while i < heads.len()
        invariant
            i <= heads@.len(),
            heads_in_range(heads@, start.len()),
            rpc_list@ == mark_behind(start, heads@.take(i as int), highest_head),
            poverty_list@ == pov + demoted(start, heads@.take(i as int), highest_head),
        decreases heads@.len() - i,
    {
        let head = heads[i];
        let ghost before = heads@.take(i as int);
        let ghost after = heads@.take(i + 1);
        assert(after.drop_last() =~= before);
        assert(after.last() == head);
        assert(head == heads@[i as int]);
        if head.reported_head < highest_head {
            set_erroring(rpc_list, head.rpc_list_index, true);
            let copy = rpc_list[head.rpc_list_index].duplicate();
            poverty_list.push(copy);
            assert(reported_behind(after, head.rpc_list_index as int, highest_head)) by {
                assert(after[i as int] == head);
            }
            assert forall|j: int| 0 <= j < start.len() implies #[trigger] rpc_list@[j]
                == mark_behind(start, after, highest_head)[j] by {
                if reported_behind(before, j, highest_head) {
                    let k = choose|k: int|
                        0 <= k < before.len() && before[k].rpc_list_index == j
                            && before[k].reported_head < highest_head;
                    assert(after[k] == before[k]);
                }
                if reported_behind(after, j, highest_head) && j != head.rpc_list_index {
                    let k = choose|k: int|
                        0 <= k < after.len() && after[k].rpc_list_index == j
                            && after[k].reported_head < highest_head;
                    assert(k != i);
                    assert(before[k] == after[k]);
                }
            }
            assert(rpc_list@ =~= mark_behind(start, after, highest_head));
            assert(poverty_list@ =~= pov + demoted(start, after, highest_head));
        } else {
            assert forall|j: int| 0 <= j < start.len() implies #[trigger] rpc_list@[j]
                == mark_behind(start, after, highest_head)[j] by {
                if reported_behind(before, j, highest_head) {
                    let k = choose|k: int|
                        0 <= k < before.len() && before[k].rpc_list_index == j
                            && before[k].reported_head < highest_head;
                    assert(after[k] == before[k]);
                }
                if reported_behind(after, j, highest_head) {
                    let k = choose|k: int|
                        0 <= k < after.len() && after[k].rpc_list_index == j
                            && after[k].reported_head < highest_head;
                    assert(k != i);
                    assert(before[k] == after[k]);
                }
            }
            assert(rpc_list@ =~= mark_behind(start, after, highest_head));
            assert(poverty_list@ =~= pov + demoted(start, after, highest_head));
        }
        i = i + 1;
    }
    assert(heads@.take(heads@.len() as int) =~= heads@);
    let kept = keep_marked(rpc_list, false);
    *rpc_list = kept;
    highest_head
}

/// Moves the nodes of the poverty list that report at least `agreed_head`
/// back to the node list: a copy of each, marked healthy, goes to the end
/// of the node list, and only the nodes still erroring stay in the poverty
/// list.
pub fn escape_poverty(rpc_list: &mut Vec<Rpc>, poverty_list: &mut Vec<Rpc>, poverty_heads: Vec<HeadResult>, agreed_head: u64)
    requires
        heads_in_range(poverty_heads@, old(poverty_list)@.len()),
    ensures
        final(rpc_list)@ == old(rpc_list)@ + promoted(old(poverty_list)@, poverty_heads@, agreed_head),
        final(poverty_list)@ == erroring(mark_caught_up(old(poverty_list)@, poverty_heads@, agreed_head)),
{
    let heads = poverty_heads;
    let ghost start = poverty_list@;
    let ghost active = rpc_list@;
    let mut i: usize = 0;
    assert(poverty_list@ =~= mark_caught_up(start, heads@.take(0), agreed_head));
    while i < heads.len()
        invariant
            i <= heads@.len(),
            heads_in_range(heads@, start.len()),
            poverty_list@ == mark_caught_up(start, heads@.take(i as int), agreed_head),
            rpc_list@ == active + promoted(start, heads@.take(i as int), agreed_head),
        decreases heads@.len() - i,
    {
        let head = heads[i];
        let ghost before = heads@.take(i as int);
        let ghost after = heads@.take(i + 1);
        assert(after.drop_last() =~= before);
        assert(after.last() == head);
        if head.reported_head >= agreed_head {
            let mut rpc = poverty_list[head.rpc_list_index].duplicate();
            rpc.status.is_erroring = false;
            rpc_list.push(rpc);
            set_erroring(poverty_list, head.rpc_list_index, false);
            assert(reported_caught_up(after, head.rpc_list_index as int, agreed_head)) by {
                assert(after[i as int] == head);
            }
            assert forall|j: int| 0 <= j < start.len() implies #[trigger] poverty_list@[j]
                == mark_caught_up(start, after, agreed_head)[j] by {
                if reported_caught_up(before, j, agreed_head) {
                    let k = choose|k: int|
                        0 <= k < before.len() && before[k].rpc_list_index == j
                            && before[k].reported_head >= agreed_head;
                    assert(after[k] == before[k]);
                }
                if reported_caught_up(after, j, agreed_head) && j != head.rpc_list_index {
                    let k = choose|k: int|
                        0 <= k < after.len() && after[k].rpc_list_index == j
                            && after[k].reported_head >= agreed_head;
                    assert(k != i);
                    assert(before[k] == after[k]);
                }
            }
            assert(poverty_list@ =~= mark_caught_up(start, after, agreed_head));
            assert(rpc_list@ =~= active + promoted(start, after, agreed_head));
        } else {
            assert forall|j: int| 0 <= j < start.len() implies #[trigger] poverty_list@[j]
                == mark_caught_up(start, after, agreed_head)[j] by {
                if reported_caught_up(before, j, agreed_head) {
                    let k = choose|k: int|
                        0 <= k < before.len() && before[k].rpc_list_index == j
                            && before[k].reported_head >= agreed_head;
                    assert(after[k] == before[k]);
                }
                if reported_caught_up(after, j, agreed_head) {
                    let k = choose|k: int|
                        0 <= k < after.len() && after[k].rpc_list_index == j
                            && after[k].reported_head >= agreed_head;
                    assert(k != i);
                    assert(before[k] == after[k]);
                }
            }
            assert(poverty_list@ =~= mark_caught_up(start, after, agreed_head));
            assert(rpc_list@ =~= active + promoted(start, after, agreed_head));
        }
        i = i + 1;
    }
    assert(heads@.take(heads@.len() as int) =~= heads@);
    let kept = keep_marked(poverty_list, true);
    *poverty_list = kept;
}

/// After a health check the node list holds no erroring node and the
/// poverty list only erroring ones; splitting a list this way loses no node
/// and duplicates none.
pub proof fn lemma_split_by_health(list: Seq<Rpc>)
    ensures
        forall|i: int| 0 <= i < healthy(list).len() ==> !(#[trigger] healthy(list)[i]).status.is_erroring,
        forall|i: int| 0 <= i < erroring(list).len() ==> (#[trigger] erroring(list)[i]).status.is_erroring,
        healthy(list).len() + erroring(list).len() == list.len(),
    decreases list.len(),
{
    if list.len() > 0 {
        lemma_split_by_health(list.drop_last());
    }
}

/// Every reported head is at most the highest one, the head that the health
/// check agrees on.
pub proof fn lemma_highest_not_behind(heads: Seq<HeadResult>, k: int)
    requires
        0 <= k < heads.len(),
    ensures
        heads[k].reported_head <= highest_head(heads),
    decreases heads.len(),
{
    if k < heads.len() - 1 {
        lemma_highest_not_behind(heads.drop_last(), k);
    }
}

} // verus!
