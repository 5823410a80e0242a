//! The head cache: which cached requests were answered near the tip of the
//! chain, by block, so that a reorg can take them out of the cache again.

use vstd::prelude::*;
use std::collections::BTreeMap;
use crate::database::types::{Batch, BatchOp, GenericBytes};

verus! {

/// The cache keys recorded under the blocks `lo` up to (not including)
/// `hi`, block by block in increasing order.
pub open spec fn keys_between<K>(m: Map<u64, Vec<K>>, lo: int, hi: int) -> Seq<K>
    decreases hi - lo,
{
    if hi <= lo {
        Seq::empty()
    } else {
        keys_between(m, lo, hi - 1) + if m.contains_key((hi - 1) as u64) {
            m[(hi - 1) as u64]@
        } else {
            Seq::empty()
        }
    }
}

/// The deletion of each key, in order.
pub open spec fn deletions<K: GenericBytes>(keys: Seq<K>) -> Seq<BatchOp<K, Vec<u8>>> {
    keys.map_values(|k: K| BatchOp::Delete(k))
}

/// `m` without the blocks `lo` to `hi` (both included).
pub open spec fn without_blocks<K>(m: Map<u64, Vec<K>>, lo: int, hi: int) -> Map<u64, Vec<K>> {
    m.restrict(m.dom().filter(|b: u64| !(lo <= b <= hi)))
}

/// After a reorg back to `new_block` from `block_number`: takes the blocks
/// `block_number` to `new_block` out of the head cache, and returns the
/// deletion of every cache key recorded under them, block by block.
pub fn handle_reorg<K: GenericBytes>(head_cache: &mut BTreeMap<u64, Vec<K>>, block_number: u64, new_block: u64) -> (r: Batch<K, Vec<u8>>)
    requires
        new_block < u64::MAX,
    ensures
        final(head_cache)@ == without_blocks(old(head_cache)@, block_number as int, new_block as int),
        r.view() == deletions(keys_between(old(head_cache)@, block_number as int, new_block + 1)),
{
    broadcast use vstd::std_specs::btree::group_btree_axioms;

    proof {
        lemma_block_keys_ordered();
    }
    let ghost start = head_cache@;
    let mut batch: Batch<K, Vec<u8>> = Batch::with_capacity(0);
    let end: u64 = new_block + 1;
    let mut i: u64 = block_number;
    if block_number >= end {
        assert(head_cache@ =~= without_blocks(start, block_number as int, new_block as int));
        assert(batch.view() =~= deletions(keys_between(start, block_number as int, end as int)));
        return batch;
    }
    assert(batch.view() =~= deletions(keys_between(start, block_number as int, i as int)));
    while i < end
        invariant
            block_number <= i <= end,
            end == new_block + 1,
            head_cache@ == without_blocks(start, block_number as int, i - 1),
            batch.view() == deletions(keys_between(start, block_number as int, i as int)),
        decreases end - i,
    {
        let ghost before = batch.view();
        match head_cache.remove(&i) {
            Some(keys) => {
                let ghost all = keys@;
                let count: usize = keys.len();
                assert(start.contains_key(i) && start[i]@ == all);
                let mut rest = keys;
                let mut j: usize = 0;
                assert(all.skip(0) =~= all);
                while rest.len() > 0
                    invariant
                        j + rest@.len() == all.len(),
                        all.len() == count,
                        rest@ == all.skip(j as int),
                        batch.view() == before + deletions(all.take(j as int)),
                    decreases rest@.len(),
                {
                    let k = rest.remove(0);
                    batch.delete(k);
                    assert(all.take(j + 1) =~= all.take(j as int).push(all[j as int]));
                    assert(deletions(all.take(j + 1)) =~= deletions(all.take(j as int)).push(
                        BatchOp::Delete(all[j as int]),
                    ));
                    assert(rest@ =~= all.skip(j + 1));
                    j = j + 1;
                }
                assert(all.take(all.len() as int) =~= all);
                assert(deletions(keys_between(start, block_number as int, i + 1)) =~= before
                    + deletions(all));
            },
            None => {
                assert(!start.contains_key(i));
                assert(keys_between(start, block_number as int, i + 1) =~= keys_between(
                    start,
                    block_number as int,
                    i as int,
                ));
            },
        }
        assert(head_cache@ =~= without_blocks(start, block_number as int, i as int));
        i = i + 1;
    }
    assert(head_cache@ =~= without_blocks(start, block_number as int, new_block as int));
    batch
}

/// Block numbers are ordered as the head cache needs.
pub proof fn lemma_block_keys_ordered()
    ensures
        vstd::laws_cmp::obeys_cmp::<u64>(),
{
    broadcast use vstd::laws_cmp::group_laws_cmp;

}

/// The smallest block in the head cache.
fn oldest_block<K>(head_cache: &BTreeMap<u64, Vec<K>>) -> (r: Option<u64>)
    ensures
        match r {
            Some(b) => head_cache@.contains_key(b) && forall|k: u64|
                head_cache@.contains_key(k) ==> b <= k,
            None => head_cache@.dom().is_empty(),
        },
{
    broadcast use vstd::std_specs::btree::group_btree_axioms;

    proof {
        lemma_block_keys_ordered();
    }
    let mut oldest: Option<u64> = None;
    for k in it: head_cache.keys()
        invariant
            it.seq().unref().to_set() == head_cache@.dom(),
            oldest matches Some(b) ==> head_cache@.contains_key(b),
            forall|x: u64| #[trigger]
                head_cache@.contains_key(x) ==> (oldest matches Some(b) && b <= x) || exists|i: int|
                    it.index() <= i < it.seq().len() && *it.seq()[i] == x,
    {
        proof {
            assert(it.seq().unref().to_set().contains(*k));
        }
        match oldest {
            Some(b) => {
                if *k < b {
                    oldest = Some(*k);
                }
            },
            None => {
                oldest = Some(*k);
            },
        }
    }
    proof {
        if oldest is None {
            assert(head_cache@.dom() =~= Set::<u64>::empty());
        }
    }
    oldest
}

/// Once block `block_number` is final: takes every block up to
/// `block_number + 1` out of the head cache (an empty head cache is left as
/// it is, whatever the block).
pub fn remove_stale<K>(head_cache: &mut BTreeMap<u64, Vec<K>>, block_number: u64)
    requires
        block_number < u64::MAX || old(head_cache)@.dom().is_empty(),
    ensures
        final(head_cache)@ == old(head_cache)@.restrict(
            old(head_cache)@.dom().filter(|b: u64| b > block_number + 1),
        ),
{
    broadcast use vstd::std_specs::btree::group_btree_axioms;

    proof {
        lemma_block_keys_ordered();
    }
    let ghost start = head_cache@;
    let oldest = match oldest_block(head_cache) {
        Some(b) => b,
        None => {
            assert(head_cache@ =~= start.restrict(start.dom().filter(|b: u64| b > block_number + 1)));
            return;
        },
    };
    assert(start.dom().contains(oldest));
    let end: u64 = block_number + 1;
    let mut i: u64 = oldest;
    let mut done: bool = oldest > end;
    assert(head_cache@ =~= without_blocks(start, oldest as int, oldest - 1));
    if done {
        assert(head_cache@ =~= without_blocks(start, oldest as int, end as int));
    }
    while !done
        invariant
            oldest <= i,
            done ==> head_cache@ == without_blocks(start, oldest as int, end as int),
            !done ==> i <= end && head_cache@ == without_blocks(start, oldest as int, i - 1),
            forall|k: u64| start.contains_key(k) ==> oldest <= k,
            end == block_number + 1,
        decreases end - i + if done { 0int } else { 1int },
    {
        head_cache.remove(&i);
        assert(head_cache@ =~= without_blocks(start, oldest as int, i as int));
        if i == end {
            done = true;
        } else {
            i = i + 1;
        }
    }
    if oldest > end {
        assert(head_cache@ =~= start);
    }
    assert(head_cache@ =~= start.restrict(start.dom().filter(|b: u64| b > block_number + 1)));
}

/// What the upkeep of the head cache remembers between new blocks: the
/// last block seen and the last finalized block.
#[derive(Debug, Clone, Copy, PartialEq, Eq, Structural)]
pub struct CacheWatch {
    pub block_number: u64,
    pub last_finalized: u64,
}

/// The head cache after a new block `new_block` came when the last one
/// seen was `block_number`: a block at or below the last one is a reorg.
pub open spec fn after_reorg<K>(m: Map<u64, Vec<K>>, block_number: u64, new_block: u64) -> Map<u64, Vec<K>> {
    if new_block <= block_number {
        without_blocks(m, block_number as int, new_block as int)
    } else {
        m
    }
}

impl CacheWatch {
    /// Nothing seen yet.
    pub fn new() -> (r: CacheWatch)
        ensures
            r.block_number == 0,
            r.last_finalized == 0,
    {
        CacheWatch { block_number: 0, last_finalized: 0 }
    }

    /// Upkeep of the head cache on a new block `new_block`, with `finalized`
    /// the finalized block: a reorg (a block at or below the last one seen)
    /// takes the reorged blocks out, and a new finalized block takes the
    /// stale blocks out. Returns the deletions from the cache that the
    /// reorg calls for.
    pub fn on_new_block<K: GenericBytes>(&mut self, head_cache: &mut BTreeMap<u64, Vec<K>>, new_block: u64, finalized: u64) -> (r: Batch<
        K,
        Vec<u8>,
    >)
        requires
            new_block < u64::MAX,
            finalized < u64::MAX,
        ensures
            final(self).block_number == new_block,
            final(self).last_finalized == finalized,
            r.view() == if new_block <= old(self).block_number {
                deletions(keys_between(old(head_cache)@, old(self).block_number as int, new_block + 1))
            } else {
                Seq::empty()
            },
            ({
                let m = after_reorg(old(head_cache)@, old(self).block_number, new_block);
                final(head_cache)@ == if finalized != old(self).last_finalized {
                    m.restrict(m.dom().filter(|b: u64| b > finalized + 1))
                } else {
                    m
                }
            }),
    {
        let batch = if new_block <= self.block_number {
            handle_reorg(head_cache, self.block_number, new_block)
        } else {
            let b: Batch<K, Vec<u8>> = Batch::with_capacity(0);
            b
        };
        if self.last_finalized != finalized {
            self.last_finalized = finalized;
            remove_stale(head_cache, finalized);
        }
        self.block_number = new_block;
        batch
    }
}

} // verus!
