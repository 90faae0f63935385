//! Reconciliation with neighbors by the longest-valid-chain rule.

use crate::block::Block;
use crate::blockchain::{valid_chain, Blockchain};
use vstd::prelude::*;

verus! {

/// The longest-valid-chain rule for one fetched chain: it replaces `local`
/// only when it is strictly longer and valid.
pub open spec fn adopt(local: Seq<Block>, candidate: Seq<Block>) -> Seq<Block> {
    if candidate.len() > local.len() && valid_chain(candidate) {
        candidate
    } else {
        local
    }
}

/// Views of the fetched chains; `None` stands for a neighbor that could not be reached.
pub open spec fn fetched_views(v: Seq<Option<Vec<Block>>>) -> Seq<Option<Seq<Block>>> {
    v.map_values(|o: Option<Vec<Block>>| match o {
        Some(c) => Some(c@),
        None => None,
    })
}

/// The rule applied to each fetched chain in turn, skipping unreachable neighbors.
pub open spec fn reconcile(local: Seq<Block>, fetched: Seq<Option<Seq<Block>>>) -> Seq<Block>
    decreases fetched.len(),
{
    if fetched.len() == 0 {
        local
    } else {
        let before = reconcile(local, fetched.drop_last());
        match fetched.last() {
            Some(c) => adopt(before, c),
            None => before,
        }
    }
}

impl Blockchain {
    /// Replaces the chain with `candidate` when that is strictly longer and
    /// valid; says whether it did. The pool is kept.
    pub fn adopt_chain(&mut self, candidate: Vec<Block>) -> (replaced: bool)
        requires
            old(self).wf(),
        ensures
            final(self).wf(),
            final(self).chain@ == adopt(old(self).chain@, candidate@),
            replaced == (candidate@.len() > old(self).chain@.len() && valid_chain(candidate@)),
            final(self).transaction_pool == old(self).transaction_pool,
            final(self).miner() == old(self).miner(),
    {
        if candidate.len() > self.chain.len() && Self::chain_is_valid(&candidate) {
            self.chain = candidate;
            true
        } else {
            false
        }
    }

    /// Reconciles with the chains fetched from the neighbors, in order:
    /// each one replaces the current chain when it is strictly longer and
    /// valid; a neighbor that could not be reached (`None`) is skipped.
    /// Says whether the chain was replaced.
    pub fn resolve_conflict(&mut self, fetched: Vec<Option<Vec<Block>>>) -> (replaced: bool)
        requires
            old(self).wf(),
        ensures
            final(self).wf(),
            final(self).chain@ == reconcile(old(self).chain@, fetched_views(fetched@)),
            replaced == (final(self).chain@.len() > old(self).chain@.len()),
            final(self).transaction_pool == old(self).transaction_pool,
            final(self).miner() == old(self).miner(),
    {
        let ghost all = fetched_views(fetched@);
        let ghost start = self.chain@;
        assert(all.len() == fetched.len());
        let mut rest = fetched;
        let mut done: usize = 0;
        let mut replaced = false;
        while rest.len() > 0
            invariant
                self.wf(),
                done + rest@.len() == all.len(),
                all.len() <= usize::MAX,
                fetched_views(rest@) == all.subrange(done as int, all.len() as int),
                self.chain@ == reconcile(start, all.subrange(0, done as int)),
                replaced == (self.chain@.len() > start.len()),
                self.transaction_pool == old(self).transaction_pool,
                self.miner() == old(self).miner(),
                start == old(self).chain@,
            decreases rest.len(),
        {
            let ghost rest_before = rest@;
            let next = rest.remove(0);
            proof {
                assert(all.subrange(0, done + 1).drop_last() =~= all.subrange(0, done as int));
                assert(all[done as int] == fetched_views(rest_before)[0]);
                assert forall|j: int| 0 <= j < rest@.len() implies fetched_views(rest@)[j]
                    == all.subrange(done + 1, all.len() as int)[j] by {
                    assert(rest@[j] == rest_before[j + 1]);
                    assert(fetched_views(rest_before)[j + 1] == all.subrange(
                        done as int,
                        all.len() as int,
                    )[j + 1]);
                }
                assert(fetched_views(rest@) =~= all.subrange(done + 1, all.len() as int));
                lemma_reconcile_monotone(start, all.subrange(0, done as int));
            }
            match next {
                Some(candidate) => {
                    if self.adopt_chain(candidate) {
                        replaced = true;
                    }
                },
                None => {},
            }
            done = done + 1;
        }
        assert(all.subrange(0, done as int) =~= all);
        replaced
    }
}

/// Reconciliation never shortens the chain, and a valid chain stays valid.
pub proof fn lemma_reconcile_monotone(local: Seq<Block>, fetched: Seq<Option<Seq<Block>>>)
    ensures
        reconcile(local, fetched).len() >= local.len(),
        valid_chain(local) ==> valid_chain(reconcile(local, fetched)),
    decreases fetched.len(),
{
    if fetched.len() > 0 {
        lemma_reconcile_monotone(local, fetched.drop_last());
    }
}

/// The local chain is replaced only by a fetched chain that is both strictly
/// longer than it and valid; a fetched chain that is invalid, or valid but
/// not longer, never replaces it.
pub proof fn lemma_replacement_only_by_longer_valid(
    local: Seq<Block>,
    fetched: Seq<Option<Seq<Block>>>,
)
    ensures
        reconcile(local, fetched) == local || exists|k: int|
            0 <= k < fetched.len() && #[trigger] fetched[k] == Some(reconcile(local, fetched))
                && reconcile(local, fetched).len() > local.len() && valid_chain(
                reconcile(local, fetched),
            ),
    decreases fetched.len(),
{
    if fetched.len() > 0 {
        let init = fetched.drop_last();
        lemma_replacement_only_by_longer_valid(local, init);
        lemma_reconcile_monotone(local, init);
        let before = reconcile(local, init);
        let after = reconcile(local, fetched);
        if after != before {
            let k = fetched.len() - 1;
            assert(fetched[k] == Some(after));
        } else if before != local {
            let k = choose|k: int|
                0 <= k < init.len() && #[trigger] init[k] == Some(reconcile(local, init))
                    && reconcile(local, init).len() > local.len() && valid_chain(
                    reconcile(local, init),
                );
            assert(fetched[k] == init[k]);
        }
    }
}

} // verus!
