//! Which neuron leaves a full subnetwork.
//!
//! Neurons inside their immunity period are shielded: one of them is pruned
//! only where no neuron outside it has a pruning score below the maximum.
//! Among the neurons outside the immunity period the lowest score is pruned,
//! the highest uid among equals; among the shielded ones the lowest score,
//! the lowest uid among equals.
use vstd::prelude::*;
use crate::pallet::Pallet;
use crate::state::{with_score, Neuron, PalletState};

verus! {

/// The neuron is inside its immunity period at `block`.
pub open spec fn is_immune(neuron: Neuron, block: u64, immunity_period: u64) -> bool {
    block - neuron.block_at_registration < immunity_period
}

/// `uid` is held by a neuron outside its immunity period whose pruning score
/// is below the maximum.
pub open spec fn is_exposed(neurons: Seq<Neuron>, block: u64, immunity_period: u64, uid: int) -> bool {
    &&& 0 <= uid < neurons.len()
    &&& !is_immune(neurons[uid], block, immunity_period)
    &&& neurons[uid].pruning_score < u16::MAX
}

/// `uid` is held by a neuron inside its immunity period whose pruning score is
/// below the maximum.
pub open spec fn is_shielded(neurons: Seq<Neuron>, block: u64, immunity_period: u64, uid: int) -> bool {
    &&& 0 <= uid < neurons.len()
    &&& is_immune(neurons[uid], block, immunity_period)
    &&& neurons[uid].pruning_score < u16::MAX
}

/// `uid` is the one to prune.
///
/// Where a neuron is exposed, it is the exposed neuron of the lowest score,
/// and of those the one with the highest uid. Else, where a neuron is
/// shielded, it is the shielded neuron of the lowest score, and of those the
/// one with the lowest uid. Else it is uid 0.
pub open spec fn is_prune_target(
    neurons: Seq<Neuron>,
    block: u64,
    immunity_period: u64,
    uid: int,
) -> bool {
    if exists|i: int| is_exposed(neurons, block, immunity_period, i) {
        &&& is_exposed(neurons, block, immunity_period, uid)
        &&& forall|j: int| #[trigger]
            is_exposed(neurons, block, immunity_period, j) ==> {
                ||| neurons[uid].pruning_score < neurons[j].pruning_score
                ||| neurons[uid].pruning_score == neurons[j].pruning_score && j <= uid
            }
    } else if exists|i: int| is_shielded(neurons, block, immunity_period, i) {
        &&& is_shielded(neurons, block, immunity_period, uid)
        &&& forall|j: int| #[trigger]
            is_shielded(neurons, block, immunity_period, j) ==> {
                ||| neurons[uid].pruning_score < neurons[j].pruning_score
                ||| neurons[uid].pruning_score == neurons[j].pruning_score && uid <= j
            }
    } else {
        uid == 0
    }
}

/// The uid to prune from `neurons`.
pub open spec fn prune_target(neurons: Seq<Neuron>, block: u64, immunity_period: u64) -> int {
    choose|uid: int| is_prune_target(neurons, block, immunity_period, uid)
}

/// At most one uid is the one to prune.
pub proof fn lemma_prune_target_unique(
    neurons: Seq<Neuron>,
    block: u64,
    immunity_period: u64,
    u1: int,
    u2: int,
)
    requires
        is_prune_target(neurons, block, immunity_period, u1),
        is_prune_target(neurons, block, immunity_period, u2),
    ensures
        u1 == u2,
{
}

/// A uid that is the one to prune is `prune_target`.
pub proof fn lemma_prune_target_is(neurons: Seq<Neuron>, block: u64, immunity_period: u64, uid: int)
    requires
        is_prune_target(neurons, block, immunity_period, uid),
    ensures
        prune_target(neurons, block, immunity_period) == uid,
{
    lemma_prune_target_unique(
        neurons,
        block,
        immunity_period,
        uid,
        prune_target(neurons, block, immunity_period),
    );
}

/// Among the first `n` uids, the exposed one of the lowest score, and of those
/// the highest.
proof fn lemma_lowest_exposed(neurons: Seq<Neuron>, block: u64, immunity_period: u64, n: int) -> (uid: int)
    requires
        0 <= n <= neurons.len(),
        exists|j: int| 0 <= j < n && is_exposed(neurons, block, immunity_period, j),
    ensures
        0 <= uid < n,
        is_exposed(neurons, block, immunity_period, uid),
        forall|j: int|
            0 <= j < n && #[trigger] is_exposed(neurons, block, immunity_period, j) ==> {
                ||| neurons[uid].pruning_score < neurons[j].pruning_score
                ||| neurons[uid].pruning_score == neurons[j].pruning_score && j <= uid
            },
    decreases n,
{
    if exists|j: int| 0 <= j < n - 1 && is_exposed(neurons, block, immunity_period, j) {
        let before = lemma_lowest_exposed(neurons, block, immunity_period, n - 1);
        if is_exposed(neurons, block, immunity_period, n - 1) && neurons[n - 1].pruning_score
            <= neurons[before].pruning_score {
            n - 1
        } else {
            before
        }
    } else {
        n - 1
    }
}

/// Among the first `n` uids, the shielded one of the lowest score, and of
/// those the lowest.
proof fn lemma_lowest_shielded(neurons: Seq<Neuron>, block: u64, immunity_period: u64, n: int) -> (uid: int)
    requires
        0 <= n <= neurons.len(),
        exists|j: int| 0 <= j < n && is_shielded(neurons, block, immunity_period, j),
    ensures
        0 <= uid < n,
        is_shielded(neurons, block, immunity_period, uid),
        forall|j: int|
            0 <= j < n && #[trigger] is_shielded(neurons, block, immunity_period, j) ==> {
                ||| neurons[uid].pruning_score < neurons[j].pruning_score
                ||| neurons[uid].pruning_score == neurons[j].pruning_score && uid <= j
            },
    decreases n,
{
    if exists|j: int| 0 <= j < n - 1 && is_shielded(neurons, block, immunity_period, j) {
        let before = lemma_lowest_shielded(neurons, block, immunity_period, n - 1);
        if is_shielded(neurons, block, immunity_period, n - 1) && neurons[n - 1].pruning_score
            < neurons[before].pruning_score {
            n - 1
        } else {
            before
        }
    } else {
        n - 1
    }
}

/// Every sequence of neurons has a uid to prune, and `prune_target` is it.
pub proof fn lemma_prune_target_exists(neurons: Seq<Neuron>, block: u64, immunity_period: u64)
    ensures
        is_prune_target(
            neurons,
            block,
            immunity_period,
            prune_target(neurons, block, immunity_period),
        ),
{
    if exists|i: int| is_exposed(neurons, block, immunity_period, i) {
        let uid = lemma_lowest_exposed(neurons, block, immunity_period, neurons.len() as int);
        assert(is_prune_target(neurons, block, immunity_period, uid));
    } else if exists|i: int| is_shielded(neurons, block, immunity_period, i) {
        let uid = lemma_lowest_shielded(neurons, block, immunity_period, neurons.len() as int);
        assert(is_prune_target(neurons, block, immunity_period, uid));
    } else {
        assert(is_prune_target(neurons, block, immunity_period, 0));
    }
}

/// The uid to prune is held by a neuron, or is 0 where there is none.
pub proof fn lemma_prune_target_in_range(neurons: Seq<Neuron>, block: u64, immunity_period: u64)
    ensures
        0 <= prune_target(neurons, block, immunity_period),
        prune_target(neurons, block, immunity_period) < neurons.len() || (prune_target(
            neurons,
            block,
            immunity_period,
        ) == 0 && neurons.len() == 0),
{
    lemma_prune_target_exists(neurons, block, immunity_period);
}

/// Where some neuron outside its immunity period has a pruning score below
/// the maximum, the neuron to prune is outside its immunity period, no neuron
/// outside it has a lower score, and of those with the same score none has a
/// higher uid.
pub proof fn lemma_prunes_lowest_outside_immunity(
    neurons: Seq<Neuron>,
    block: u64,
    immunity_period: u64,
)
    requires
        exists|i: int| is_exposed(neurons, block, immunity_period, i),
    ensures
        ({
            let uid = prune_target(neurons, block, immunity_period);
            &&& 0 <= uid < neurons.len()
            &&& !is_immune(neurons[uid], block, immunity_period)
            &&& forall|j: int|
                0 <= j < neurons.len() && !is_immune(#[trigger] neurons[j], block, immunity_period)
                    ==> {
                    ||| neurons[uid].pruning_score < neurons[j].pruning_score
                    ||| neurons[uid].pruning_score == neurons[j].pruning_score && j <= uid
                }
        }),
{
    lemma_prune_target_exists(neurons, block, immunity_period);
    let uid = prune_target(neurons, block, immunity_period);
    assert forall|j: int|
        0 <= j < neurons.len() && !is_immune(
            #[trigger] neurons[j],
            block,
            immunity_period,
        ) implies {
        ||| neurons[uid].pruning_score < neurons[j].pruning_score
        ||| neurons[uid].pruning_score == neurons[j].pruning_score && j <= uid
    } by {
        if neurons[j].pruning_score < u16::MAX {
            assert(is_exposed(neurons, block, immunity_period, j));
        }
    }
}

/// Where every neuron is inside its immunity period, the neuron to prune has
/// the lowest score of all, and of those with that score the lowest uid.
pub proof fn lemma_prunes_lowest_when_all_immune(
    neurons: Seq<Neuron>,
    block: u64,
    immunity_period: u64,
)
    requires
        neurons.len() > 0,
        forall|i: int|
            0 <= i < neurons.len() ==> is_immune(#[trigger] neurons[i], block, immunity_period),
    ensures
        ({
            let uid = prune_target(neurons, block, immunity_period);
            &&& 0 <= uid < neurons.len()
            &&& forall|j: int|
                0 <= j < neurons.len() ==> {
                    ||| neurons[uid].pruning_score < (#[trigger] neurons[j]).pruning_score
                    ||| neurons[uid].pruning_score == neurons[j].pruning_score && uid <= j
                }
        }),
{
    lemma_prune_target_exists(neurons, block, immunity_period);
    let uid = prune_target(neurons, block, immunity_period);
    assert(forall|i: int| !is_exposed(neurons, block, immunity_period, i));
    assert forall|j: int| 0 <= j < neurons.len() implies {
        ||| neurons[uid].pruning_score < (#[trigger] neurons[j]).pruning_score
        ||| neurons[uid].pruning_score == neurons[j].pruning_score && uid <= j
    } by {
        if neurons[j].pruning_score < u16::MAX {
            assert(is_shielded(neurons, block, immunity_period, j));
        }
        if neurons[0].pruning_score < u16::MAX {
            assert(is_shielded(neurons, block, immunity_period, 0));
        }
    }
}

/// The uid that was chosen is chosen again, without a neuron taking it over
/// in between, only where it is uid 0 and every pruning score has reached the
/// maximum; else the second choice is another uid.
pub proof fn lemma_prune_twice(neurons: Seq<Neuron>, block: u64, immunity_period: u64)
    requires
        neurons.len() > 0,
    ensures
        ({
            let first = prune_target(neurons, block, immunity_period);
            let marked = with_score(neurons, first, u16::MAX);
            let second = prune_target(marked, block, immunity_period);
            second == first <==> first == 0 && forall|j: int|
                0 <= j < marked.len() ==> (#[trigger] marked[j]).pruning_score == u16::MAX
        }),
{
    let first = prune_target(neurons, block, immunity_period);
    lemma_prune_target_exists(neurons, block, immunity_period);
    lemma_prune_target_in_range(neurons, block, immunity_period);
    let marked = with_score(neurons, first, u16::MAX);
    let second = prune_target(marked, block, immunity_period);
    lemma_prune_target_exists(marked, block, immunity_period);
    if exists|i: int| is_exposed(marked, block, immunity_period, i) {
        assert(is_exposed(marked, block, immunity_period, second));
    } else if exists|i: int| is_shielded(marked, block, immunity_period, i) {
        assert(is_shielded(marked, block, immunity_period, second));
    } else {
        assert forall|j: int| 0 <= j < marked.len() implies (#[trigger] marked[j]).pruning_score
            == u16::MAX by {
            assert(!is_exposed(marked, block, immunity_period, j));
            assert(!is_shielded(marked, block, immunity_period, j));
        }
    }
}

impl PalletState {
    /// The uid to prune from `netuid`; 0 where the subnetwork does not exist.
    pub open spec fn prune_target(self, netuid: u16) -> int {
        prune_target(self.neurons(netuid), self.current_block, self.immunity_period(netuid))
    }

    /// This state after `uid` of `netuid` was chosen for pruning: its pruning
    /// score is the maximum.
    pub open spec fn mark_pruned(self, netuid: u16, uid: u16) -> PalletState {
        self.set_pruning_score(netuid, uid, u16::MAX)
    }
}

impl Pallet {
    /// Chooses the uid of `netuid` that the next registration takes over, and
    /// sets its pruning score to the maximum.
    ///
    /// On a subnetwork without neurons, or one that does not exist, the result
    /// is 0 and nothing changes.
    pub fn get_neuron_to_prune(&mut self, netuid: u16) -> (uid: u16)
        requires
            old(self).wf(),
        ensures
            final(self).wf(),
            uid == old(self)@.prune_target(netuid),
            uid < old(self)@.neurons(netuid).len() || (uid == 0 && old(self)@.neurons(netuid).len()
                == 0),
            final(self)@ == old(self)@.mark_pruned(netuid, uid),
            old(self)@.neurons(netuid).len() > 0 ==> final(self)@.pruning_score(netuid, uid)
                == u16::MAX,
    {
        let n = self.get_subnetwork_n(netuid);
        let current_block = self.get_current_block_as_u64();
        let immunity_period = self.get_immunity_period(netuid);
        let ghost neurons = self@.neurons(netuid);
        let mut min_score: u16 = u16::MAX;
        let mut min_score_in_immunity_period: u16 = u16::MAX;
        let mut uid_with_min_score: u16 = 0;
        let mut uid_with_min_score_in_immunity_period: u16 = 0;
        if n == 0 {
            proof {
                lemma_prune_target_is(neurons, current_block, immunity_period, 0);
            }
            return 0;
        }
        assert(self@.subnets[netuid].wf(current_block));
        let mut i: u16 = 0;
        while i < n
            invariant
                self.wf(),
                *self == *old(self),
                neurons == self@.neurons(netuid),
                n == neurons.len(),
                current_block == self@.current_block,
                forall|k: int|
                    0 <= k < n ==> (#[trigger] neurons[k]).block_at_registration <= current_block,
                0 <= i <= n,
                min_score == u16::MAX ==> forall|j: int|
                    0 <= j < i ==> !is_exposed(neurons, current_block, immunity_period, j),
                min_score < u16::MAX ==> {
                    &&& uid_with_min_score < i
                    &&& is_exposed(neurons, current_block, immunity_period, uid_with_min_score as int)
                    &&& neurons[uid_with_min_score as int].pruning_score == min_score
                    &&& forall|j: int|
                        0 <= j < i && #[trigger] is_exposed(
                            neurons,
                            current_block,
                            immunity_period,
                            j,
                        ) ==> {
                            ||| min_score < neurons[j].pruning_score
                            ||| min_score == neurons[j].pruning_score && j <= uid_with_min_score
                        }
                },
                min_score_in_immunity_period == u16::MAX ==> {
                    &&& uid_with_min_score_in_immunity_period == 0
                    &&& forall|j: int|
                        0 <= j < i ==> !is_shielded(neurons, current_block, immunity_period, j)
                },
                min_score_in_immunity_period < u16::MAX ==> {
                    &&& uid_with_min_score_in_immunity_period < i
                    &&& is_shielded(
                        neurons,
                        current_block,
                        immunity_period,
                        uid_with_min_score_in_immunity_period as int,
                    )
                    &&& neurons[uid_with_min_score_in_immunity_period as int].pruning_score
                        == min_score_in_immunity_period
                    &&& forall|j: int|
                        0 <= j < i && #[trigger] is_shielded(
                            neurons,
                            current_block,
                            immunity_period,
                            j,
                        ) ==> {
                            ||| min_score_in_immunity_period < neurons[j].pruning_score
                            ||| min_score_in_immunity_period == neurons[j].pruning_score
                                && uid_with_min_score_in_immunity_period <= j
                        }
                },
            decreases n - i,
        {
            let pruning_score = self.get_pruning_score_for_uid(netuid, i);
            let block_at_registration = self.get_neuron_block_at_registration(netuid, i);
            assert(neurons[i as int].block_at_registration <= current_block);
            if current_block - block_at_registration < immunity_period {
                if pruning_score < min_score_in_immunity_period {
                    min_score_in_immunity_period = pruning_score;
                    uid_with_min_score_in_immunity_period = i;
                }
            } else if pruning_score <= min_score {
                min_score = pruning_score;
                uid_with_min_score = i;
            }
            i += 1;
        }
        let uid = if min_score == u16::MAX {
            uid_with_min_score_in_immunity_period
        } else {
            uid_with_min_score
        };
        proof {
            assert(is_prune_target(neurons, current_block, immunity_period, uid as int));
            lemma_prune_target_is(neurons, current_block, immunity_period, uid as int);
        }
        self.set_pruning_score_for_uid(netuid, uid, u16::MAX);
        uid
    }
}

} // verus!
