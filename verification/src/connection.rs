//! Registration on one subnetwork may require standing in others.
//!
//! A connection from `a` to `b` carries a requirement, a fraction of
//! `u16::MAX`. A key passes it where the share of the neurons of `b` that have
//! a higher pruning score than the key's own is no larger than that fraction.
//! Both fractions are 32.32 fixed-point quotients.
use vstd::prelude::*;
use vstd::arithmetic::div_mod::lemma_fundamental_div_mod;
use crate::fixed::{fixed_one, fixed_ratio, ratio_bits};
use crate::pallet::Pallet;
use crate::state::{is_registered, uid_of, Neuron, PalletState};

verus! {

/// The number of uids below `n`, other than `uid`, whose pruning score is
/// higher than that of `uid`.
pub open spec fn count_better(neurons: Seq<Neuron>, uid: int, n: int) -> int
    decreases n,
{
    if n <= 0 {
        0
    } else {
        count_better(neurons, uid, n - 1) + if is_better(neurons, uid, n - 1) {
            1int
        } else {
            0int
        }
    }
}

/// `other` is another uid than `uid`, with a higher pruning score.
pub open spec fn is_better(neurons: Seq<Neuron>, uid: int, other: int) -> bool {
    other != uid && neurons[other].pruning_score > neurons[uid].pruning_score
}

/// The share `n_better / subnet_n` lies above the fraction
/// `requirement / u16::MAX`, both as 32.32 fixed-point quotients.
pub open spec fn exceeds_requirement(n_better: int, subnet_n: int, requirement: u16) -> bool {
    ratio_bits(n_better, subnet_n) > ratio_bits(requirement as int, u16::MAX as int)
}

impl PalletState {
    /// `key` passes the requirement that `a` puts on standing in the existing
    /// subnetwork `b`: the subnetwork has neurons, `key` holds one of its
    /// uids, and the share of better neurons does not exceed the requirement.
    pub open spec fn meets_connection_requirement(self, a: u16, b: u16, key: u64) -> bool {
        let neurons = self.neurons(b);
        &&& neurons.len() > 0
        &&& is_registered(neurons, key)
        &&& !exceeds_requirement(
            count_better(neurons, uid_of(neurons, key), neurons.len() as int),
            neurons.len() as int,
            self.connections[(a, b)],
        )
    }

    /// `key` passes every requirement that `a` puts on standing in a
    /// subnetwork that exists.
    pub open spec fn passes_network_connection_requirement(self, a: u16, key: u64) -> bool {
        forall|b: u16|
            self.if_subnet_exist(b) && #[trigger] self.connections.dom().contains((a, b))
                ==> self.meets_connection_requirement(a, b, key)
    }
}

/// Where a subnetwork that `a` has a requirement on exists and has no neurons,
/// no key passes, whatever the other requirements of `a` are.
pub proof fn lemma_empty_connected_subnet_fails(state: PalletState, a: u16, b: u16, key: u64)
    requires
        state.if_subnet_exist(b),
        state.connection_requirement(a, b) is Some,
        state.neurons(b).len() == 0,
    ensures
        !state.passes_network_connection_requirement(a, key),
{
    assert(state.connections.dom().contains((a, b)));
    assert(!state.meets_connection_requirement(a, b, key));
}

/// A share whose fixed-point quotient equals that of the required fraction
/// does not exceed it; one whose quotient is larger, by as little as one bit,
/// does.
pub proof fn lemma_requirement_boundary(n_better: int, subnet_n: int, requirement: u16)
    ensures
        ratio_bits(n_better, subnet_n) == ratio_bits(requirement as int, u16::MAX as int)
            ==> !exceeds_requirement(n_better, subnet_n, requirement),
        ratio_bits(n_better, subnet_n) >= ratio_bits(requirement as int, u16::MAX as int) + 1
            ==> exceeds_requirement(n_better, subnet_n, requirement),
{
}

/// A share that is no larger than the required fraction, as exact fractions,
/// does not exceed it as fixed-point quotients: truncation never fails a key
/// that is within the requirement.
pub proof fn lemma_share_within_requirement(n_better: int, subnet_n: int, requirement: u16)
    requires
        0 <= n_better,
        0 < subnet_n,
        n_better * u16::MAX <= requirement * subnet_n,
    ensures
        !exceeds_requirement(n_better, subnet_n, requirement),
{
    let a = n_better * fixed_one();
    let b = requirement * fixed_one();
    let q = a / subnet_n;
    let t = b / (u16::MAX as int);
    lemma_fundamental_div_mod(a, subnet_n);
    lemma_fundamental_div_mod(b, u16::MAX as int);
    assert(a * 0xffff <= b * subnet_n) by (nonlinear_arith)
        requires
            a == n_better * 0x1_0000_0000,
            b == requirement * 0x1_0000_0000,
            n_better * 0xffff <= requirement * subnet_n,
    ;
    assert(q <= t) by (nonlinear_arith)
        requires
            0 < subnet_n,
            a * 0xffff <= b * subnet_n,
            a == subnet_n * q + a % subnet_n,
            0 <= a % subnet_n < subnet_n,
            b == 0xffff * t + b % 0xffff,
            0 <= b % 0xffff < 0xffff,
    ;
}

/// On a subnetwork of at most `u16::MAX` neurons the fixed-point comparison
/// decides as exact fractions do: the share exceeds the requirement just where
/// `n_better / subnet_n` is larger than `requirement / u16::MAX`.
pub proof fn lemma_requirement_is_exact(n_better: int, subnet_n: int, requirement: u16)
    requires
        0 <= n_better,
        0 < subnet_n <= u16::MAX,
    ensures
        exceeds_requirement(n_better, subnet_n, requirement) <==> n_better * u16::MAX
            > requirement * subnet_n,
{
    if n_better * u16::MAX <= requirement * subnet_n {
        lemma_share_within_requirement(n_better, subnet_n, requirement);
    } else {
        let a = n_better * fixed_one();
        let b = requirement * fixed_one();
        let q = a / subnet_n;
        let t = b / (u16::MAX as int);
        lemma_fundamental_div_mod(a, subnet_n);
        lemma_fundamental_div_mod(b, u16::MAX as int);
        assert(a * 0xffff >= b * subnet_n + 0x1_0000_0000) by (nonlinear_arith)
            requires
                a == n_better * 0x1_0000_0000,
                b == requirement * 0x1_0000_0000,
                n_better * 0xffff >= requirement * subnet_n + 1,
        ;
        assert(q > t) by (nonlinear_arith)
            requires
                0 < subnet_n <= 0xffff,
                a * 0xffff >= b * subnet_n + 0x1_0000_0000,
                a == subnet_n * q + a % subnet_n,
                0 <= a % subnet_n < subnet_n,
                b == 0xffff * t + b % 0xffff,
                0 <= b % 0xffff < 0xffff,
        ;
    }
}

/// Whether the share `n_better / subnet_n` lies above the required fraction.
pub fn exceeds_top_percentile(n_better: u16, subnet_n: u16, requirement: u16) -> (exceeds: bool)
    requires
        subnet_n != 0,
    ensures
        exceeds == exceeds_requirement(n_better as int, subnet_n as int, requirement),
        exceeds == (n_better * u16::MAX > requirement * subnet_n),
{
    proof {
        lemma_requirement_is_exact(n_better as int, subnet_n as int, requirement);
    }
    let topk_percentile_requirement = fixed_ratio(requirement, u16::MAX);
    let topk_percentile_value = fixed_ratio(n_better, subnet_n);
    topk_percentile_value > topk_percentile_requirement
}

impl Pallet {
    /// The number of neurons of `netuid`, other than `uid`, whose pruning score
    /// is higher than that of `uid`.
    pub fn count_better_pruning_scores(&self, netuid: u16, uid: u16) -> (n_better: u16)
        requires
            self.wf(),
            uid < self@.neurons(netuid).len(),
        ensures
            n_better == count_better(
                self@.neurons(netuid),
                uid as int,
                self@.neurons(netuid).len() as int,
            ),
    {
        let subnet_n = self.get_subnetwork_n(netuid);
        let our_pruning_score = self.get_pruning_score_for_uid(netuid, uid);
        let ghost neurons = self@.neurons(netuid);
        let mut n_better: u16 = 0;
        let mut other_uid: u16 = 0;
        while other_uid < subnet_n
            invariant
                neurons == self@.neurons(netuid),
                subnet_n == neurons.len(),
                uid < subnet_n,
                our_pruning_score == neurons[uid as int].pruning_score,
                0 <= other_uid <= subnet_n,
                n_better == count_better(neurons, uid as int, other_uid as int),
                n_better <= other_uid,
            decreases subnet_n - other_uid,
        {
            let other_pruning_score = self.get_pruning_score_for_uid(netuid, other_uid);
            if other_uid != uid && other_pruning_score > our_pruning_score {
                n_better = n_better + 1;
            }
            other_uid += 1;
        }
        n_better
    }

    /// Whether `key` passes the requirement of `netuid_a` on the existing
    /// subnetwork `netuid_b`.
    fn meets_connection_requirement(&self, netuid_a: u16, netuid_b: u16, key: u64) -> (meets: bool)
        requires
            self.wf(),
            self@.if_subnet_exist(netuid_b),
            self@.connection_requirement(netuid_a, netuid_b) is Some,
        ensures
            meets == self@.meets_connection_requirement(netuid_a, netuid_b, key),
    {
        let subnet_n = self.get_subnetwork_n(netuid_b);
        if subnet_n == 0 {
            return false;
        }
        match (self.get_uid_for_net_and_key(netuid_b, key), self.get_network_connection_requirement(
            netuid_a,
            netuid_b,
        )) {
            (Some(uid_b), Some(requirement)) => {
                let n_better = self.count_better_pruning_scores(netuid_b, uid_b);
                !exceeds_top_percentile(n_better, subnet_n, requirement)
            },
            _ => false,
        }
    }

    /// Whether `key` passes every requirement that `netuid_a` puts on standing
    /// in a subnetwork that exists. Nothing changes.
    pub fn passes_network_connection_requirement(&self, netuid_a: u16, key: u64) -> (passes: bool)
        requires
            self.wf(),
        ensures
            passes == self@.passes_network_connection_requirement(netuid_a, key),
    {
        let netuids = self.get_all_subnet_netuids();
        let mut i: usize = 0;
        while i < netuids.len()
            invariant
                self.wf(),
                0 <= i <= netuids.len(),
                forall|netuid: u16| netuids@.contains(netuid) <==> self@.if_subnet_exist(netuid),
                forall|j: int|
                    0 <= j < i && #[trigger] self@.connections.dom().contains((netuid_a, netuids[j]))
                        ==> self@.meets_connection_requirement(netuid_a, netuids[j], key),
            decreases netuids.len() - i,
        {
            let netuid_b = netuids[i];
            assert(netuids@.contains(netuid_b));
            if self.network_connection_requirement_exists(netuid_a, netuid_b) {
                if !self.meets_connection_requirement(netuid_a, netuid_b, key) {
                    return false;
                }
            }
            i += 1;
        }
        assert forall|b: u16|
            self@.if_subnet_exist(b) && #[trigger] self@.connections.dom().contains(
                (netuid_a, b),
            ) implies self@.meets_connection_requirement(netuid_a, b, key) by {
            assert(netuids@.contains(b));
            let j = choose|j: int| 0 <= j < netuids@.len() && netuids@[j] == b;
            assert(self@.connections.dom().contains((netuid_a, netuids[j])));
        }
        true
    }
}

} // verus!
