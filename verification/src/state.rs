//! The mathematical model of the registry: what a pallet holds, as sequences,
//! maps and sets, and the transitions that registration performs on it.
use vstd::prelude::*;

verus! {

/// The occupant of one uid of a subnetwork.
#[derive(Clone, Copy, Debug, PartialEq, Eq, Structural)]
pub struct Neuron {
    /// The identity that holds the uid.
    pub key: u64,
    /// Lower scores are pruned first.
    pub pruning_score: u16,
    /// The block at which `key` took the uid.
    pub block_at_registration: u64,
}

/// One subnetwork: its configuration, its counters and its neurons by uid.
pub struct SubnetState {
    pub max_allowed_uids: u16,
    pub immunity_period: u64,
    pub max_registrations_per_block: u16,
    pub registrations_this_block: u16,
    pub registrations_this_interval: u16,
    pub neurons: Seq<Neuron>,
}

/// Everything a pallet holds.
pub struct PalletState {
    pub current_block: u64,
    /// The subnetworks that exist, by netuid.
    pub subnets: Map<u16, SubnetState>,
    /// `connections[(a, b)]` is the requirement that registration on `a` puts
    /// on the key's standing in `b`, normalised against `u16::MAX`.
    pub connections: Map<(u16, u16), u16>,
    /// The accounts that the ledger knows.
    pub accounts: Set<u64>,
}

/// Some uid of `neurons` is held by `key`.
pub open spec fn is_registered(neurons: Seq<Neuron>, key: u64) -> bool {
    exists|i: int| 0 <= i < neurons.len() && (#[trigger] neurons[i]).key == key
}

/// The uid that `key` holds, where it holds one.
pub open spec fn uid_of(neurons: Seq<Neuron>, key: u64) -> int {
    choose|i: int| 0 <= i < neurons.len() && (#[trigger] neurons[i]).key == key
}

/// No key holds two uids.
pub open spec fn distinct_keys(neurons: Seq<Neuron>) -> bool {
    forall|i: int, j: int|
        0 <= i < j < neurons.len() ==> (#[trigger] neurons[i]).key != (#[trigger] neurons[j]).key
}

/// `neurons` with the pruning score of `uid` set to `score`.
pub open spec fn with_score(neurons: Seq<Neuron>, uid: int, score: u16) -> Seq<Neuron> {
    neurons.update(uid, Neuron { pruning_score: score, ..neurons[uid] })
}

impl SubnetState {
    /// The uids are within capacity, each key holds at most one of them, and
    /// none was taken after `block`.
    pub open spec fn wf(self, block: u64) -> bool {
        &&& self.neurons.len() <= self.max_allowed_uids
        &&& distinct_keys(self.neurons)
        &&& forall|i: int|
            0 <= i < self.neurons.len() ==> (#[trigger] self.neurons[i]).block_at_registration
                <= block
    }

    /// This subnetwork with other neurons.
    pub open spec fn with_neurons(self, neurons: Seq<Neuron>) -> SubnetState {
        SubnetState { neurons, ..self }
    }
}

impl PalletState {
    /// The state without subnetworks, connections or accounts, at block 0.
    pub open spec fn empty() -> PalletState {
        PalletState {
            current_block: 0,
            subnets: Map::empty(),
            connections: Map::empty(),
            accounts: Set::empty(),
        }
    }

    /// Every subnetwork is well formed at the current block.
    pub open spec fn wf(self) -> bool {
        forall|netuid: u16| #[trigger]
            self.subnets.dom().contains(netuid) ==> self.subnets[netuid].wf(self.current_block)
    }

    /// The subnetwork `netuid` exists.
    pub open spec fn if_subnet_exist(self, netuid: u16) -> bool {
        self.subnets.dom().contains(netuid)
    }

    /// The neurons of `netuid`; none where the subnetwork does not exist.
    pub open spec fn neurons(self, netuid: u16) -> Seq<Neuron> {
        if self.if_subnet_exist(netuid) {
            self.subnets[netuid].neurons
        } else {
            Seq::empty()
        }
    }

    /// The pruning score of `uid` on `netuid`; 0 where nothing holds that uid.
    pub open spec fn pruning_score(self, netuid: u16, uid: u16) -> u16 {
        if uid < self.neurons(netuid).len() {
            self.neurons(netuid)[uid as int].pruning_score
        } else {
            0
        }
    }

    /// The key that holds `uid` on `netuid`, where one does.
    pub open spec fn key_of(self, netuid: u16, uid: u16) -> Option<u64> {
        if uid < self.neurons(netuid).len() {
            Some(self.neurons(netuid)[uid as int].key)
        } else {
            None
        }
    }

    /// The block at which `uid` on `netuid` was taken; 0 where nothing holds
    /// that uid.
    pub open spec fn block_at_registration(self, netuid: u16, uid: u16) -> u64 {
        if uid < self.neurons(netuid).len() {
            self.neurons(netuid)[uid as int].block_at_registration
        } else {
            0
        }
    }

    /// The immunity period of `netuid`; 0 where the subnetwork does not exist.
    pub open spec fn immunity_period(self, netuid: u16) -> u64 {
        if self.if_subnet_exist(netuid) {
            self.subnets[netuid].immunity_period
        } else {
            0
        }
    }

    /// The requirement that registration on `a` puts on the key's standing in
    /// `b`, where there is one.
    pub open spec fn connection_requirement(self, a: u16, b: u16) -> Option<u16> {
        if self.connections.dom().contains((a, b)) {
            Some(self.connections[(a, b)])
        } else {
            None
        }
    }

    /// The number of uids of `netuid`; 0 where the subnetwork does not exist.
    pub open spec fn max_allowed_uids(self, netuid: u16) -> u16 {
        if self.if_subnet_exist(netuid) {
            self.subnets[netuid].max_allowed_uids
        } else {
            0
        }
    }

    /// The registrations that `netuid` admits in one block; 0 where the
    /// subnetwork does not exist.
    pub open spec fn max_registrations_per_block(self, netuid: u16) -> u16 {
        if self.if_subnet_exist(netuid) {
            self.subnets[netuid].max_registrations_per_block
        } else {
            0
        }
    }

    /// The registrations on `netuid` in the current block; 0 where the
    /// subnetwork does not exist.
    pub open spec fn registrations_this_block(self, netuid: u16) -> u16 {
        if self.if_subnet_exist(netuid) {
            self.subnets[netuid].registrations_this_block
        } else {
            0
        }
    }

    /// The registrations on `netuid` in the current interval; 0 where the
    /// subnetwork does not exist.
    pub open spec fn registrations_this_interval(self, netuid: u16) -> u16 {
        if self.if_subnet_exist(netuid) {
            self.subnets[netuid].registrations_this_interval
        } else {
            0
        }
    }

    /// This state with `key` on the next free uid of the existing subnetwork
    /// `netuid`, registered at the current block with pruning score 0.
    pub open spec fn append_neuron(self, netuid: u16, key: u64) -> PalletState {
        self.with_neurons(
            netuid,
            self.neurons(netuid).push(
                Neuron { key, pruning_score: 0, block_at_registration: self.current_block },
            ),
        )
    }

    /// This state with `key` on `uid` of `netuid` in place of the key that held
    /// it, registered at `block`. The uid keeps its pruning score.
    pub open spec fn replace_neuron(self, netuid: u16, uid: u16, key: u64, block: u64) -> PalletState {
        self.with_neurons(
            netuid,
            self.neurons(netuid).update(
                uid as int,
                Neuron {
                    key,
                    pruning_score: self.neurons(netuid)[uid as int].pruning_score,
                    block_at_registration: block,
                },
            ),
        )
    }

    /// This state with one more registration counted on the existing
    /// subnetwork `netuid`, for the block and for the interval.
    pub open spec fn record_registration(self, netuid: u16) -> PalletState {
        PalletState {
            subnets: self.subnets.insert(
                netuid,
                SubnetState {
                    registrations_this_block: (self.subnets[netuid].registrations_this_block
                        + 1) as u16,
                    registrations_this_interval: (self.subnets[netuid].registrations_this_interval
                        + 1) as u16,
                    ..self.subnets[netuid]
                },
            ),
            ..self
        }
    }

    /// This state with the account of `key` in the ledger.
    pub open spec fn create_account(self, key: u64) -> PalletState {
        PalletState { accounts: self.accounts.insert(key), ..self }
    }

    /// This state with the pruning score of `uid` on `netuid` set to `score`;
    /// unchanged where nothing holds that uid.
    pub open spec fn set_pruning_score(self, netuid: u16, uid: u16, score: u16) -> PalletState {
        if uid < self.neurons(netuid).len() {
            self.with_neurons(netuid, with_score(self.neurons(netuid), uid as int, score))
        } else {
            self
        }
    }

    /// This state with `subnet` as the subnetwork `netuid`.
    pub open spec fn with_subnet(self, netuid: u16, subnet: SubnetState) -> PalletState {
        PalletState { subnets: self.subnets.insert(netuid, subnet), ..self }
    }

    /// This state with a new subnetwork `netuid` that has no neurons and has
    /// counted no registrations.
    pub open spec fn add_network(
        self,
        netuid: u16,
        max_allowed_uids: u16,
        immunity_period: u64,
        max_registrations_per_block: u16,
    ) -> PalletState {
        self.with_subnet(
            netuid,
            SubnetState {
                max_allowed_uids,
                immunity_period,
                max_registrations_per_block,
                registrations_this_block: 0,
                registrations_this_interval: 0,
                neurons: Seq::empty(),
            },
        )
    }

    /// This state with `requirement` as what registration on `a` requires of
    /// the key's standing in `b`.
    pub open spec fn set_connection_requirement(self, a: u16, b: u16, requirement: u16) -> PalletState {
        PalletState { connections: self.connections.insert((a, b), requirement), ..self }
    }

    /// This state at a later block.
    pub open spec fn at_block(self, block: u64) -> PalletState {
        PalletState { current_block: block, ..self }
    }

    /// This state with the neurons of an existing subnetwork replaced.
    pub open spec fn with_neurons(self, netuid: u16, neurons: Seq<Neuron>) -> PalletState {
        PalletState {
            subnets: self.subnets.insert(netuid, self.subnets[netuid].with_neurons(neurons)),
            ..self
        }
    }
}

} // verus!
