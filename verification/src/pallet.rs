//! The registry itself: the subnetworks with their neurons, the connection
//! requirements between them, the ledger's accounts and the current block.
use vstd::prelude::*;
use crate::state::{distinct_keys, is_registered, uid_of, Neuron, PalletState, SubnetState};

verus! {

/// One subnetwork as the pallet stores it.
#[derive(Clone, Debug, PartialEq, Eq)]
struct Subnet {
    max_allowed_uids: u16,
    immunity_period: u64,
    max_registrations_per_block: u16,
    registrations_this_block: u16,
    registrations_this_interval: u16,
    neurons: Vec<Neuron>,
}

impl View for Subnet {
    type V = SubnetState;

    closed spec fn view(&self) -> SubnetState {
        SubnetState {
            max_allowed_uids: self.max_allowed_uids,
            immunity_period: self.immunity_period,
            max_registrations_per_block: self.max_registrations_per_block,
            registrations_this_block: self.registrations_this_block,
            registrations_this_interval: self.registrations_this_interval,
            neurons: self.neurons@,
        }
    }
}

/// A requirement that registration on `netuid_a` puts on the key's standing in
/// `netuid_b`.
#[derive(Clone, Copy, Debug, PartialEq, Eq)]
struct Connection {
    netuid_a: u16,
    netuid_b: u16,
    requirement: u16,
}

/// `c` is the requirement of `a` on `b`.
spec fn connects(c: Connection, a: u16, b: u16) -> bool {
    c.netuid_a == a && c.netuid_b == b
}

/// Some entry of `connections` is the requirement of `a` on `b`.
spec fn has_connection(connections: Seq<Connection>, a: u16, b: u16) -> bool {
    exists|i: int| 0 <= i < connections.len() && connects(#[trigger] connections[i], a, b)
}

/// The place of the requirement of `a` on `b`, where there is one.
spec fn connection_index(connections: Seq<Connection>, a: u16, b: u16) -> int {
    choose|i: int| 0 <= i < connections.len() && connects(#[trigger] connections[i], a, b)
}

/// No pair of subnetworks has two requirements.
spec fn distinct_connections(connections: Seq<Connection>) -> bool {
    forall|i: int, j: int|
        0 <= i < j < connections.len() ==> !connects(
            #[trigger] connections[i],
            (#[trigger] connections[j]).netuid_a,
            connections[j].netuid_b,
        )
}

/// The registry. A subnetwork is stored at the index of its netuid.
#[derive(Clone, Debug, PartialEq, Eq)]
pub struct Pallet {
    current_block: u64,
    subnets: Vec<Option<Subnet>>,
    connections: Vec<Connection>,
    accounts: Vec<u64>,
}

impl View for Pallet {
    type V = PalletState;

    closed spec fn view(&self) -> PalletState {
        PalletState {
            current_block: self.current_block,
            subnets: Map::new(
                |netuid: u16| netuid < self.subnets.len() && self.subnets[netuid as int] is Some,
                |netuid: u16| self.subnets[netuid as int]->0@,
            ),
            connections: Map::new(
                |p: (u16, u16)| has_connection(self.connections@, p.0, p.1),
                |p: (u16, u16)|
                    self.connections[connection_index(self.connections@, p.0, p.1)].requirement,
            ),
            accounts: Set::new(|key: u64| self.accounts@.contains(key)),
        }
    }
}

impl Pallet {
    /// What the representation keeps beyond the model: every netuid is an
    /// index, and a pair of subnetworks has one requirement at most.
    pub closed spec fn inv(&self) -> bool {
        &&& self.subnets.len() <= 0x1_0000
        &&& distinct_connections(self.connections@)
    }

    /// The pallet is well formed: its representation is sound and every
    /// subnetwork keeps its uids within capacity, its keys distinct and its
    /// registration blocks in the past.
    pub open spec fn wf(&self) -> bool {
        self.inv() && self@.wf()
    }

    // Setting up

    /// An empty registry at block 0.
    pub fn new() -> (pallet: Pallet)
        ensures
            pallet.wf(),
            pallet@ == PalletState::empty(),
    {
        let pallet = Pallet {
            current_block: 0,
            subnets: Vec::new(),
            connections: Vec::new(),
            accounts: Vec::new(),
        };
        assert(pallet@.subnets =~= Map::empty());
        assert(pallet@.connections =~= Map::empty());
        assert(pallet@.accounts =~= Set::empty());
        pallet
    }

    /// Adds the subnetwork `netuid`, without neurons. Where it exists already
    /// the result is `false` and nothing changes.
    pub fn add_network(
        &mut self,
        netuid: u16,
        max_allowed_uids: u16,
        immunity_period: u64,
        max_registrations_per_block: u16,
    ) -> (added: bool)
        requires
            old(self).wf(),
        ensures
            final(self).wf(),
            added == !old(self)@.if_subnet_exist(netuid),
            final(self)@ == if added {
                old(self)@.add_network(
                    netuid,
                    max_allowed_uids,
                    immunity_period,
                    max_registrations_per_block,
                )
            } else {
                old(self)@
            },
    {
        if self.if_subnet_exist(netuid) {
            return false;
        }
        let i = netuid as usize;
        while self.subnets.len() <= i
            invariant
                self.subnets.len() <= 0x1_0000,
                i < 0x1_0000,
                self.current_block == old(self).current_block,
                self.connections == old(self).connections,
                self.accounts == old(self).accounts,
                old(self).subnets.len() <= self.subnets.len(),
                forall|k: int|
                    0 <= k < old(self).subnets.len() ==> self.subnets[k] == old(self).subnets[k],
                forall|k: int|
                    old(self).subnets.len() <= k < self.subnets.len() ==> self.subnets[k] is None,
            decreases 0x1_0000 - self.subnets.len(),
        {
            self.subnets.push(None);
        }
        let subnet = Subnet {
            max_allowed_uids,
            immunity_period,
            max_registrations_per_block,
            registrations_this_block: 0,
            registrations_this_interval: 0,
            neurons: Vec::new(),
        };
        self.subnets[i] = Some(subnet);
        proof {
            let after = old(self)@.add_network(
                netuid,
                max_allowed_uids,
                immunity_period,
                max_registrations_per_block,
            );
            assert(self@.subnets =~= after.subnets);
            assert(self@.connections =~= after.connections);
            assert(self@.accounts =~= after.accounts);
            assert(self@ == after);
            assert forall|id: u16| #[trigger]
                after.subnets.dom().contains(id) implies after.subnets[id].wf(
                after.current_block,
            ) by {
                if id != netuid {
                    assert(old(self)@.subnets[id].wf(old(self)@.current_block));
                }
            }
        }
        true
    }

    /// Sets what registration on `netuid_a` requires of the key's standing in
    /// `netuid_b`, in place of an earlier requirement where there was one.
    pub fn add_connection_requirement(&mut self, netuid_a: u16, netuid_b: u16, requirement: u16)
        requires
            old(self).wf(),
        ensures
            final(self).wf(),
            final(self)@ == old(self)@.set_connection_requirement(netuid_a, netuid_b, requirement),
    {
        let connection = Connection { netuid_a, netuid_b, requirement };
        match self.find_connection(netuid_a, netuid_b) {
            Some(i) => {
                self.connections[i] = connection;
            },
            None => {
                self.connections.push(connection);
            },
        }
        proof {
            let before = old(self).connections@;
            let now = self.connections@;
            let after = old(self)@.set_connection_requirement(netuid_a, netuid_b, requirement);
            let placed = if before.len() == now.len() {
                connection_index(before, netuid_a, netuid_b)
            } else {
                before.len() as int
            };
            assert(connects(now[placed], netuid_a, netuid_b));
            assert forall|p: (u16, u16)|
                self@.connections.dom().contains(p) == after.connections.dom().contains(p) by {
                if has_connection(before, p.0, p.1) {
                    let j = connection_index(before, p.0, p.1);
                    assert(connects(now[if j == placed { placed } else { j }], p.0, p.1));
                }
                if has_connection(now, p.0, p.1) && p != (netuid_a, netuid_b) {
                    let j = connection_index(now, p.0, p.1);
                    assert(connects(before[j], p.0, p.1));
                }
            }
            assert forall|p: (u16, u16)| #[trigger]
                after.connections.dom().contains(p) implies self@.connections[p]
                == after.connections[p] by {
                let j = connection_index(now, p.0, p.1);
                if p != (netuid_a, netuid_b) {
                    assert(connects(before[j], p.0, p.1));
                }
            }
            assert(self@.connections =~= after.connections);
            assert(self@.subnets =~= after.subnets);
            assert(self@.accounts =~= after.accounts);
        }
    }

    /// Moves to `block`. Blocks do not go back: for an earlier block the result
    /// is `false` and nothing changes.
    pub fn set_current_block(&mut self, block: u64) -> (moved: bool)
        requires
            old(self).wf(),
        ensures
            final(self).wf(),
            moved == (old(self)@.current_block <= block),
            final(self)@ == if moved {
                old(self)@.at_block(block)
            } else {
                old(self)@
            },
    {
        if block < self.current_block {
            return false;
        }
        self.current_block = block;
        proof {
            let after = old(self)@.at_block(block);
            assert(self@.subnets =~= after.subnets);
            assert(self@.connections =~= after.connections);
            assert(self@.accounts =~= after.accounts);
            assert(self@ == after);
            assert forall|netuid: u16| #[trigger]
                after.subnets.dom().contains(netuid) implies after.subnets[netuid].wf(block) by {
                assert(old(self)@.subnets[netuid].wf(old(self)@.current_block));
            }
        }
        true
    }

    /// Sets the number of uids of `netuid`. Uids that are held stay: where the
    /// subnetwork does not exist or holds more neurons than that, the result is
    /// `false` and nothing changes.
    pub fn set_max_allowed_uids(&mut self, netuid: u16, max_allowed_uids: u16) -> (changed: bool)
        requires
            old(self).wf(),
        ensures
            final(self).wf(),
            changed == (old(self)@.if_subnet_exist(netuid) && old(self)@.neurons(netuid).len() <= max_allowed_uids),
            final(self)@ == if old(self)@.if_subnet_exist(netuid) && old(self)@.neurons(netuid).len() <= max_allowed_uids {
                old(self)@.with_subnet(
                    netuid,
                    (SubnetState { max_allowed_uids, ..old(self)@.subnets[netuid] }),
                )
            } else {
                old(self)@
            },
    {
        let i = netuid as usize;
        let mut changed = false;
        if i < self.subnets.len() {
            match &mut self.subnets[i] {
                Some(s) => {
                    if s.neurons.len() <= max_allowed_uids as usize {
                        s.max_allowed_uids = max_allowed_uids;
                        changed = true;
                    }
                },
                None => {},
            }
        }
        proof {
            let after = if old(self)@.if_subnet_exist(netuid) && old(self)@.neurons(netuid).len() <= max_allowed_uids {
                old(self)@.with_subnet(
                    netuid,
                    SubnetState { max_allowed_uids, ..old(self)@.subnets[netuid] },
                )
            } else {
                old(self)@
            };
            assert(self@.subnets =~= after.subnets);
            assert(self@.connections =~= after.connections);
            assert(self@.accounts =~= after.accounts);
            assert(self@ == after);
            assert(old(self)@.if_subnet_exist(netuid) ==> old(self)@.subnets[netuid].wf(
                old(self)@.current_block,
            ));
        }
        changed
    }

    /// Sets the immunity period of `netuid`. Nothing changes where the
    /// subnetwork does not exist.
    pub fn set_immunity_period(&mut self, netuid: u16, immunity_period: u64)
        requires
            old(self).wf(),
        ensures
            final(self).wf(),
            final(self)@ == if old(self)@.if_subnet_exist(netuid) {
                old(self)@.with_subnet(
                    netuid,
                    (SubnetState { immunity_period, ..old(self)@.subnets[netuid] }),
                )
            } else {
                old(self)@
            },
    {
        let i = netuid as usize;
        if i < self.subnets.len() {
            match &mut self.subnets[i] {
                Some(s) => {
                    s.immunity_period = immunity_period;
                },
                None => {},
            }
        }
        proof {
            let after = if old(self)@.if_subnet_exist(netuid) {
                old(self)@.with_subnet(
                    netuid,
                    SubnetState { immunity_period, ..old(self)@.subnets[netuid] },
                )
            } else {
                old(self)@
            };
            assert(self@.subnets =~= after.subnets);
            assert(self@.connections =~= after.connections);
            assert(self@.accounts =~= after.accounts);
            assert(self@ == after);
            assert(old(self)@.if_subnet_exist(netuid) ==> old(self)@.subnets[netuid].wf(
                old(self)@.current_block,
            ));
        }
    }

    /// Sets the registrations that `netuid` admits in one block. Nothing changes
    /// where the subnetwork does not exist.
    pub fn set_max_registrations_per_block(&mut self, netuid: u16, max_registrations_per_block: u16)
        requires
            old(self).wf(),
        ensures
            final(self).wf(),
            final(self)@ == if old(self)@.if_subnet_exist(netuid) {
                old(self)@.with_subnet(
                    netuid,
                    (SubnetState { max_registrations_per_block, ..old(self)@.subnets[netuid] }),
                )
            } else {
                old(self)@
            },
    {
        let i = netuid as usize;
        if i < self.subnets.len() {
            match &mut self.subnets[i] {
                Some(s) => {
                    s.max_registrations_per_block = max_registrations_per_block;
                },
                None => {},
            }
        }
        proof {
            let after = if old(self)@.if_subnet_exist(netuid) {
                old(self)@.with_subnet(
                    netuid,
                    SubnetState { max_registrations_per_block, ..old(self)@.subnets[netuid] },
                )
            } else {
                old(self)@
            };
            assert(self@.subnets =~= after.subnets);
            assert(self@.connections =~= after.connections);
            assert(self@.accounts =~= after.accounts);
            assert(self@ == after);
            assert(old(self)@.if_subnet_exist(netuid) ==> old(self)@.subnets[netuid].wf(
                old(self)@.current_block,
            ));
        }
    }

    // Reading

    /// The current block.
    pub fn get_current_block_as_u64(&self) -> (block: u64)
        ensures
            block == self@.current_block,
    {
        self.current_block
    }

    /// The subnetwork `netuid` as it is stored, where it exists.
    fn subnet(&self, netuid: u16) -> (found: Option<&Subnet>)
        ensures
            found is Some == self@.if_subnet_exist(netuid),
            found matches Some(s) ==> s@ == self@.subnets[netuid],
    {
        let i = netuid as usize;
        if i < self.subnets.len() {
            self.subnets[i].as_ref()
        } else {
            None
        }
    }

    /// Whether the subnetwork `netuid` exists.
    pub fn if_subnet_exist(&self, netuid: u16) -> (exists: bool)
        ensures
            exists == self@.if_subnet_exist(netuid),
    {
        self.subnet(netuid).is_some()
    }

    /// The netuids of the subnetworks that exist, in rising order.
    pub fn get_all_subnet_netuids(&self) -> (netuids: Vec<u16>)
        requires
            self.wf(),
        ensures
            forall|netuid: u16| netuids@.contains(netuid) <==> self@.if_subnet_exist(netuid),
            forall|i: int, j: int| 0 <= i < j < netuids.len() ==> netuids[i] < netuids[j],
    {
        let mut netuids: Vec<u16> = Vec::new();
        let n = self.subnets.len();
        let mut i: usize = 0;
        while i < n
            invariant
                n == self.subnets.len(),
                n <= 0x1_0000,
                0 <= i <= n,
                forall|netuid: u16|
                    netuids@.contains(netuid) <==> netuid < i && self@.if_subnet_exist(netuid),
                forall|k: int, j: int| 0 <= k < j < netuids.len() ==> netuids[k] < netuids[j],
                forall|k: int| 0 <= k < netuids.len() ==> netuids[k] < i,
            decreases n - i,
        {
            if self.subnets[i].is_some() {
                let ghost before = netuids@;
                netuids.push(i as u16);
                assert forall|netuid: u16|
                    netuids@.contains(netuid) <==> netuid < i + 1 && self@.if_subnet_exist(
                        netuid,
                    ) by {
                    if netuid == i {
                        assert(netuids@[before.len() as int] == netuid);
                    } else if before.contains(netuid) {
                        let k = choose|k: int| 0 <= k < before.len() && before[k] == netuid;
                        assert(netuids@[k] == netuid);
                    } else if netuids@.contains(netuid) {
                        let k = choose|k: int| 0 <= k < netuids@.len() && netuids@[k] == netuid;
                        assert(before[k] == netuid);
                    }
                }
            }
            i += 1;
        }
        netuids
    }

    /// The number of uids of `netuid`; 0 where the subnetwork does not exist.
    pub fn get_max_allowed_uids(&self, netuid: u16) -> (max: u16)
        ensures
            max == self@.max_allowed_uids(netuid),
    {
        match self.subnet(netuid) {
            Some(s) => s.max_allowed_uids,
            None => 0,
        }
    }

    /// The immunity period of `netuid`; 0 where the subnetwork does not exist.
    pub fn get_immunity_period(&self, netuid: u16) -> (period: u64)
        ensures
            period == self@.immunity_period(netuid),
    {
        match self.subnet(netuid) {
            Some(s) => s.immunity_period,
            None => 0,
        }
    }

    /// The registrations that `netuid` admits in one block; 0 where the
    /// subnetwork does not exist.
    pub fn get_max_registrations_per_block(&self, netuid: u16) -> (max: u16)
        ensures
            max == self@.max_registrations_per_block(netuid),
    {
        match self.subnet(netuid) {
            Some(s) => s.max_registrations_per_block,
            None => 0,
        }
    }

    /// The registrations on `netuid` in the current block; 0 where the
    /// subnetwork does not exist.
    pub fn get_registrations_this_block(&self, netuid: u16) -> (count: u16)
        ensures
            count == self@.registrations_this_block(netuid),
    {
        match self.subnet(netuid) {
            Some(s) => s.registrations_this_block,
            None => 0,
        }
    }

    /// The registrations on `netuid` in the current interval; 0 where the
    /// subnetwork does not exist.
    pub fn get_registrations_this_interval(&self, netuid: u16) -> (count: u16)
        ensures
            count == self@.registrations_this_interval(netuid),
    {
        match self.subnet(netuid) {
            Some(s) => s.registrations_this_interval,
            None => 0,
        }
    }

    /// The number of uids that are taken on `netuid`; 0 where the subnetwork
    /// does not exist.
    pub fn get_subnetwork_n(&self, netuid: u16) -> (n: u16)
        requires
            self.wf(),
        ensures
            n == self@.neurons(netuid).len(),
    {
        match self.subnet(netuid) {
            Some(s) => {
                assert(self@.subnets[netuid].wf(self@.current_block));
                s.neurons.len() as u16
            },
            None => 0,
        }
    }

    /// The key that holds `uid` on `netuid`, where one does.
    pub fn get_key_for_net_and_uid(&self, netuid: u16, uid: u16) -> (key: Option<u64>)
        ensures
            key == self@.key_of(netuid, uid),
    {
        match self.subnet(netuid) {
            Some(s) => {
                if (uid as usize) < s.neurons.len() {
                    Some(s.neurons[uid as usize].key)
                } else {
                    None
                }
            },
            None => None,
        }
    }

    /// The uid that `key` holds on `netuid`, where it holds one.
    pub fn get_uid_for_net_and_key(&self, netuid: u16, key: u64) -> (found: Option<u16>)
        requires
            self.wf(),
        ensures
            found is Some == is_registered(self@.neurons(netuid), key),
            found matches Some(uid) ==> uid == uid_of(self@.neurons(netuid), key),
    {
        match self.subnet(netuid) {
            Some(s) => {
                assert(self@.subnets[netuid].wf(self@.current_block));
                let n = s.neurons.len();
                let mut i: usize = 0;
                while i < n
                    invariant
                        n == s.neurons.len(),
                        n <= u16::MAX,
                        0 <= i <= n,
                        s.neurons@ == self@.neurons(netuid),
                        distinct_keys(s.neurons@),
                        forall|j: int| 0 <= j < i ==> (#[trigger] s.neurons@[j]).key != key,
                    decreases n - i,
                {
                    if s.neurons[i].key == key {
                        assert(is_registered(s.neurons@, key));
                        return Some(i as u16);
                    }
                    i += 1;
                }
                None
            },
            None => None,
        }
    }

    /// Whether `key` holds a uid on `netuid`.
    pub fn is_key_registered_on_network(&self, netuid: u16, key: u64) -> (registered: bool)
        requires
            self.wf(),
        ensures
            registered == is_registered(self@.neurons(netuid), key),
    {
        self.get_uid_for_net_and_key(netuid, key).is_some()
    }

    /// The pruning score of `uid` on `netuid`; 0 where nothing holds that uid.
    pub fn get_pruning_score_for_uid(&self, netuid: u16, uid: u16) -> (score: u16)
        ensures
            score == self@.pruning_score(netuid, uid),
    {
        match self.subnet(netuid) {
            Some(s) => {
                if (uid as usize) < s.neurons.len() {
                    s.neurons[uid as usize].pruning_score
                } else {
                    0
                }
            },
            None => 0,
        }
    }

    /// The block at which `uid` on `netuid` was taken; 0 where nothing holds
    /// that uid.
    pub fn get_neuron_block_at_registration(&self, netuid: u16, uid: u16) -> (block: u64)
        ensures
            block == self@.block_at_registration(netuid, uid),
    {
        match self.subnet(netuid) {
            Some(s) => {
                if (uid as usize) < s.neurons.len() {
                    s.neurons[uid as usize].block_at_registration
                } else {
                    0
                }
            },
            None => 0,
        }
    }

    /// Where the requirement of `netuid_a` on `netuid_b` is stored, if there is
    /// one.
    fn find_connection(&self, netuid_a: u16, netuid_b: u16) -> (found: Option<usize>)
        requires
            self.inv(),
        ensures
            found is Some == has_connection(self.connections@, netuid_a, netuid_b),
            found matches Some(i) ==> i == connection_index(self.connections@, netuid_a, netuid_b)
                && i < self.connections.len(),
    {
        let n = self.connections.len();
        let mut i: usize = 0;
        while i < n
            invariant
                n == self.connections.len(),
                0 <= i <= n,
                distinct_connections(self.connections@),
                forall|j: int|
                    0 <= j < i ==> !connects(#[trigger] self.connections@[j], netuid_a, netuid_b),
            decreases n - i,
        {
            let c = self.connections[i];
            if c.netuid_a == netuid_a && c.netuid_b == netuid_b {
                assert(connects(self.connections@[i as int], netuid_a, netuid_b));
                return Some(i);
            }
            i += 1;
        }
        None
    }

    /// The requirement that registration on `netuid_a` puts on the key's
    /// standing in `netuid_b`, where there is one.
    pub fn get_network_connection_requirement(
        &self,
        netuid_a: u16,
        netuid_b: u16,
    ) -> (requirement: Option<u16>)
        requires
            self.wf(),
        ensures
            requirement == self@.connection_requirement(netuid_a, netuid_b),
    {
        match self.find_connection(netuid_a, netuid_b) {
            Some(i) => Some(self.connections[i].requirement),
            None => None,
        }
    }

    /// Whether registration on `netuid_a` requires standing in `netuid_b`.
    pub fn network_connection_requirement_exists(
        &self,
        netuid_a: u16,
        netuid_b: u16,
    ) -> (exists: bool)
        requires
            self.wf(),
        ensures
            exists == self@.connection_requirement(netuid_a, netuid_b) is Some,
    {
        self.find_connection(netuid_a, netuid_b).is_some()
    }

    /// Whether the ledger knows the account of `key`.
    pub fn account_exists(&self, key: u64) -> (exists: bool)
        ensures
            exists == self@.accounts.contains(key),
    {
        let n = self.accounts.len();
        let mut i: usize = 0;
        while i < n
            invariant
                n == self.accounts.len(),
                0 <= i <= n,
                forall|j: int| 0 <= j < i ==> self.accounts@[j] != key,
            decreases n - i,
        {
            if self.accounts[i] == key {
                return true;
            }
            i += 1;
        }
        false
    }

    // Writing

    /// Sets the pruning score of `uid` on `netuid`. Where nothing holds that
    /// uid, nothing changes.
    pub fn set_pruning_score_for_uid(&mut self, netuid: u16, uid: u16, score: u16)
        requires
            old(self).wf(),
        ensures
            final(self).wf(),
            final(self)@ == old(self)@.set_pruning_score(netuid, uid, score),
    {
        let i = netuid as usize;
        let u = uid as usize;
        if i < self.subnets.len() {
            match &mut self.subnets[i] {
                Some(s) => {
                    if u < s.neurons.len() {
                        let neuron = s.neurons[u];
                        s.neurons[u] = Neuron { pruning_score: score, ..neuron };
                    }
                },
                None => {},
            }
        }
        proof {
            let after = old(self)@.set_pruning_score(netuid, uid, score);
            assert(self@.subnets =~= after.subnets);
            assert(self@.connections =~= after.connections);
            assert(self@.accounts =~= after.accounts);
            assert(self@ == after);
            assert(old(self)@.if_subnet_exist(netuid) ==> old(self)@.subnets[netuid].wf(
                old(self)@.current_block,
            ));
        }
    }

    /// Sets the count of registrations on `netuid` in the current block, as at
    /// the start of a block. Nothing changes where the subnetwork does not exist.
    pub fn set_registrations_this_block(&mut self, netuid: u16, registrations_this_block: u16)
        requires
            old(self).wf(),
        ensures
            final(self).wf(),
            final(self)@ == if old(self)@.if_subnet_exist(netuid) {
                old(self)@.with_subnet(
                    netuid,
                    (SubnetState { registrations_this_block, ..old(self)@.subnets[netuid] }),
                )
            } else {
                old(self)@
            },
    {
        let i = netuid as usize;
        if i < self.subnets.len() {
            match &mut self.subnets[i] {
                Some(s) => {
                    s.registrations_this_block = registrations_this_block;
                },
                None => {},
            }
        }
        proof {
            let after = if old(self)@.if_subnet_exist(netuid) {
                old(self)@.with_subnet(
                    netuid,
                    SubnetState { registrations_this_block, ..old(self)@.subnets[netuid] },
                )
            } else {
                old(self)@
            };
            assert(self@.subnets =~= after.subnets);
            assert(self@.connections =~= after.connections);
            assert(self@.accounts =~= after.accounts);
            assert(self@ == after);
            assert(old(self)@.if_subnet_exist(netuid) ==> old(self)@.subnets[netuid].wf(
                old(self)@.current_block,
            ));
        }
    }

    /// Sets the count of registrations on `netuid` in the current interval, as
    /// at the start of an interval. Nothing changes where the subnetwork does
    /// not exist.
    pub fn set_registrations_this_interval(&mut self, netuid: u16, registrations_this_interval: u16)
        requires
            old(self).wf(),
        ensures
            final(self).wf(),
            final(self)@ == if old(self)@.if_subnet_exist(netuid) {
                old(self)@.with_subnet(
                    netuid,
                    (SubnetState { registrations_this_interval, ..old(self)@.subnets[netuid] }),
                )
            } else {
                old(self)@
            },
    {
        let i = netuid as usize;
        if i < self.subnets.len() {
            match &mut self.subnets[i] {
                Some(s) => {
                    s.registrations_this_interval = registrations_this_interval;
                },
                None => {},
            }
        }
        proof {
            let after = if old(self)@.if_subnet_exist(netuid) {
                old(self)@.with_subnet(
                    netuid,
                    SubnetState { registrations_this_interval, ..old(self)@.subnets[netuid] },
                )
            } else {
                old(self)@
            };
            assert(self@.subnets =~= after.subnets);
            assert(self@.connections =~= after.connections);
            assert(self@.accounts =~= after.accounts);
            assert(self@ == after);
            assert(old(self)@.if_subnet_exist(netuid) ==> old(self)@.subnets[netuid].wf(
                old(self)@.current_block,
            ));
        }
    }

    /// Puts the account of `key` in the ledger, where it is not there yet.
    pub fn create_account_if_non_existent(&mut self, key: u64)
        requires
            old(self).wf(),
        ensures
            final(self).wf(),
            final(self)@ == old(self)@.create_account(key),
    {
        if !self.account_exists(key) {
            self.accounts.push(key);
            assert(self.accounts@.last() == key);
        }
        proof {
            let after = old(self)@.create_account(key);
            assert forall|k: u64| self@.accounts.contains(k) == after.accounts.contains(k) by {
                if old(self).accounts@.contains(k) {
                    let j = choose|j: int|
                        0 <= j < old(self).accounts@.len() && old(self).accounts@[j] == k;
                    assert(self.accounts@[j] == k);
                }
                if self.accounts@.contains(k) && k != key {
                    let j = choose|j: int| 0 <= j < self.accounts@.len() && self.accounts@[j] == k;
                    assert(old(self).accounts@[j] == k);
                }
            }
            assert(self@.accounts =~= after.accounts);
            assert(self@.subnets =~= after.subnets);
            assert(self@.connections =~= after.connections);
            assert(self@ == after);
        }
    }

    /// Puts `key` on the next free uid of `netuid`, registered at the current
    /// block with pruning score 0.
    pub(crate) fn append_neuron(&mut self, netuid: u16, key: u64)
        requires
            old(self).wf(),
            old(self)@.if_subnet_exist(netuid),
            old(self)@.neurons(netuid).len() < old(self)@.max_allowed_uids(netuid),
            !is_registered(old(self)@.neurons(netuid), key),
        ensures
            final(self).wf(),
            final(self)@ == old(self)@.append_neuron(netuid, key),
    {
        let block = self.current_block;
        let neuron = Neuron { key, pruning_score: 0, block_at_registration: block };
        assert(old(self)@.subnets[netuid].wf(old(self)@.current_block));
        match &mut self.subnets[netuid as usize] {
            Some(s) => {
                s.neurons.push(neuron);
            },
            None => {},
        }
        proof {
            let after = old(self)@.append_neuron(netuid, key);
            assert(self@.subnets =~= after.subnets);
            assert(self@.connections =~= after.connections);
            assert(self@.accounts =~= after.accounts);
            assert(self@ == after);
            let before = old(self)@.neurons(netuid);
            assert forall|i: int, j: int| 0 <= i < j < before.len() + 1 implies (
            #[trigger] before.push(neuron)[i]).key != (#[trigger] before.push(neuron)[j]).key by {
                if j == before.len() {
                    assert(before[i].key != key);
                } else {
                    assert(before[i].key != before[j].key);
                }
            }
        }
    }

    /// Puts `key` on `uid` of `netuid` in place of the key that held it,
    /// registered at `block`. The uid keeps its pruning score.
    pub(crate) fn replace_neuron(&mut self, netuid: u16, uid: u16, key: u64, block: u64)
        requires
            old(self).wf(),
            uid < old(self)@.neurons(netuid).len(),
            !is_registered(old(self)@.neurons(netuid), key),
            block <= old(self)@.current_block,
        ensures
            final(self).wf(),
            final(self)@ == old(self)@.replace_neuron(netuid, uid, key, block),
    {
        assert(old(self)@.subnets[netuid].wf(old(self)@.current_block));
        match &mut self.subnets[netuid as usize] {
            Some(s) => {
                let pruning_score = s.neurons[uid as usize].pruning_score;
                s.neurons[uid as usize] = Neuron { key, pruning_score, block_at_registration: block };
            },
            None => {},
        }
        proof {
            let after = old(self)@.replace_neuron(netuid, uid, key, block);
            assert(self@.subnets =~= after.subnets);
            assert(self@.connections =~= after.connections);
            assert(self@.accounts =~= after.accounts);
            assert(self@ == after);
            let before = old(self)@.neurons(netuid);
            let now = after.neurons(netuid);
            assert forall|i: int, j: int| 0 <= i < j < now.len() implies (#[trigger] now[i]).key != (
            #[trigger] now[j]).key by {
                assert(before[i].key != key);
                assert(before[j].key != key);
                assert(before[i].key != before[j].key);
            }
        }
    }

    /// Counts one more registration on `netuid`, for the block and for the
    /// interval.
    pub(crate) fn record_registration(&mut self, netuid: u16)
        requires
            old(self).wf(),
            old(self)@.if_subnet_exist(netuid),
            old(self)@.registrations_this_block(netuid) < u16::MAX,
            old(self)@.registrations_this_interval(netuid) < u16::MAX,
        ensures
            final(self).wf(),
            final(self)@ == old(self)@.record_registration(netuid),
    {
        assert(old(self)@.subnets[netuid].wf(old(self)@.current_block));
        match &mut self.subnets[netuid as usize] {
            Some(s) => {
                s.registrations_this_interval += 1;
                s.registrations_this_block += 1;
            },
            None => {},
        }
        proof {
            let after = old(self)@.record_registration(netuid);
            assert(self@.subnets =~= after.subnets);
            assert(self@.connections =~= after.connections);
            assert(self@.accounts =~= after.accounts);
            assert(self@ == after);
        }
    }
}

} // verus!
