//! Registration of a key on a subnetwork.
//!
//! A registration either commits as a whole or fails without a trace: every
//! check comes before the first write.
use vstd::prelude::*;
use crate::pallet::Pallet;
use crate::state::{is_registered, PalletState};

verus! {

/// Who sent a call.
#[derive(Clone, Copy, Debug, PartialEq, Eq, Structural)]
pub enum RawOrigin {
    /// The system itself.
    Root,
    /// The holder of a key, whose signature was verified.
    Signed(u64),
    /// Nobody: the call carries no signature.
    Unsigned,
}

/// Why a registration did not commit.
#[derive(Clone, Copy, Debug, PartialEq, Eq, Structural)]
pub enum Error {
    /// The subnetwork does not exist, or it has no uids at all.
    NetworkDoesNotExist,
    /// The subnetwork admits no more registrations in this block.
    TooManyRegistrationsThisBlock,
    /// The key holds a uid of the subnetwork already.
    AlreadyRegistered,
    /// The key fails a requirement on its standing in a connected subnetwork.
    DidNotPassConnectedNetworkRequirement,
    /// The call was not signed.
    AuthFailure,
}

/// What a committed registration reports.
#[derive(Clone, Copy, Debug, PartialEq, Eq, Structural)]
pub struct NeuronRegistered {
    pub netuid: u16,
    pub uid: u16,
    pub key: u64,
}

/// The key that signed, where one did.
pub open spec fn signer(origin: RawOrigin) -> Option<u64> {
    match origin {
        RawOrigin::Signed(key) => Some(key),
        _ => None,
    }
}

/// The key that signed the call; `AuthFailure` where none did.
pub fn ensure_signed(origin: RawOrigin) -> (signed: Result<u64, Error>)
    ensures
        match signed {
            Ok(key) => signer(origin) == Some(key),
            Err(e) => signer(origin) is None && e == Error::AuthFailure,
        },
{
    match origin {
        RawOrigin::Signed(key) => Ok(key),
        _ => Err(Error::AuthFailure),
    }
}

impl PalletState {
    /// Why `key` cannot register on `netuid`, if it cannot. The checks come in
    /// this order, and the first that fails decides.
    pub open spec fn registration_error(self, netuid: u16, key: u64) -> Option<Error> {
        if !self.if_subnet_exist(netuid) {
            Some(Error::NetworkDoesNotExist)
        } else if self.registrations_this_block(netuid) >= self.max_registrations_per_block(netuid) {
            Some(Error::TooManyRegistrationsThisBlock)
        } else if is_registered(self.neurons(netuid), key) {
            Some(Error::AlreadyRegistered)
        } else if !self.passes_network_connection_requirement(netuid, key) {
            Some(Error::DidNotPassConnectedNetworkRequirement)
        } else if self.max_allowed_uids(netuid) == 0 {
            Some(Error::NetworkDoesNotExist)
        } else {
            None
        }
    }

    /// Why the call of `origin` does not register on `netuid`, if it does not.
    pub open spec fn dispatch_error(self, origin: RawOrigin, netuid: u16) -> Option<Error> {
        match signer(origin) {
            Some(key) => self.registration_error(netuid, key),
            None => Some(Error::AuthFailure),
        }
    }

    /// The subnetwork has a uid that no neuron holds.
    pub open spec fn has_free_uid(self, netuid: u16) -> bool {
        self.neurons(netuid).len() < self.max_allowed_uids(netuid)
    }

    /// The uid that the next registration on `netuid` gets: the next free one,
    /// or on a full subnetwork the one to prune.
    pub open spec fn registration_uid(self, netuid: u16) -> int {
        if self.has_free_uid(netuid) {
            self.neurons(netuid).len() as int
        } else {
            self.prune_target(netuid)
        }
    }

    /// This state after `key` took its uid on `netuid`: the next free one, or
    /// on a full subnetwork that of the pruned neuron, whose pruning score is
    /// then the maximum.
    pub open spec fn place_neuron(self, netuid: u16, key: u64) -> PalletState {
        if self.has_free_uid(netuid) {
            self.append_neuron(netuid, key)
        } else {
            let uid = self.prune_target(netuid) as u16;
            self.mark_pruned(netuid, uid).replace_neuron(netuid, uid, key, self.current_block)
        }
    }

    /// This state after the registration of `key` on `netuid` has committed:
    /// the key's account exists, the key holds its uid, and the registration
    /// is counted.
    pub open spec fn register(self, netuid: u16, key: u64) -> PalletState {
        self.create_account(key).place_neuron(netuid, key).record_registration(netuid)
    }
}

impl Pallet {
    /// Registers the key that signed `origin` on `netuid`.
    ///
    /// The call fails, and changes nothing, where it is not signed, the
    /// subnetwork does not exist or has no uids, the subnetwork admits no more
    /// registrations in this block, the key is registered on it already, or the
    /// key fails a connection requirement. Else the key gets the next free uid,
    /// or that of the pruned neuron where the subnetwork is full; its account
    /// is created where it did not exist; and the registration is counted once
    /// for the block and once for the interval. The result names the
    /// subnetwork, the uid and the key.
    ///
    /// The interval counter must have room for one more registration.
    pub fn do_registration(
        &mut self,
        origin: RawOrigin,
        netuid: u16,
    ) -> (result: Result<NeuronRegistered, Error>)
        requires
            old(self).wf(),
            old(self)@.registrations_this_interval(netuid) < u16::MAX,
        ensures
            final(self).wf(),
            match result {
                Ok(registered) => {
                    &&& signer(origin) == Some(registered.key)
                    &&& old(self)@.dispatch_error(origin, netuid) is None
                    &&& registered.netuid == netuid
                    &&& registered.uid == old(self)@.registration_uid(netuid)
                    &&& final(self)@ == old(self)@.register(netuid, registered.key)
                },
                Err(e) => {
                    &&& old(self)@.dispatch_error(origin, netuid) == Some(e)
                    &&& final(self)@ == old(self)@
                },
            },
            result is Ok ==> {
                &&& final(self)@.registrations_this_block(netuid) == old(
                    self,
                )@.registrations_this_block(netuid) + 1
                &&& final(self)@.registrations_this_interval(netuid) == old(
                    self,
                )@.registrations_this_interval(netuid) + 1
            },
            result is Ok && old(self)@.has_free_uid(netuid) ==> {
                &&& result->Ok_0.uid == old(self)@.neurons(netuid).len()
                &&& final(self)@.neurons(netuid).len() == old(self)@.neurons(netuid).len() + 1
            },
            result is Ok && !old(self)@.has_free_uid(netuid) ==> {
                &&& result->Ok_0.uid < old(self)@.neurons(netuid).len()
                &&& final(self)@.neurons(netuid).len() == old(self)@.neurons(netuid).len()
            },
            result is Ok ==> {
                &&& final(self)@.key_of(netuid, result->Ok_0.uid) == Some(result->Ok_0.key)
                &&& final(self)@.accounts.contains(result->Ok_0.key)
            },
    {
        let key = match ensure_signed(origin) {
            Ok(key) => key,
            Err(e) => {
                return Err(e);
            },
        };
        if !self.if_subnet_exist(netuid) {
            return Err(Error::NetworkDoesNotExist);
        }
        if self.get_registrations_this_block(netuid) >= self.get_max_registrations_per_block(netuid) {
            return Err(Error::TooManyRegistrationsThisBlock);
        }
        if self.is_key_registered_on_network(netuid, key) {
            return Err(Error::AlreadyRegistered);
        }
        if !self.passes_network_connection_requirement(netuid, key) {
            return Err(Error::DidNotPassConnectedNetworkRequirement);
        }
        if self.get_max_allowed_uids(netuid) == 0 {
            return Err(Error::NetworkDoesNotExist);
        }
        self.create_account_if_non_existent(key);

        let current_block_number = self.get_current_block_as_u64();
        let current_subnetwork_n = self.get_subnetwork_n(netuid);
        let subnetwork_uid: u16;
        if current_subnetwork_n < self.get_max_allowed_uids(netuid) {
            subnetwork_uid = current_subnetwork_n;
            self.append_neuron(netuid, key);
        } else {
            subnetwork_uid = self.get_neuron_to_prune(netuid);
            self.replace_neuron(netuid, subnetwork_uid, key, current_block_number);
        }
        self.record_registration(netuid);
        Ok(NeuronRegistered { netuid, uid: subnetwork_uid, key })
    }
}

} // verus!
