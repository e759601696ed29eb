//! Admission control and slot eviction for a capacity-bounded registry of
//! subnetworks.
//!
//! A [`Pallet`] holds a set of subnetworks, each with a fixed number of uids,
//! each uid held by the neuron of one key. A key that asks for a uid is first
//! checked against the subnetwork's throttle and against what the subnetwork
//! requires of the key's standing in other subnetworks. It then takes the next
//! free uid, or on a full subnetwork the uid of the neuron with the lowest
//! pruning score outside its immunity period.
//!
//! The contracts speak of a [`PalletState`], the registry as maps and
//! sequences; [`Pallet::wf`] is what every constructor establishes and every
//! method keeps.
pub mod connection;
pub mod fixed;
pub mod hash;
pub mod pallet;
pub mod prune;
pub mod registration;
pub mod state;

pub use pallet::Pallet;
pub use registration::{Error, NeuronRegistered, RawOrigin};
pub use state::{Neuron, PalletState, SubnetState};
