use pallet_subspace::pallet::Pallet;
use pallet_subspace::registration::{ensure_signed, Error, NeuronRegistered, RawOrigin};

const A: u64 = 0xA;
const B: u64 = 0xB;
const C: u64 = 0xC;

fn pallet_with_subnet(netuid: u16, max_allowed_uids: u16, immunity_period: u64) -> Pallet {
    let mut pallet = Pallet::new();
    assert!(pallet.add_network(netuid, max_allowed_uids, immunity_period, 100));
    pallet
}

#[test]
fn fills_then_prunes_the_higher_uid_of_a_tie() {
    let mut pallet = pallet_with_subnet(1, 2, 0);

    let first = pallet.do_registration(RawOrigin::Signed(A), 1);
    assert_eq!(first, Ok(NeuronRegistered { netuid: 1, uid: 0, key: A }));
    assert_eq!(pallet.get_subnetwork_n(1), 1);

    let second = pallet.do_registration(RawOrigin::Signed(B), 1);
    assert_eq!(second, Ok(NeuronRegistered { netuid: 1, uid: 1, key: B }));
    assert_eq!(pallet.get_subnetwork_n(1), 2);

    pallet.set_pruning_score_for_uid(1, 0, 10);
    pallet.set_pruning_score_for_uid(1, 1, 10);

    let third = pallet.do_registration(RawOrigin::Signed(C), 1);
    assert_eq!(third, Ok(NeuronRegistered { netuid: 1, uid: 1, key: C }));
    assert_eq!(pallet.get_subnetwork_n(1), 2);
    assert_eq!(pallet.get_key_for_net_and_uid(1, 0), Some(A));
    assert_eq!(pallet.get_key_for_net_and_uid(1, 1), Some(C));
    assert_eq!(pallet.get_uid_for_net_and_key(1, B), None);
    assert_eq!(pallet.get_uid_for_net_and_key(1, C), Some(1));
}

#[test]
fn append_takes_the_next_uid_at_the_current_block() {
    let mut pallet = pallet_with_subnet(3, 4, 10);
    assert!(pallet.set_current_block(7));
    for (uid, key) in [11u64, 12, 13].into_iter().enumerate() {
        let before = pallet.get_subnetwork_n(3);
        assert_eq!(before as usize, uid);
        let registered = pallet.do_registration(RawOrigin::Signed(key), 3).unwrap();
        assert_eq!(registered.uid, before);
        assert_eq!(pallet.get_subnetwork_n(3), before + 1);
        assert_eq!(pallet.get_key_for_net_and_uid(3, before), Some(key));
        assert_eq!(pallet.get_pruning_score_for_uid(3, before), 0);
        assert_eq!(pallet.get_neuron_block_at_registration(3, before), 7);
        assert!(pallet.account_exists(key));
    }
}

#[test]
fn replacement_keeps_the_marker_and_records_the_block() {
    let mut pallet = pallet_with_subnet(0, 2, 0);
    pallet.do_registration(RawOrigin::Signed(A), 0).unwrap();
    pallet.do_registration(RawOrigin::Signed(B), 0).unwrap();
    pallet.set_pruning_score_for_uid(0, 0, 3);
    pallet.set_pruning_score_for_uid(0, 1, 9);
    assert!(pallet.set_current_block(42));

    let registered = pallet.do_registration(RawOrigin::Signed(C), 0).unwrap();
    assert_eq!(registered.uid, 0);
    assert_eq!(pallet.get_pruning_score_for_uid(0, 0), u16::MAX);
    assert_eq!(pallet.get_neuron_block_at_registration(0, 0), 42);
    assert_eq!(pallet.get_pruning_score_for_uid(0, 1), 9);
    assert_eq!(pallet.get_neuron_block_at_registration(0, 1), 0);
}

#[test]
fn success_counts_once_for_block_and_interval() {
    let mut pallet = pallet_with_subnet(1, 1, 0);
    assert_eq!(pallet.get_registrations_this_block(1), 0);
    assert_eq!(pallet.get_registrations_this_interval(1), 0);
    pallet.do_registration(RawOrigin::Signed(A), 1).unwrap();
    assert_eq!(pallet.get_registrations_this_block(1), 1);
    assert_eq!(pallet.get_registrations_this_interval(1), 1);
    pallet.do_registration(RawOrigin::Signed(B), 1).unwrap();
    assert_eq!(pallet.get_registrations_this_block(1), 2);
    assert_eq!(pallet.get_registrations_this_interval(1), 2);
}

#[test]
fn unsigned_calls_fail() {
    let mut pallet = pallet_with_subnet(1, 2, 0);
    let before = pallet.clone();
    assert_eq!(pallet.do_registration(RawOrigin::Root, 1), Err(Error::AuthFailure));
    assert_eq!(pallet.do_registration(RawOrigin::Unsigned, 1), Err(Error::AuthFailure));
    assert_eq!(pallet, before);
    assert_eq!(ensure_signed(RawOrigin::Signed(5)), Ok(5));
    assert_eq!(ensure_signed(RawOrigin::Root), Err(Error::AuthFailure));
}

#[test]
fn missing_subnet_fails() {
    let mut pallet = pallet_with_subnet(1, 2, 0);
    let before = pallet.clone();
    assert_eq!(pallet.do_registration(RawOrigin::Signed(A), 2), Err(Error::NetworkDoesNotExist));
    assert_eq!(pallet.do_registration(RawOrigin::Signed(A), 0), Err(Error::NetworkDoesNotExist));
    assert_eq!(pallet, before);
}

#[test]
fn subnet_without_uids_fails_and_creates_no_account() {
    let mut pallet = pallet_with_subnet(1, 0, 0);
    let before = pallet.clone();
    assert_eq!(pallet.do_registration(RawOrigin::Signed(A), 1), Err(Error::NetworkDoesNotExist));
    assert_eq!(pallet, before);
    assert!(!pallet.account_exists(A));
}

#[test]
fn throttle_fails_the_registration_over_the_limit() {
    let mut pallet = Pallet::new();
    assert!(pallet.add_network(1, 8, 0, 2));
    pallet.do_registration(RawOrigin::Signed(A), 1).unwrap();
    pallet.do_registration(RawOrigin::Signed(B), 1).unwrap();
    let before = pallet.clone();
    assert_eq!(
        pallet.do_registration(RawOrigin::Signed(C), 1),
        Err(Error::TooManyRegistrationsThisBlock)
    );
    assert_eq!(pallet, before);

    pallet.set_registrations_this_block(1, 0);
    assert_eq!(
        pallet.do_registration(RawOrigin::Signed(C), 1),
        Ok(NeuronRegistered { netuid: 1, uid: 2, key: C })
    );
    assert_eq!(pallet.get_registrations_this_block(1), 1);
    assert_eq!(pallet.get_registrations_this_interval(1), 3);
}

#[test]
fn throttle_of_zero_admits_nobody() {
    let mut pallet = Pallet::new();
    assert!(pallet.add_network(1, 8, 0, 0));
    assert_eq!(
        pallet.do_registration(RawOrigin::Signed(A), 1),
        Err(Error::TooManyRegistrationsThisBlock)
    );
}

#[test]
fn registered_key_fails() {
    let mut pallet = pallet_with_subnet(1, 2, 0);
    pallet.do_registration(RawOrigin::Signed(A), 1).unwrap();
    let before = pallet.clone();
    assert_eq!(pallet.do_registration(RawOrigin::Signed(A), 1), Err(Error::AlreadyRegistered));
    assert_eq!(pallet, before);
}

#[test]
fn key_may_hold_uids_on_two_subnets() {
    let mut pallet = pallet_with_subnet(1, 2, 0);
    assert!(pallet.add_network(2, 2, 0, 100));
    assert_eq!(pallet.do_registration(RawOrigin::Signed(A), 1).unwrap().uid, 0);
    assert_eq!(pallet.do_registration(RawOrigin::Signed(B), 2).unwrap().uid, 0);
    assert_eq!(pallet.do_registration(RawOrigin::Signed(A), 2).unwrap().uid, 1);
    assert_eq!(pallet.get_uid_for_net_and_key(1, A), Some(0));
    assert_eq!(pallet.get_uid_for_net_and_key(2, A), Some(1));
}

#[test]
fn failed_requirement_fails_the_registration() {
    let mut pallet = pallet_with_subnet(1, 2, 0);
    assert!(pallet.add_network(2, 2, 0, 100));
    pallet.add_connection_requirement(1, 2, u16::MAX);
    let before = pallet.clone();
    assert_eq!(
        pallet.do_registration(RawOrigin::Signed(A), 1),
        Err(Error::DidNotPassConnectedNetworkRequirement)
    );
    assert_eq!(pallet, before);

    pallet.do_registration(RawOrigin::Signed(A), 2).unwrap();
    assert_eq!(
        pallet.do_registration(RawOrigin::Signed(A), 1),
        Ok(NeuronRegistered { netuid: 1, uid: 0, key: A })
    );
}

#[test]
fn checks_come_in_order() {
    let mut pallet = Pallet::new();
    assert!(pallet.add_network(1, 0, 0, 0));
    assert!(pallet.add_network(2, 1, 0, 100));
    pallet.add_connection_requirement(1, 2, 0);
    // The throttle is checked before the requirement and the capacity.
    assert_eq!(
        pallet.do_registration(RawOrigin::Signed(A), 1),
        Err(Error::TooManyRegistrationsThisBlock)
    );
    pallet.set_max_registrations_per_block(1, 1);
    // The requirement is checked before the capacity.
    assert_eq!(
        pallet.do_registration(RawOrigin::Signed(A), 1),
        Err(Error::DidNotPassConnectedNetworkRequirement)
    );
    pallet.do_registration(RawOrigin::Signed(A), 2).unwrap();
    assert_eq!(pallet.do_registration(RawOrigin::Signed(A), 1), Err(Error::NetworkDoesNotExist));
}

#[test]
fn full_subnet_of_immune_neurons_still_admits() {
    let mut pallet = pallet_with_subnet(1, 3, 1000);
    for key in [A, B, C] {
        pallet.do_registration(RawOrigin::Signed(key), 1).unwrap();
    }
    pallet.set_pruning_score_for_uid(1, 0, 7);
    pallet.set_pruning_score_for_uid(1, 1, 5);
    pallet.set_pruning_score_for_uid(1, 2, 5);
    let registered = pallet.do_registration(RawOrigin::Signed(0xD), 1).unwrap();
    assert_eq!(registered.uid, 1);
    assert_eq!(pallet.get_key_for_net_and_uid(1, 1), Some(0xD));
    assert_eq!(pallet.get_subnetwork_n(1), 3);
}

#[test]
fn subnet_that_requires_itself_admits_nobody() {
    let mut pallet = pallet_with_subnet(1, 2, 0);
    pallet.do_registration(RawOrigin::Signed(A), 1).unwrap();
    pallet.add_connection_requirement(1, 1, u16::MAX);
    let before = pallet.clone();
    assert_eq!(
        pallet.do_registration(RawOrigin::Signed(B), 1),
        Err(Error::DidNotPassConnectedNetworkRequirement)
    );
    assert_eq!(pallet.do_registration(RawOrigin::Signed(A), 1), Err(Error::AlreadyRegistered));
    assert_eq!(pallet, before);
}

#[test]
fn failure_counts_nothing() {
    let mut pallet = pallet_with_subnet(1, 1, 0);
    pallet.do_registration(RawOrigin::Signed(A), 1).unwrap();
    assert_eq!(pallet.do_registration(RawOrigin::Signed(A), 1), Err(Error::AlreadyRegistered));
    assert_eq!(pallet.do_registration(RawOrigin::Unsigned, 1), Err(Error::AuthFailure));
    assert_eq!(pallet.get_registrations_this_block(1), 1);
    assert_eq!(pallet.get_registrations_this_interval(1), 1);
    assert_eq!(pallet.get_subnetwork_n(1), 1);
}
