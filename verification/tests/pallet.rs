use pallet_subspace::pallet::Pallet;
use pallet_subspace::registration::RawOrigin;

#[test]
fn new_pallet_is_empty() {
    let pallet = Pallet::new();
    assert_eq!(pallet.get_current_block_as_u64(), 0);
    assert!(!pallet.if_subnet_exist(0));
    assert!(pallet.get_all_subnet_netuids().is_empty());
    assert!(!pallet.account_exists(0));
    assert_eq!(pallet.get_network_connection_requirement(0, 0), None);
}

#[test]
fn added_subnet_has_its_configuration() {
    let mut pallet = Pallet::new();
    assert!(pallet.add_network(7, 3, 11, 5));
    assert!(pallet.if_subnet_exist(7));
    assert!(!pallet.if_subnet_exist(6));
    assert!(!pallet.if_subnet_exist(8));
    assert_eq!(pallet.get_max_allowed_uids(7), 3);
    assert_eq!(pallet.get_immunity_period(7), 11);
    assert_eq!(pallet.get_max_registrations_per_block(7), 5);
    assert_eq!(pallet.get_registrations_this_block(7), 0);
    assert_eq!(pallet.get_registrations_this_interval(7), 0);
    assert_eq!(pallet.get_subnetwork_n(7), 0);

    let before = pallet.clone();
    assert!(!pallet.add_network(7, 9, 9, 9));
    assert_eq!(pallet, before);
}

#[test]
fn netuids_come_in_rising_order() {
    let mut pallet = Pallet::new();
    for netuid in [9u16, 0, 4, u16::MAX] {
        assert!(pallet.add_network(netuid, 1, 0, 1));
    }
    assert_eq!(pallet.get_all_subnet_netuids(), vec![0, 4, 9, u16::MAX]);
}

#[test]
fn missing_subnet_reads_as_zero() {
    let pallet = Pallet::new();
    assert_eq!(pallet.get_subnetwork_n(3), 0);
    assert_eq!(pallet.get_max_allowed_uids(3), 0);
    assert_eq!(pallet.get_immunity_period(3), 0);
    assert_eq!(pallet.get_max_registrations_per_block(3), 0);
    assert_eq!(pallet.get_registrations_this_block(3), 0);
    assert_eq!(pallet.get_registrations_this_interval(3), 0);
    assert_eq!(pallet.get_pruning_score_for_uid(3, 0), 0);
    assert_eq!(pallet.get_neuron_block_at_registration(3, 0), 0);
    assert_eq!(pallet.get_key_for_net_and_uid(3, 0), None);
    assert_eq!(pallet.get_uid_for_net_and_key(3, 0), None);
    assert!(!pallet.is_key_registered_on_network(3, 0));
}

#[test]
fn setters_leave_a_missing_subnet_alone() {
    let mut pallet = Pallet::new();
    assert!(pallet.add_network(1, 2, 0, 1));
    let before = pallet.clone();
    pallet.set_registrations_this_block(2, 1);
    pallet.set_registrations_this_interval(2, 1);
    pallet.set_max_registrations_per_block(2, 1);
    pallet.set_immunity_period(2, 1);
    assert!(!pallet.set_max_allowed_uids(2, 1));
    pallet.set_pruning_score_for_uid(2, 0, 1);
    pallet.set_pruning_score_for_uid(1, 0, 1);
    assert_eq!(pallet, before);
}

#[test]
fn setters_change_their_field() {
    let mut pallet = Pallet::new();
    assert!(pallet.add_network(1, 2, 0, 1));
    pallet.set_registrations_this_block(1, 3);
    pallet.set_registrations_this_interval(1, 4);
    pallet.set_max_registrations_per_block(1, 5);
    pallet.set_immunity_period(1, 6);
    assert!(pallet.set_max_allowed_uids(1, 7));
    assert_eq!(pallet.get_registrations_this_block(1), 3);
    assert_eq!(pallet.get_registrations_this_interval(1), 4);
    assert_eq!(pallet.get_max_registrations_per_block(1), 5);
    assert_eq!(pallet.get_immunity_period(1), 6);
    assert_eq!(pallet.get_max_allowed_uids(1), 7);
}

#[test]
fn capacity_does_not_drop_below_the_neurons() {
    let mut pallet = Pallet::new();
    assert!(pallet.add_network(1, 4, 0, 10));
    for key in 1..=3 {
        pallet.do_registration(RawOrigin::Signed(key), 1).unwrap();
    }
    assert!(!pallet.set_max_allowed_uids(1, 2));
    assert_eq!(pallet.get_max_allowed_uids(1), 4);
    assert!(pallet.set_max_allowed_uids(1, 3));
    assert_eq!(pallet.get_max_allowed_uids(1), 3);
}

#[test]
fn blocks_do_not_go_back() {
    let mut pallet = Pallet::new();
    assert!(pallet.set_current_block(5));
    assert!(pallet.set_current_block(5));
    assert!(!pallet.set_current_block(4));
    assert_eq!(pallet.get_current_block_as_u64(), 5);
    assert!(pallet.set_current_block(u64::MAX));
    assert_eq!(pallet.get_current_block_as_u64(), u64::MAX);
}

#[test]
fn connection_requirement_is_replaced() {
    let mut pallet = Pallet::new();
    assert!(!pallet.network_connection_requirement_exists(1, 2));
    pallet.add_connection_requirement(1, 2, 10);
    pallet.add_connection_requirement(2, 1, 20);
    pallet.add_connection_requirement(1, 3, 30);
    assert!(pallet.network_connection_requirement_exists(1, 2));
    assert!(!pallet.network_connection_requirement_exists(3, 1));
    assert_eq!(pallet.get_network_connection_requirement(1, 2), Some(10));
    assert_eq!(pallet.get_network_connection_requirement(2, 1), Some(20));
    assert_eq!(pallet.get_network_connection_requirement(1, 3), Some(30));
    pallet.add_connection_requirement(1, 2, 11);
    assert_eq!(pallet.get_network_connection_requirement(1, 2), Some(11));
    assert_eq!(pallet.get_network_connection_requirement(2, 1), Some(20));
    assert_eq!(pallet.get_network_connection_requirement(1, 3), Some(30));
}

#[test]
fn account_is_created_once() {
    let mut pallet = Pallet::new();
    assert!(!pallet.account_exists(4));
    pallet.create_account_if_non_existent(4);
    assert!(pallet.account_exists(4));
    let before = pallet.clone();
    pallet.create_account_if_non_existent(4);
    assert_eq!(pallet, before);
    assert!(!pallet.account_exists(5));
}

#[test]
fn external_scores_are_stored() {
    let mut pallet = Pallet::new();
    assert!(pallet.add_network(1, 2, 0, 10));
    pallet.do_registration(RawOrigin::Signed(8), 1).unwrap();
    pallet.do_registration(RawOrigin::Signed(9), 1).unwrap();
    pallet.set_pruning_score_for_uid(1, 1, 1234);
    assert_eq!(pallet.get_pruning_score_for_uid(1, 0), 0);
    assert_eq!(pallet.get_pruning_score_for_uid(1, 1), 1234);
    assert_eq!(pallet.get_key_for_net_and_uid(1, 1), Some(9));
    assert!(pallet.is_key_registered_on_network(1, 8));
    assert!(!pallet.is_key_registered_on_network(1, 10));
}
