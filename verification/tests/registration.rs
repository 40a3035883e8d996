use subtensor_registration::pallet::Pallet;
use subtensor_registration::primitives::{AccountId, H256, U256};
use subtensor_registration::types::{Config, Error, Event, Hyperparameters, Origin};

const NET: u16 = 1;

fn key(byte: u8) -> AccountId {
    [byte; 32]
}

fn parameters() -> Hyperparameters {
    Hyperparameters {
        max_allowed_uids: 2,
        immunity_period: 10,
        max_registrations_per_block: 3,
        target_registrations_per_interval: 2,
        burn: 100,
        difficulty: U256 { limbs: [4, 0, 0, 0] },
    }
}

/// A pallet at block 50 with the network 1.
fn pallet() -> Pallet {
    let mut p = Pallet::new(
        Config {
            max_balance: 10_000,
            max_block_number: 1_000,
            existential_deposit: 10,
            initial_hyperparameters: parameters(),
        },
        50,
    );
    p.networks_added.insert(NET, true);
    p.total_issuance = 5_000;
    p
}

fn funded(amount: u64) -> Pallet {
    let mut p = pallet();
    p.add_balance_to_coldkey_account(&key(200), amount);
    p
}

fn signed() -> Origin {
    Origin::Signed(key(200))
}

#[test]
fn sudo_registration_appends() {
    let mut p = pallet();
    assert_eq!(p.do_sudo_registration(Origin::Root, NET, key(1), key(100), 30, 40), Ok(()));
    assert_eq!(p.get_subnetwork_n(NET), 1);
    assert_eq!(p.get_uid_for_net_and_hotkey(NET, &key(1)), Some(0));
    assert_eq!(p.keys.get(&(NET, 0)), Some(key(1)));
    assert_eq!(p.get_neuron_block_at_registration(NET, 0), 50);
    assert_eq!(p.get_stake_for_coldkey_and_hotkey(&key(100), &key(1)), 30);
    assert_eq!(p.get_coldkey_balance(&key(100)), 40);
    assert!(p.coldkey_owns_hotkey(&key(100), &key(1)));
    assert_eq!(p.events, vec![Event::NeuronRegistered(NET, 0, key(1))]);
    assert_eq!(p.get_counters(NET).this_block, 0);
    assert_eq!(p.get_counters(NET).this_interval, 0);
}

#[test]
fn sudo_registration_adds_to_a_recorded_stake() {
    let mut p = pallet();
    p.stake.insert((key(100), key(1)), 5);
    assert_eq!(p.do_sudo_registration(Origin::Root, NET, key(1), key(100), 30, 0), Ok(()));
    assert_eq!(p.get_stake_for_coldkey_and_hotkey(&key(100), &key(1)), 35);
    p.stake.insert((key(100), key(2)), u64::MAX - 1);
    assert_eq!(p.do_sudo_registration(Origin::Root, NET, key(2), key(100), 30, 0), Ok(()));
    assert_eq!(p.get_stake_for_coldkey_and_hotkey(&key(100), &key(2)), u64::MAX);
}

#[test]
fn sudo_registration_is_for_root() {
    let mut p = pallet();
    for origin in [Origin::Signed(key(1)), Origin::Unsigned] {
        assert_eq!(
            p.do_sudo_registration(origin, NET, key(1), key(100), 0, 0),
            Err(Error::BadOrigin)
        );
    }
    assert!(!p.hotkey_account_exists(&key(1)));
}

#[test]
fn sudo_registration_checks() {
    let mut p = pallet();
    assert_eq!(
        p.do_sudo_registration(Origin::Root, 9, key(1), key(100), 0, 0),
        Err(Error::NetworkDoesNotExist)
    );
    assert_eq!(p.do_sudo_registration(Origin::Root, NET, key(1), key(100), 0, 0), Ok(()));
    assert_eq!(
        p.do_sudo_registration(Origin::Root, NET, key(1), key(100), 0, 0),
        Err(Error::AlreadyRegistered)
    );
    p.create_account_if_non_existent(&key(101), &key(2));
    assert_eq!(
        p.do_sudo_registration(Origin::Root, NET, key(2), key(100), 0, 0),
        Err(Error::NonAssociatedColdKey)
    );
}

#[test]
fn sudo_registration_refuses_a_balance_that_does_not_fit() {
    let mut p = pallet();
    assert_eq!(
        p.do_sudo_registration(Origin::Root, NET, key(1), key(100), 30, 10_001),
        Err(Error::CouldNotConvertToBalance)
    );
    // The hotkey has its owner and its stake by then, but no slot.
    assert!(p.coldkey_owns_hotkey(&key(100), &key(1)));
    assert_eq!(p.get_stake_for_coldkey_and_hotkey(&key(100), &key(1)), 30);
    assert_eq!(p.get_coldkey_balance(&key(100)), 0);
    assert_eq!(p.get_subnetwork_n(NET), 0);
    assert!(p.events.is_empty());
}

#[test]
fn a_full_network_replaces_the_neuron_to_prune() {
    let mut p = pallet();
    for byte in 1..3 {
        assert_eq!(p.do_sudo_registration(Origin::Root, NET, key(byte), key(100), 0, 0), Ok(()));
    }
    p.block_number = 90;
    p.set_pruning_score_for_uid(NET, 0, 7);
    p.set_pruning_score_for_uid(NET, 1, 8);
    assert_eq!(p.do_sudo_registration(Origin::Root, NET, key(3), key(100), 0, 0), Ok(()));
    assert_eq!(p.get_subnetwork_n(NET), 2);
    assert_eq!(p.get_uid_for_net_and_hotkey(NET, &key(3)), Some(0));
    assert_eq!(p.get_uid_for_net_and_hotkey(NET, &key(1)), None);
    assert_eq!(p.get_uid_for_net_and_hotkey(NET, &key(2)), Some(1));
    assert_eq!(p.keys.get(&(NET, 0)), Some(key(3)));
    assert_eq!(p.get_neuron_block_at_registration(NET, 0), 90);
    assert_eq!(p.get_pruning_score_for_uid(NET, 0), u16::MAX);
    assert_eq!(p.events.last(), Some(&Event::NeuronRegistered(NET, 0, key(3))));
}

#[test]
fn burned_registration_pays_and_registers() {
    let mut p = funded(1_000);
    assert_eq!(p.do_burned_registration(signed(), NET, key(1)), Ok(()));
    assert_eq!(p.get_coldkey_balance(&key(200)), 900);
    assert_eq!(p.total_issuance, 4_900);
    assert_eq!(p.get_rao_recycled(NET), 100);
    assert_eq!(p.get_uid_for_net_and_hotkey(NET, &key(1)), Some(0));
    assert!(p.coldkey_owns_hotkey(&key(200), &key(1)));
    let counters = p.get_counters(NET);
    assert_eq!(counters.this_block, 1);
    assert_eq!(counters.this_interval, 1);
    assert_eq!(counters.burn_this_interval, 1);
    assert_eq!(counters.pow_this_interval, 0);
    assert_eq!(p.events, vec![Event::NeuronRegistered(NET, 0, key(1))]);
}

#[test]
fn burned_registration_saturates_the_issuance() {
    let mut p = funded(1_000);
    p.total_issuance = 30;
    assert_eq!(p.do_burned_registration(signed(), NET, key(1)), Ok(()));
    assert_eq!(p.total_issuance, 0);
}

#[test]
fn burned_registration_wants_a_signer() {
    let mut p = funded(1_000);
    assert_eq!(p.do_burned_registration(Origin::Root, NET, key(1)), Err(Error::BadOrigin));
    assert_eq!(p.do_burned_registration(Origin::Unsigned, NET, key(1)), Err(Error::BadOrigin));
}

#[test]
fn burned_registration_checks_network_and_quotas() {
    let mut p = funded(1_000);
    assert_eq!(p.do_burned_registration(signed(), 9, key(1)), Err(Error::NetworkDoesNotExist));
    let mut counters = p.get_counters(NET);
    counters.this_block = 3;
    p.counters.insert(NET, counters);
    assert_eq!(
        p.do_burned_registration(signed(), NET, key(1)),
        Err(Error::TooManyRegistrationsThisBlock)
    );
    counters.this_block = 0;
    counters.this_interval = 6;
    p.counters.insert(NET, counters);
    assert_eq!(
        p.do_burned_registration(signed(), NET, key(1)),
        Err(Error::TooManyRegistrationsThisInterval)
    );
    counters.this_interval = 5;
    p.counters.insert(NET, counters);
    assert_eq!(p.do_burned_registration(signed(), NET, key(1)), Ok(()));
    assert_eq!(p.get_counters(NET).this_interval, 6);
}

#[test]
fn burned_registration_refuses_a_registered_hotkey() {
    let mut p = funded(1_000);
    assert_eq!(p.do_burned_registration(signed(), NET, key(1)), Ok(()));
    assert_eq!(
        p.do_burned_registration(signed(), NET, key(1)),
        Err(Error::AlreadyRegistered)
    );
    assert_eq!(p.get_coldkey_balance(&key(200)), 900);
}

#[test]
fn burned_registration_checks_connected_networks() {
    let mut p = funded(1_000);
    p.networks_added.insert(2, true);
    p.network_connect.insert((NET, 2), u16::MAX);
    assert_eq!(
        p.do_burned_registration(signed(), NET, key(1)),
        Err(Error::DidNotPassConnectedNetworkRequirement)
    );
    p.append_neuron(2, &key(1));
    assert_eq!(p.do_burned_registration(signed(), NET, key(1)), Ok(()));
    assert_eq!(p.get_subnetwork_n(2), 1);
}

#[test]
fn burned_registration_checks_the_balance() {
    let mut p = funded(99);
    assert_eq!(
        p.do_burned_registration(signed(), NET, key(1)),
        Err(Error::NotEnoughBalanceToStake)
    );
    let mut q = funded(109);
    assert_eq!(
        q.do_burned_registration(signed(), NET, key(1)),
        Err(Error::BalanceWithdrawalError)
    );
    assert_eq!(q.get_coldkey_balance(&key(200)), 109);
    let mut r = funded(110);
    assert_eq!(r.do_burned_registration(signed(), NET, key(1)), Ok(()));
    assert_eq!(r.get_coldkey_balance(&key(200)), 10);
}

#[test]
fn burned_registration_of_anothers_hotkey_still_burns() {
    let mut p = funded(1_000);
    p.create_account_if_non_existent(&key(201), &key(1));
    assert_eq!(
        p.do_burned_registration(signed(), NET, key(1)),
        Err(Error::NonAssociatedColdKey)
    );
    assert_eq!(p.get_coldkey_balance(&key(200)), 900);
    assert_eq!(p.total_issuance, 4_900);
    assert_eq!(p.get_rao_recycled(NET), 0);
    assert_eq!(p.get_subnetwork_n(NET), 0);
    assert_eq!(p.get_counters(NET).this_block, 0);
}

#[test]
fn registration_on_a_network_without_slots() {
    let mut p = funded(1_000);
    let mut no_slots = parameters();
    no_slots.max_allowed_uids = 0;
    p.hyperparameters.insert(NET, no_slots);
    assert_eq!(
        p.do_burned_registration(signed(), NET, key(1)),
        Err(Error::NetworkDoesNotExist)
    );
    assert!(p.coldkey_owns_hotkey(&key(200), &key(1)));
    let (nonce, work) = p.create_work_for_block_number(NET, 50, 0);
    assert_eq!(
        p.do_registration(signed(), NET, 50, nonce, work, key(1), key(200)),
        Err(Error::NetworkDoesNotExist)
    );
    // The system does not ask for slots.
    assert_eq!(p.do_sudo_registration(Origin::Root, NET, key(2), key(100), 0, 0), Ok(()));
    assert_eq!(p.get_uid_for_net_and_hotkey(NET, &key(2)), Some(0));
    assert_eq!(p.get_subnetwork_n(NET), 0);
}

#[test]
fn work_registration_registers() {
    let mut p = pallet();
    p.block_hash.insert(48, H256 { bytes: [0x48; 32] });
    let (nonce, work) = p.create_work_for_block_number(NET, 48, 0);
    assert_eq!(
        p.do_registration(signed(), NET, 48, nonce, work.clone(), key(1), key(100)),
        Ok(())
    );
    assert_eq!(p.get_uid_for_net_and_hotkey(NET, &key(1)), Some(0));
    // The hotkey goes to the coldkey of the call, not to the signer.
    assert!(p.coldkey_owns_hotkey(&key(100), &key(1)));
    assert_eq!(p.used_work.get(&work), Some(50));
    let counters = p.get_counters(NET);
    assert_eq!(counters.this_block, 1);
    assert_eq!(counters.this_interval, 1);
    assert_eq!(counters.burn_this_interval, 0);
    assert_eq!(counters.pow_this_interval, 1);
    assert_eq!(p.total_issuance, 5_000);
    assert_eq!(p.events, vec![Event::NeuronRegistered(NET, 0, key(1))]);
}

#[test]
fn work_registers_once() {
    let mut p = pallet();
    let (nonce, work) = p.create_work_for_block_number(NET, 50, 0);
    assert_eq!(
        p.do_registration(signed(), NET, 50, nonce, work.clone(), key(1), key(100)),
        Ok(())
    );
    assert_eq!(
        p.do_registration(signed(), NET, 50, nonce, work.clone(), key(2), key(100)),
        Err(Error::WorkRepeated)
    );
    let (later, more) = p.create_work_for_block_number(NET, 50, nonce + 1);
    assert_eq!(
        p.do_registration(signed(), NET, 50, later, more.clone(), key(1), key(100)),
        Err(Error::AlreadyRegistered)
    );
    assert_eq!(p.do_registration(signed(), NET, 50, later, more, key(2), key(100)), Ok(()));
    assert_eq!(p.get_subnetwork_n(NET), 2);
}

#[test]
fn work_registration_wants_a_signer() {
    let mut p = pallet();
    assert_eq!(
        p.do_registration(Origin::Root, NET, 50, 0, vec![], key(1), key(100)),
        Err(Error::BadOrigin)
    );
    assert_eq!(
        p.do_registration(Origin::Unsigned, NET, 50, 0, vec![], key(1), key(100)),
        Err(Error::BadOrigin)
    );
}

#[test]
fn work_registration_checks_network_and_quotas() {
    let mut p = pallet();
    assert_eq!(
        p.do_registration(signed(), 9, 50, 0, vec![], key(1), key(100)),
        Err(Error::NetworkDoesNotExist)
    );
    let mut counters = p.get_counters(NET);
    counters.this_block = 3;
    p.counters.insert(NET, counters);
    assert_eq!(
        p.do_registration(signed(), NET, 50, 0, vec![], key(1), key(100)),
        Err(Error::TooManyRegistrationsThisBlock)
    );
    counters.this_block = 2;
    counters.this_interval = 7;
    p.counters.insert(NET, counters);
    assert_eq!(
        p.do_registration(signed(), NET, 50, 0, vec![], key(1), key(100)),
        Err(Error::TooManyRegistrationsThisInterval)
    );
}

#[test]
fn work_has_to_be_recent() {
    let mut p = pallet();
    for block_number in [51, 1_000, 47, 0] {
        assert_eq!(
            p.do_registration(signed(), NET, block_number, 0, vec![0; 32], key(1), key(100)),
            Err(Error::InvalidWorkBlock)
        );
    }
    let (nonce, work) = p.create_work_for_block_number(NET, 48, 0);
    assert_eq!(p.do_registration(signed(), NET, 48, nonce, work, key(1), key(100)), Ok(()));
}

#[test]
fn work_has_to_meet_the_difficulty() {
    let mut p = pallet();
    // 2^254 times 4 overflows.
    let mut work = vec![0; 32];
    work[0] = 0x40;
    assert_eq!(
        p.do_registration(signed(), NET, 50, 0, work, key(1), key(100)),
        Err(Error::InvalidDifficulty)
    );
}

#[test]
fn work_has_to_be_the_seal() {
    let mut p = pallet();
    let mut work = vec![0; 32];
    work[0] = 0x3f;
    assert_eq!(
        p.do_registration(signed(), NET, 50, 0, work.clone(), key(1), key(100)),
        Err(Error::InvalidSeal)
    );
    assert!(p.used_work.get(&work).is_none());
    // With that seal, the same work registers.
    let seal = Pallet::vec_to_hash(work.clone());
    assert_eq!(p.register_with_seal(NET, work.clone(), seal, key(1), key(100)), Ok(()));
    assert_eq!(p.used_work.get(&work), Some(50));
}

#[test]
fn refused_keys_still_use_up_their_work() {
    let mut p = pallet();
    p.networks_added.insert(2, true);
    p.network_connect.insert((NET, 2), u16::MAX);
    let (nonce, work) = p.create_work_for_block_number(NET, 50, 0);
    assert_eq!(
        p.do_registration(signed(), NET, 50, nonce, work.clone(), key(1), key(100)),
        Err(Error::DidNotPassConnectedNetworkRequirement)
    );
    assert_eq!(p.used_work.get(&work), Some(50));
    assert!(!p.hotkey_account_exists(&key(1)));
    p.network_connect.remove(&(NET, 2));
    p.create_account_if_non_existent(&key(101), &key(2));
    let (later, more) = p.create_work_for_block_number(NET, 50, nonce + 1);
    assert_eq!(
        p.do_registration(signed(), NET, 50, later, more.clone(), key(2), key(100)),
        Err(Error::NonAssociatedColdKey)
    );
    assert_eq!(p.used_work.get(&more), Some(50));
    assert_eq!(p.get_subnetwork_n(NET), 0);
    assert!(p.events.is_empty());
}

#[test]
fn slots_and_hotkeys_agree_after_many_registrations() {
    let mut p = funded(5_000);
    let mut roomy = parameters();
    roomy.max_registrations_per_block = 100;
    roomy.target_registrations_per_interval = 100;
    roomy.max_allowed_uids = 3;
    p.hyperparameters.insert(NET, roomy);
    for byte in 1..9 {
        assert_eq!(p.do_burned_registration(signed(), NET, key(byte)), Ok(()));
        p.block_number = p.block_number + 7;
        let n = p.get_subnetwork_n(NET);
        assert!(n <= 3);
        for uid in 0..n {
            let hotkey = p.keys.get(&(NET, uid)).unwrap();
            assert_eq!(p.get_uid_for_net_and_hotkey(NET, &hotkey), Some(uid));
        }
    }
    assert_eq!(p.uids.len(), 3);
    assert_eq!(p.get_counters(NET).burn_this_interval, 8);
    assert_eq!(p.get_rao_recycled(NET), 800);
}

#[test]
fn other_networks_are_untouched() {
    let mut p = funded(1_000);
    p.networks_added.insert(2, true);
    p.append_neuron(2, &key(1));
    p.set_pruning_score_for_uid(2, 0, 9);
    assert_eq!(p.do_burned_registration(signed(), NET, key(1)), Ok(()));
    assert_eq!(p.get_subnetwork_n(2), 1);
    assert_eq!(p.get_uid_for_net_and_hotkey(2, &key(1)), Some(0));
    assert_eq!(p.get_pruning_score_for_uid(2, 0), 9);
    assert_eq!(p.get_counters(2).this_block, 0);
    assert_eq!(p.get_rao_recycled(2), 0);
}
