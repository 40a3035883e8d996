use subtensor_registration::pallet::Pallet;
use subtensor_registration::primitives::{AccountId, U256};
use subtensor_registration::types::{Config, Hyperparameters};

fn key(byte: u8) -> AccountId {
    [byte; 32]
}

/// A pallet whose network 2 has four neurons with the scores 10, 20, 30 and 40.
fn connected(requirement: u16) -> Pallet {
    let initial_hyperparameters = Hyperparameters {
        max_allowed_uids: 8,
        immunity_period: 10,
        max_registrations_per_block: 3,
        target_registrations_per_interval: 2,
        burn: 100,
        difficulty: U256 { limbs: [1, 0, 0, 0] },
    };
    let mut p = Pallet::new(
        Config {
            max_balance: u64::MAX,
            max_block_number: u64::MAX,
            existential_deposit: 1,
            initial_hyperparameters,
        },
        100,
    );
    p.networks_added.insert(1, true);
    p.networks_added.insert(2, true);
    for uid in 0..4u16 {
        p.append_neuron(2, &key(uid as u8 + 1));
        p.set_pruning_score_for_uid(2, uid, 10 * (uid + 1));
    }
    p.network_connect.insert((1, 2), requirement);
    p
}

#[test]
fn an_unconnected_network_asks_nothing() {
    let p = connected(0);
    assert!(p.passes_network_connection_requirement(2, &key(9)));
    assert!(p.passes_network_connection_requirement(3, &key(1)));
}

#[test]
fn a_hotkey_without_a_slot_fails() {
    let p = connected(u16::MAX);
    assert!(!p.passes_network_connection_requirement(1, &key(9)));
    assert!(p.passes_network_connection_requirement(1, &key(1)));
}

#[test]
fn an_empty_connected_network_fails_everyone() {
    let mut p = connected(u16::MAX);
    p.networks_added.insert(3, true);
    p.network_connect.insert((1, 3), u16::MAX);
    assert!(!p.passes_network_connection_requirement(1, &key(4)));
}

#[test]
fn a_network_that_no_longer_exists_asks_nothing() {
    let mut p = connected(0);
    p.networks_added.insert(2, false);
    assert!(p.passes_network_connection_requirement(1, &key(1)));
}

#[test]
fn better_slots_are_counted() {
    let p = connected(0);
    assert_eq!(p.count_better_slots(2, 0), 3);
    assert_eq!(p.count_better_slots(2, 3), 0);
    assert_eq!(p.count_better_slots(1, 0), 0);
}

#[test]
fn the_best_score_meets_every_requirement() {
    let p = connected(0);
    assert!(p.passes_network_connection_requirement(1, &key(4)));
    assert!(!p.passes_network_connection_requirement(1, &key(3)));
}

#[test]
fn the_share_of_better_slots_is_compared() {
    // A quarter of 65535 is 16383.75, so that 16384 lets one better slot of four pass.
    let p = connected(16384);
    assert!(p.passes_network_connection_requirement(1, &key(3)));
    assert!(!p.passes_network_connection_requirement(1, &key(2)));
    let q = connected(16383);
    assert!(!q.passes_network_connection_requirement(1, &key(3)));
    // Half of 65535 is 32767.5.
    let r = connected(32768);
    assert!(r.passes_network_connection_requirement(1, &key(2)));
    assert!(!r.passes_network_connection_requirement(1, &key(1)));
}

#[test]
fn the_top_share_is_asked_of_a_slot() {
    let p = connected(0);
    assert!(p.is_in_top_share(2, 0, 49152));
    assert!(!p.is_in_top_share(2, 0, 49151));
    assert!(p.is_in_top_share(2, 3, 0));
}
