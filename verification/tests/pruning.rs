use subtensor_registration::pallet::Pallet;
use subtensor_registration::primitives::U256;
use subtensor_registration::types::{Config, Hyperparameters};

/// A pallet at block 100 whose network 1 has the given neurons: score and block of
/// registration.
fn network(immunity_period: u16, neurons: &[(u16, u64)]) -> Pallet {
    let initial_hyperparameters = Hyperparameters {
        max_allowed_uids: 8,
        immunity_period,
        max_registrations_per_block: 3,
        target_registrations_per_interval: 2,
        burn: 100,
        difficulty: U256 { limbs: [1, 0, 0, 0] },
    };
    let mut p = Pallet::new(
        Config {
            max_balance: u64::MAX,
            max_block_number: u64::MAX,
            existential_deposit: 1,
            initial_hyperparameters,
        },
        100,
    );
    p.networks_added.insert(1, true);
    for (uid, (score, block)) in neurons.iter().enumerate() {
        p.append_neuron(1, &[uid as u8 + 1; 32]);
        p.set_pruning_score_for_uid(1, uid as u16, *score);
        p.block_at_registration.insert((1, uid as u16), *block);
    }
    p
}

#[test]
fn an_empty_network_prunes_slot_zero() {
    let mut p = network(10, &[]);
    assert_eq!(p.get_neuron_to_prune(1), 0);
    assert!(p.pruning_scores.get(&(1, 0)).is_none());
}

#[test]
fn the_lowest_score_outside_immunity_is_pruned() {
    // The lowest score of all belongs to an immune neuron.
    let mut p = network(10, &[(5, 0), (1, 95), (3, 0), (4, 0)]);
    assert_eq!(p.get_neuron_to_prune(1), 2);
    assert_eq!(p.get_pruning_score_for_uid(1, 2), u16::MAX);
    assert_eq!(p.get_pruning_score_for_uid(1, 0), 5);
    assert_eq!(p.get_pruning_score_for_uid(1, 1), 1);
}

#[test]
fn of_equal_scores_outside_immunity_the_last_is_pruned() {
    let mut p = network(10, &[(3, 0), (3, 0), (9, 0)]);
    assert_eq!(p.get_neuron_to_prune(1), 1);
    assert_eq!(p.get_neuron_to_prune(1), 0);
    assert_eq!(p.get_neuron_to_prune(1), 2);
}

#[test]
fn with_all_immune_the_first_lowest_score_is_pruned() {
    let mut p = network(10, &[(4, 95), (2, 96), (2, 97)]);
    assert_eq!(p.get_neuron_to_prune(1), 1);
    assert_eq!(p.get_pruning_score_for_uid(1, 1), u16::MAX);
    assert_eq!(p.get_neuron_to_prune(1), 2);
}

#[test]
fn immunity_ends_after_the_period() {
    // Ten blocks ago is outside a period of ten, nine is in it.
    let mut p = network(10, &[(1, 91), (7, 90)]);
    assert_eq!(p.get_neuron_to_prune(1), 1);
    let mut q = network(10, &[(1, 90), (7, 90)]);
    assert_eq!(q.get_neuron_to_prune(1), 0);
}

#[test]
fn neurons_outside_immunity_go_first_whatever_their_score() {
    let mut p = network(10, &[(u16::MAX, 0), (5, 95), (u16::MAX, 0), (2, 95)]);
    assert_eq!(p.get_neuron_to_prune(1), 2);
}

#[test]
fn once_all_were_pruned_the_last_is_pruned_continually() {
    let mut p = network(10, &[(u16::MAX, 0), (u16::MAX, 0), (u16::MAX, 0)]);
    assert_eq!(p.get_neuron_to_prune(1), 2);
    assert_eq!(p.get_neuron_to_prune(1), 2);
    let mut q = network(10, &[(u16::MAX, 99), (u16::MAX, 98), (u16::MAX, 97)]);
    assert_eq!(q.get_neuron_to_prune(1), 2);
    assert_eq!(q.get_neuron_to_prune(1), 2);
}
