//! What each call guarantees in terms of what is stored: when it succeeds, which error it
//! answers otherwise, and what is stored afterwards.
use crate::connection::lemma_requirements_rest_on_neurons;
use crate::laws::lemma_next_slot_rests_on_neurons;
use crate::pallet::State;
use crate::primitives::{big_endian_value, AccountId};
use crate::types::{Config, Error, Event, Hyperparameters, Origin};
use crate::work::law_difficulty_is_a_product;
use vstd::arithmetic::power::pow;
use vstd::prelude::*;

verus! {

/// A value that is stored for a network is the one that is read, and a value that is not
/// stored has its default.
pub proof fn law_networks_are_read_as_stored(state: State, netuid: u16)
    ensures
        state.network_exists(netuid) <==> state.networks_added.dom().contains(netuid)
            && state.networks_added[netuid],
        state.hyperparameters.dom().contains(netuid) ==> state.parameters_of(netuid)
            == state.hyperparameters[netuid],
        !state.hyperparameters.dom().contains(netuid) ==> state.parameters_of(netuid)
            == state.config.initial_hyperparameters,
        state.counters.dom().contains(netuid) ==> state.counters_of(netuid)
            == state.counters[netuid],
        !state.counters.dom().contains(netuid) ==> {
            &&& state.counters_of(netuid).this_block == 0
            &&& state.counters_of(netuid).this_interval == 0
            &&& state.counters_of(netuid).pow_this_interval == 0
            &&& state.counters_of(netuid).burn_this_interval == 0
        },
        state.rao_recycled.dom().contains(netuid) ==> state.recycled_of(netuid)
            == state.rao_recycled[netuid],
        !state.rao_recycled.dom().contains(netuid) ==> state.recycled_of(netuid) == 0,
        state.subnetwork_n.dom().contains(netuid) ==> state.size_of(netuid)
            == state.subnetwork_n[netuid],
        !state.subnetwork_n.dom().contains(netuid) ==> state.size_of(netuid) == 0,
{
}

/// A value that is stored for a slot is the one that is read, and a value that is not stored
/// has its default.
pub proof fn law_slots_are_read_as_stored(state: State, netuid: u16, uid: u16, hotkey: Seq<u8>)
    ensures
        state.is_registered(netuid, hotkey) <==> state.uids.dom().contains((netuid, hotkey)),
        state.keys.dom().contains((netuid, uid)) ==> state.key_of(netuid, uid) == state.keys[(
            netuid,
            uid,
        )]@,
        !state.keys.dom().contains((netuid, uid)) ==> state.key_of(netuid, uid) == Seq::new(
            32,
            |i: int| 0u8,
        ),
        state.block_at_registration.dom().contains((netuid, uid)) ==> state.registered_at(
            netuid,
            uid,
        ) == state.block_at_registration[(netuid, uid)],
        !state.block_at_registration.dom().contains((netuid, uid)) ==> state.registered_at(
            netuid,
            uid,
        ) == 0,
        state.pruning_scores.dom().contains((netuid, uid)) ==> state.score_of(netuid, uid)
            == state.pruning_scores[(netuid, uid)],
        !state.pruning_scores.dom().contains((netuid, uid)) ==> state.score_of(netuid, uid)
            == u16::MAX,
{
}

/// A value that is stored for accounts, or for a block, is the one that is read, and a value
/// that is not stored has its default.
pub proof fn law_accounts_are_read_as_stored(
    state: State,
    coldkey: Seq<u8>,
    hotkey: Seq<u8>,
    block_number: u64,
)
    ensures
        state.owner.dom().contains(hotkey) ==> state.owner_of(hotkey) == state.owner[hotkey]@,
        !state.owner.dom().contains(hotkey) ==> state.owner_of(hotkey) == Seq::new(
            32,
            |i: int| 0u8,
        ),
        state.stake.dom().contains((coldkey, hotkey)) ==> state.stake_of(coldkey, hotkey)
            == state.stake[(coldkey, hotkey)],
        !state.stake.dom().contains((coldkey, hotkey)) ==> state.stake_of(coldkey, hotkey) == 0,
        state.balances.dom().contains(coldkey) ==> state.balance_of(coldkey)
            == state.balances[coldkey],
        !state.balances.dom().contains(coldkey) ==> state.balance_of(coldkey) == 0,
        state.block_hash.dom().contains(block_number) ==> state.hash_of_block(block_number)
            == state.block_hash[block_number].bytes@,
        !state.block_hash.dom().contains(block_number) ==> state.hash_of_block(block_number)
            == Seq::new(32, |i: int| 0u8),
{
}

/// A hotkey belongs to the coldkey that is stored for it and to no other, and to none where none
/// is stored; it is registered somewhere exactly where a slot of it is stored for some network.
pub proof fn law_hotkeys_are_read_as_stored(
    state: State,
    coldkey: AccountId,
    hotkey: Seq<u8>,
    netuid: u16,
)
    ensures
        state.owns(coldkey, hotkey) ==> state.owner.dom().contains(hotkey),
        state.owner.dom().contains(hotkey) ==> (state.owns(coldkey, hotkey)
            <==> state.owner[hotkey] == coldkey),
        state.uids.dom().contains((netuid, hotkey)) ==> state.is_registered_anywhere(hotkey),
        (forall|other: u16| !#[trigger] state.uids.dom().contains((other, hotkey)))
            ==> !state.is_registered_anywhere(hotkey),
{
    if state.uids.dom().contains((netuid, hotkey)) {
        assert(state.is_registered(netuid, hotkey));
    }
    if state.is_registered_anywhere(hotkey) {
        let other = choose|other: u16| state.is_registered(other, hotkey);
        assert(state.uids.dom().contains((other, hotkey)));
    }
}

/// A hotkey of nobody is given to the coldkey, with the stake that is recorded; one that belongs
/// to somebody stays, whoever asks. Nothing else changes.
pub proof fn law_account_is_created_once(state: State, coldkey: AccountId, hotkey: AccountId)
    ensures
        state.owner.dom().contains(hotkey@) ==> state.with_account(coldkey, hotkey) == state,
        !state.owner.dom().contains(hotkey@) ==> state.with_account(coldkey, hotkey) == (State {
            owner: state.owner.insert(hotkey@, coldkey),
            stake: state.stake.insert((coldkey@, hotkey@), state.stake_of(coldkey@, hotkey@)),
            ..state
        }),
{
}

/// More stake raises that stake alone, by the amount, as far as it fits.
pub proof fn law_stake_is_raised(state: State, coldkey: Seq<u8>, hotkey: Seq<u8>, amount: u64)
    ensures
        ({
            let after = state.with_more_stake(coldkey, hotkey, amount);
            let total = state.stake_of(coldkey, hotkey) + amount;
            &&& after == (State { stake: after.stake, ..state })
            &&& after.stake.remove((coldkey, hotkey)) == state.stake.remove((coldkey, hotkey))
            &&& after.stake_of(coldkey, hotkey) == if total > u64::MAX {
                u64::MAX as int
            } else {
                total
            }
        }),
{
    assert(state.with_more_stake(coldkey, hotkey, amount).stake.remove((coldkey, hotkey))
        =~= state.stake.remove((coldkey, hotkey)));
}

/// A deposit raises that balance alone, by the amount, where balances can hold as much, and
/// changes nothing otherwise.
pub proof fn law_deposit_raises_the_balance(state: State, coldkey: Seq<u8>, amount: u64)
    ensures
        ({
            let after = state.with_deposit(coldkey, amount);
            let total = state.balance_of(coldkey) + amount;
            &&& after == (State { balances: after.balances, ..state })
            &&& after.balances.remove(coldkey) == state.balances.remove(coldkey)
            &&& after.balance_of(coldkey) == if total > state.config.max_balance {
                state.balance_of(coldkey) as int
            } else {
                total
            }
        }),
{
    assert(state.with_deposit(coldkey, amount).balances.remove(coldkey) =~= state.balances.remove(
        coldkey,
    ));
}

/// A withdrawal goes through exactly where it is nothing, or leaves the existential deposit in
/// the account. It lowers that balance alone, by the amount.
pub proof fn law_withdrawal_lowers_the_balance(state: State, coldkey: Seq<u8>, amount: u64)
    ensures
        state.can_withdraw(coldkey, amount) <==> amount == 0 || state.balance_of(coldkey) >= amount
            + state.config.existential_deposit,
        state.can_withdraw(coldkey, amount) ==> {
            let after = state.with_withdrawal(coldkey, amount);
            &&& after == (State { balances: after.balances, ..state })
            &&& after.balances.remove(coldkey) == state.balances.remove(coldkey)
            &&& after.balance_of(coldkey) == state.balance_of(coldkey) - amount
        },
{
    assert(state.with_withdrawal(coldkey, amount).balances.remove(coldkey)
        =~= state.balances.remove(coldkey));
}

/// A score that is set is the one that is read, and every other score and everything else stays;
/// an event that is deposited stands after those before it.
pub proof fn law_scores_and_events_are_kept(
    state: State,
    netuid: u16,
    uid: u16,
    score: u16,
    event: Event,
)
    ensures
        state.with_score(netuid, uid, score).score_of(netuid, uid) == score,
        state.with_score(netuid, uid, score) == (State {
            pruning_scores: state.pruning_scores.insert((netuid, uid), score),
            ..state
        }),
        state.with_event(event) == (State { events: state.events.push(event), ..state }),
{
}

/// A hotkey that is appended to a network has the slot after the last, registered in this block
/// with the lowest score, and everything else stays.
pub proof fn law_appended_hotkey_has_the_last_slot(
    state: State,
    netuid: u16,
    hotkey: AccountId,
)
    requires
        state.size_of(netuid) < u16::MAX,
    ensures
        ({
            let after = state.with_appended(netuid, hotkey);
            let uid = state.size_of(netuid);
            &&& after.size_of(netuid) == uid + 1
            &&& after.subnetwork_n.remove(netuid) == state.subnetwork_n.remove(netuid)
            &&& after == (State {
                subnetwork_n: after.subnetwork_n,
                uids: state.uids.insert((netuid, hotkey@), uid),
                keys: state.keys.insert((netuid, uid), hotkey),
                block_at_registration: state.block_at_registration.insert(
                    (netuid, uid),
                    state.block_number,
                ),
                pruning_scores: state.pruning_scores.insert((netuid, uid), 0),
                ..state
            })
        }),
{
    assert(state.with_appended(netuid, hotkey).subnetwork_n.remove(netuid)
        =~= state.subnetwork_n.remove(netuid));
}

/// A hotkey that replaces another has its slot, registered in this block; the other has none, and
/// everything else stays, the score of the slot and the size of the network with it.
pub proof fn law_replaced_hotkey_loses_its_slot(
    state: State,
    netuid: u16,
    uid: u16,
    hotkey: AccountId,
)
    ensures
        ({
            let after = state.with_replaced(netuid, uid, hotkey);
            let replaced = state.key_of(netuid, uid);
            &&& after == (State {
                uids: after.uids,
                keys: state.keys.insert((netuid, uid), hotkey),
                block_at_registration: state.block_at_registration.insert(
                    (netuid, uid),
                    state.block_number,
                ),
                ..state
            })
            &&& after.uids.dom().contains((netuid, hotkey@))
            &&& after.uids[(netuid, hotkey@)] == uid
            &&& replaced != hotkey@ ==> !after.uids.dom().contains((netuid, replaced))
            &&& after.uids.remove((netuid, hotkey@)).remove((netuid, replaced))
                == state.uids.remove((netuid, hotkey@)).remove((netuid, replaced))
        }),
{
    let after = state.with_replaced(netuid, uid, hotkey);
    let replaced = state.key_of(netuid, uid);
    assert(after.uids.remove((netuid, hotkey@)).remove((netuid, replaced))
        =~= state.uids.remove((netuid, hotkey@)).remove((netuid, replaced)));
}

/// A hotkey that takes a slot of a network with room gets the one after the last, with the
/// lowest score, and no other hotkey moves.
pub proof fn law_new_neuron_is_appended_where_there_is_room(
    state: State,
    netuid: u16,
    hotkey: AccountId,
)
    requires
        state.size_of(netuid) < state.parameters_of(netuid).max_allowed_uids,
    ensures
        state.next_slot(netuid) == state.size_of(netuid),
        state.with_slot(netuid, hotkey).size_of(netuid) == state.size_of(netuid) + 1,
        ({
            let uid = state.size_of(netuid);
            state.with_slot(netuid, hotkey) == (State {
                subnetwork_n: state.subnetwork_n.insert(netuid, (uid + 1) as u16),
                uids: state.uids.insert((netuid, hotkey@), uid),
                keys: state.keys.insert((netuid, uid), hotkey),
                block_at_registration: state.block_at_registration.insert(
                    (netuid, uid),
                    state.block_number,
                ),
                pruning_scores: state.pruning_scores.insert((netuid, uid), 0),
                ..state
            })
        }),
{
}

/// A hotkey that takes a slot of a full network gets that of the neuron to prune, whose hotkey
/// has none from then on. The size stays, no other hotkey moves, and of the scores only that of
/// the slot changes, to the highest.
pub proof fn law_new_neuron_replaces_the_pruned_one_where_there_is_none(
    state: State,
    netuid: u16,
    hotkey: AccountId,
)
    requires
        0 < state.size_of(netuid),
        state.parameters_of(netuid).max_allowed_uids <= state.size_of(netuid),
    ensures
        state.next_slot(netuid) == state.slot_to_prune(netuid),
        ({
            let uid = state.slot_to_prune(netuid);
            let after = state.with_slot(netuid, hotkey);
            &&& after == (State {
                uids: after.uids,
                keys: state.keys.insert((netuid, uid), hotkey),
                block_at_registration: state.block_at_registration.insert(
                    (netuid, uid),
                    state.block_number,
                ),
                pruning_scores: state.pruning_scores.insert((netuid, uid), u16::MAX),
                ..state
            })
            &&& after.uids.dom().contains((netuid, hotkey@))
            &&& after.uids[(netuid, hotkey@)] == uid
            &&& state.key_of(netuid, uid) != hotkey@ ==> !after.uids.dom().contains(
                (netuid, state.key_of(netuid, uid)),
            )
            &&& forall|other: u16, key: Seq<u8>|
                #![trigger after.uids.dom().contains((other, key))]
                other != netuid || (key != hotkey@ && key != state.key_of(netuid, uid)) ==> {
                    &&& after.uids.dom().contains((other, key)) == state.uids.dom().contains(
                        (other, key),
                    )
                    &&& after.uids[(other, key)] == state.uids[(other, key)]
                }
        }),
{
    assert(state.with_slot(netuid, hotkey).subnetwork_n == state.subnetwork_n);
}

/// A hotkey that takes a slot of an empty network that allows none gets the first, and the size
/// stays.
pub proof fn law_network_without_slots_gives_its_first(
    state: State,
    netuid: u16,
    hotkey: AccountId,
)
    requires
        state.size_of(netuid) == 0,
        state.parameters_of(netuid).max_allowed_uids == 0,
    ensures
        state.next_slot(netuid) == 0,
        state.with_slot(netuid, hotkey) == (State {
            uids: state.uids.remove((netuid, state.key_of(netuid, 0))).insert(
                (netuid, hotkey@),
                0,
            ),
            keys: state.keys.insert((netuid, 0), hotkey),
            block_at_registration: state.block_at_registration.insert(
                (netuid, 0),
                state.block_number,
            ),
            ..state
        }),
{
}

/// A registration by work is answered by the first of these that fails: the network exists, the
/// block has room, the interval has room, the hotkey has no slot, the work's block is the
/// current one or one of the two before, the work was not used, it meets the difficulty of the
/// network's own hyperparameters, it is the seal of the block and the nonce, the hotkey passes
/// the requirements of connected networks, it belongs to nobody or to the coldkey, and the
/// network has slots. Where none fails, the registration succeeds.
pub proof fn law_work_registration_answers(
    state: State,
    netuid: u16,
    block_number: u64,
    nonce: u64,
    work: Seq<u8>,
    hotkey: AccountId,
    coldkey: AccountId,
)
    ensures
        ({
            let result = state.work_registration(
                netuid,
                block_number,
                nonce,
                work,
                hotkey,
                coldkey,
            ).result;
            let parameters = state.parameters_of(netuid);
            let network_exists = state.networks_added.dom().contains(netuid)
                && state.networks_added[netuid];
            let fits_block = network_exists && state.counters_of(netuid).this_block
                < parameters.max_registrations_per_block;
            let fits_interval = fits_block && state.counters_of(netuid).this_interval < 3
                * parameters.target_registrations_per_interval;
            let unregistered = fits_interval && !state.uids.dom().contains((netuid, hotkey@));
            let recent = unregistered && block_number <= state.block_number < block_number + 3;
            let unused = recent && !state.used_work.dom().contains(work);
            let hard = unused && big_endian_value(work) * parameters.difficulty@ < pow(256, 32);
            let sealed = hard && work == state.seal(block_number, nonce);
            let connected = sealed && state.passes_requirements(netuid, hotkey@);
            let associated = connected && (state.owner.dom().contains(hotkey@)
                ==> state.owner[hotkey@] == coldkey);
            let admitted = associated && parameters.max_allowed_uids > 0;
            &&& result is Ok <==> admitted
            &&& result == Err::<(), Error>(Error::NetworkDoesNotExist) <==> !network_exists || (
            associated && !admitted)
            &&& result == Err::<(), Error>(Error::TooManyRegistrationsThisBlock) <==> network_exists
                && !fits_block
            &&& result == Err::<(), Error>(Error::TooManyRegistrationsThisInterval)
                <==> fits_block && !fits_interval
            &&& result == Err::<(), Error>(Error::AlreadyRegistered) <==> fits_interval
                && !unregistered
            &&& result == Err::<(), Error>(Error::InvalidWorkBlock) <==> unregistered && !recent
            &&& result == Err::<(), Error>(Error::WorkRepeated) <==> recent && !unused
            &&& result == Err::<(), Error>(Error::InvalidDifficulty) <==> unused && !hard
            &&& result == Err::<(), Error>(Error::InvalidSeal) <==> hard && !sealed
            &&& result == Err::<(), Error>(Error::DidNotPassConnectedNetworkRequirement)
                <==> sealed && !connected
            &&& result == Err::<(), Error>(Error::NonAssociatedColdKey) <==> connected
                && !associated
        }),
{
    law_difficulty_is_a_product(work, state.parameters_of(netuid).difficulty@);
}

/// A registration with work whose freshness and difficulty are known, and a given seal, is
/// answered by the first of these that fails: the work is the seal, the hotkey passes the
/// requirements of connected networks, it belongs to nobody or to the coldkey, and the network
/// has slots. It stores nothing where the work is not the seal, and uses the work otherwise.
pub proof fn law_sealed_registration_answers(
    state: State,
    netuid: u16,
    work: Seq<u8>,
    seal: Seq<u8>,
    hotkey: AccountId,
    coldkey: AccountId,
)
    ensures
        ({
            let outcome = state.sealed_registration(netuid, work, seal, hotkey, coldkey);
            let result = outcome.result;
            let sealed = work == seal;
            let connected = sealed && state.passes_requirements(netuid, hotkey@);
            let associated = connected && (state.owner.dom().contains(hotkey@)
                ==> state.owner[hotkey@] == coldkey);
            let admitted = associated && state.parameters_of(netuid).max_allowed_uids > 0;
            &&& result is Ok <==> admitted
            &&& result == Err::<(), Error>(Error::InvalidSeal) <==> !sealed
            &&& result == Err::<(), Error>(Error::DidNotPassConnectedNetworkRequirement)
                <==> sealed && !connected
            &&& result == Err::<(), Error>(Error::NonAssociatedColdKey) <==> connected
                && !associated
            &&& result == Err::<(), Error>(Error::NetworkDoesNotExist) <==> associated
                && !admitted
            &&& !sealed ==> outcome.state == state
            &&& sealed ==> outcome.state.used_work == state.used_work.insert(
                work,
                state.block_number,
            )
        }),
{
}

/// Where a registration by work succeeds, the number that the work spells, times the
/// difficulty of the network's own hyperparameters, is less than `2^256`; work with a larger
/// product is refused for its difficulty once it is fresh, and nothing is stored.
pub proof fn law_work_is_held_against_the_networks_difficulty(
    state: State,
    netuid: u16,
    block_number: u64,
    nonce: u64,
    work: Seq<u8>,
    hotkey: AccountId,
    coldkey: AccountId,
)
    ensures
        ({
            let outcome = state.work_registration(
                netuid,
                block_number,
                nonce,
                work,
                hotkey,
                coldkey,
            );
            let product = big_endian_value(work) * state.parameters_of(netuid).difficulty@;
            &&& outcome.result is Ok ==> product < pow(256, 32)
            &&& product >= pow(256, 32) && state.quota_error(netuid, hotkey@) is None
                && state.freshness_error(block_number, work) is None ==> outcome.result == Err::<
                (),
                Error,
            >(Error::InvalidDifficulty) && outcome.state == state
        }),
{
    law_difficulty_is_a_product(work, state.parameters_of(netuid).difficulty@);
}

/// What a registration by work stores. The work is used, in the current block, once it is fresh,
/// meets the difficulty and is the seal. A hotkey of nobody becomes the coldkey's, with the
/// stake that it had, once it passes the requirements. Only where the call succeeds does the
/// hotkey take the next slot, are the registrations counted and is the event deposited; nothing
/// else is ever stored.
pub proof fn law_work_registration_stores(
    state: State,
    netuid: u16,
    block_number: u64,
    nonce: u64,
    work: Seq<u8>,
    hotkey: AccountId,
    coldkey: AccountId,
)
    requires
        3 * state.parameters_of(netuid).target_registrations_per_interval <= u16::MAX,
        state.counters_of(netuid).pow_this_interval + state.counters_of(netuid).burn_this_interval
            <= state.counters_of(netuid).this_interval,
    ensures
        ({
            let outcome = state.work_registration(
                netuid,
                block_number,
                nonce,
                work,
                hotkey,
                coldkey,
            );
            let after = outcome.state;
            let refused_early = match outcome.result {
                Ok(_) => false,
                Err(error) => error != Error::DidNotPassConnectedNetworkRequirement && error
                    != Error::NonAssociatedColdKey && (error == Error::NetworkDoesNotExist
                    ==> !state.network_exists(netuid)),
            };
            let created = !refused_early && outcome.result != Err::<(), Error>(
                Error::DidNotPassConnectedNetworkRequirement,
            ) && !state.owner.dom().contains(hotkey@);
            &&& refused_early ==> after == state
            &&& !refused_early ==> after.used_work == state.used_work.insert(
                work,
                state.block_number,
            )
            &&& after.owner == (if created {
                state.owner.insert(hotkey@, coldkey)
            } else {
                state.owner
            })
            &&& after.stake == (if created {
                state.stake.insert((coldkey@, hotkey@), state.stake_of(coldkey@, hotkey@))
            } else {
                state.stake
            })
            &&& outcome.result is Err ==> after == (State {
                used_work: after.used_work,
                owner: after.owner,
                stake: after.stake,
                ..state
            })
            &&& outcome.result is Ok ==> {
                let filled = state.with_slot(netuid, hotkey);
                &&& after == (State {
                    used_work: after.used_work,
                    owner: after.owner,
                    stake: after.stake,
                    counters: after.counters,
                    subnetwork_n: filled.subnetwork_n,
                    uids: filled.uids,
                    keys: filled.keys,
                    block_at_registration: filled.block_at_registration,
                    pruning_scores: filled.pruning_scores,
                    events: state.events.push(
                        Event::NeuronRegistered(netuid, filled.uids[(netuid, hotkey@)], hotkey),
                    ),
                    ..state
                })
                &&& after.counters.remove(netuid) == state.counters.remove(netuid)
                &&& after.counters_of(netuid).this_block == state.counters_of(netuid).this_block + 1
                &&& after.counters_of(netuid).this_interval == state.counters_of(
                    netuid,
                ).this_interval + 1
                &&& after.counters_of(netuid).pow_this_interval == state.counters_of(
                    netuid,
                ).pow_this_interval + 1
                &&& after.counters_of(netuid).burn_this_interval == state.counters_of(
                    netuid,
                ).burn_this_interval
            }
        }),
{
    let created = state.with_used_work(work).with_account(coldkey, hotkey);
    lemma_next_slot_rests_on_neurons(state, created, netuid);
    let after = created.with_slot(netuid, hotkey).with_work_counted(netuid);
    assert(after.counters.remove(netuid) =~= state.counters.remove(netuid));
}

/// A registration by burning is answered by the first of these that fails: the network exists,
/// the block has room, the interval has room, the hotkey has no slot, it passes the
/// requirements of connected networks, the coldkey holds the burn of the network's own
/// hyperparameters, it keeps the existential deposit if it burns anything, the hotkey belongs to
/// nobody or to the coldkey, and the network has slots. Where none fails, the registration
/// succeeds.
pub proof fn law_burned_registration_answers(
    state: State,
    coldkey: AccountId,
    netuid: u16,
    hotkey: AccountId,
)
    ensures
        ({
            let result = state.burned_registration(coldkey, netuid, hotkey).result;
            let parameters = state.parameters_of(netuid);
            let network_exists = state.networks_added.dom().contains(netuid)
                && state.networks_added[netuid];
            let fits_block = network_exists && state.counters_of(netuid).this_block
                < parameters.max_registrations_per_block;
            let fits_interval = fits_block && state.counters_of(netuid).this_interval < 3
                * parameters.target_registrations_per_interval;
            let unregistered = fits_interval && !state.uids.dom().contains((netuid, hotkey@));
            let connected = unregistered && state.passes_requirements(netuid, hotkey@);
            let funded = connected && parameters.burn <= state.balance_of(coldkey@);
            let paid = funded && (parameters.burn > 0 ==> state.balance_of(coldkey@)
                >= parameters.burn + state.config.existential_deposit);
            let associated = paid && (state.owner.dom().contains(hotkey@)
                ==> state.owner[hotkey@] == coldkey);
            let admitted = associated && parameters.max_allowed_uids > 0;
            &&& result is Ok <==> admitted
            &&& result == Err::<(), Error>(Error::NetworkDoesNotExist) <==> !network_exists || (
            associated && !admitted)
            &&& result == Err::<(), Error>(Error::TooManyRegistrationsThisBlock) <==> network_exists
                && !fits_block
            &&& result == Err::<(), Error>(Error::TooManyRegistrationsThisInterval)
                <==> fits_block && !fits_interval
            &&& result == Err::<(), Error>(Error::AlreadyRegistered) <==> fits_interval
                && !unregistered
            &&& result == Err::<(), Error>(Error::DidNotPassConnectedNetworkRequirement)
                <==> unregistered && !connected
            &&& result == Err::<(), Error>(Error::NotEnoughBalanceToStake) <==> connected
                && !funded
            &&& result == Err::<(), Error>(Error::BalanceWithdrawalError) <==> funded && !paid
            &&& result == Err::<(), Error>(Error::NonAssociatedColdKey) <==> paid && !associated
        }),
{
}

/// A registration by burning succeeds where the quota admits the hotkey, it passes the
/// requirements, the coldkey can pay, the hotkey belongs to nobody or to the coldkey that
/// signed, and the network has slots.
pub proof fn law_burned_registration_succeeds(
    state: State,
    coldkey: AccountId,
    netuid: u16,
    hotkey: AccountId,
)
    requires
        state.quota_error(netuid, hotkey@) is None,
        state.passes_requirements(netuid, hotkey@),
        state.can_withdraw(coldkey@, state.parameters_of(netuid).burn),
        state.owner.dom().contains(hotkey@) ==> state.owner[hotkey@] == coldkey,
        state.parameters_of(netuid).max_allowed_uids > 0,
    ensures
        state.burned_registration(coldkey, netuid, hotkey).result is Ok,
{
}

/// What a registration by burning stores. The burn leaves the coldkey and the issuance, and a
/// hotkey of nobody becomes the coldkey's, with the stake that it had, once the coldkey can pay.
/// Only where the call succeeds does the hotkey take the next slot, are the registrations and
/// the burn counted and is the event deposited; nothing else is ever stored.
pub proof fn law_burned_registration_stores(
    state: State,
    coldkey: AccountId,
    netuid: u16,
    hotkey: AccountId,
)
    requires
        3 * state.parameters_of(netuid).target_registrations_per_interval <= u16::MAX,
        state.counters_of(netuid).pow_this_interval + state.counters_of(netuid).burn_this_interval
            <= state.counters_of(netuid).this_interval,
    ensures
        ({
            let outcome = state.burned_registration(coldkey, netuid, hotkey);
            let after = outcome.state;
            let burn = state.parameters_of(netuid).burn;
            let paid = match outcome.result {
                Ok(_) => true,
                Err(error) => error == Error::NonAssociatedColdKey || (error
                    == Error::NetworkDoesNotExist && state.network_exists(netuid)),
            };
            let created = paid && !state.owner.dom().contains(hotkey@);
            &&& !paid ==> after == state
            &&& paid ==> {
                &&& after.balance_of(coldkey@) == state.balance_of(coldkey@) - burn
                &&& after.balances.remove(coldkey@) == state.balances.remove(coldkey@)
                &&& after.total_issuance == if state.total_issuance < burn {
                    0
                } else {
                    state.total_issuance - burn
                }
            }
            &&& after.owner == (if created {
                state.owner.insert(hotkey@, coldkey)
            } else {
                state.owner
            })
            &&& after.stake == (if created {
                state.stake.insert((coldkey@, hotkey@), state.stake_of(coldkey@, hotkey@))
            } else {
                state.stake
            })
            &&& outcome.result is Err ==> after == (State {
                balances: after.balances,
                total_issuance: after.total_issuance,
                owner: after.owner,
                stake: after.stake,
                ..state
            })
            &&& outcome.result is Ok ==> {
                let filled = state.with_slot(netuid, hotkey);
                &&& after == (State {
                    balances: after.balances,
                    total_issuance: after.total_issuance,
                    owner: after.owner,
                    stake: after.stake,
                    counters: after.counters,
                    rao_recycled: after.rao_recycled,
                    subnetwork_n: filled.subnetwork_n,
                    uids: filled.uids,
                    keys: filled.keys,
                    block_at_registration: filled.block_at_registration,
                    pruning_scores: filled.pruning_scores,
                    events: state.events.push(
                        Event::NeuronRegistered(netuid, filled.uids[(netuid, hotkey@)], hotkey),
                    ),
                    ..state
                })
                &&& after.rao_recycled.remove(netuid) == state.rao_recycled.remove(netuid)
                &&& after.recycled_of(netuid) == if state.recycled_of(netuid) + burn > u64::MAX {
                    u64::MAX as int
                } else {
                    state.recycled_of(netuid) + burn
                }
                &&& after.counters.remove(netuid) == state.counters.remove(netuid)
                &&& after.counters_of(netuid).this_block == state.counters_of(netuid).this_block + 1
                &&& after.counters_of(netuid).this_interval == state.counters_of(
                    netuid,
                ).this_interval + 1
                &&& after.counters_of(netuid).pow_this_interval == state.counters_of(
                    netuid,
                ).pow_this_interval
                &&& after.counters_of(netuid).burn_this_interval == state.counters_of(
                    netuid,
                ).burn_this_interval + 1
            }
        }),
{
    let burned = state.with_burned(netuid, coldkey@);
    let created = burned.with_account(coldkey, hotkey);
    lemma_next_slot_rests_on_neurons(state, created, netuid);
    let after = created.with_slot(netuid, hotkey).with_burn_counted(netuid);
    assert(burned.balances.remove(coldkey@) =~= state.balances.remove(coldkey@));
    assert(after.counters.remove(netuid) =~= state.counters.remove(netuid));
    assert(after.rao_recycled.remove(netuid) =~= state.rao_recycled.remove(netuid));
}

/// A registration by the system is answered by the first of these that fails: the origin is the
/// root, the network exists, the hotkey has no slot, it belongs to nobody or to the coldkey, and
/// the balance is one that can be held. Where none fails, the registration succeeds.
pub proof fn law_system_registration_answers(
    state: State,
    origin: Origin,
    netuid: u16,
    hotkey: AccountId,
    coldkey: AccountId,
    stake: u64,
    balance: u64,
)
    ensures
        ({
            let result = state.system_registration(
                origin,
                netuid,
                hotkey,
                coldkey,
                stake,
                balance,
            ).result;
            let root = origin is Root;
            let network_exists = root && state.networks_added.dom().contains(netuid)
                && state.networks_added[netuid];
            let unregistered = network_exists && !state.uids.dom().contains((netuid, hotkey@));
            let associated = unregistered && (state.owner.dom().contains(hotkey@)
                ==> state.owner[hotkey@] == coldkey);
            let admitted = associated && balance <= state.config.max_balance;
            &&& result is Ok <==> admitted
            &&& result == Err::<(), Error>(Error::BadOrigin) <==> !root
            &&& result == Err::<(), Error>(Error::NetworkDoesNotExist) <==> root && !network_exists
            &&& result == Err::<(), Error>(Error::AlreadyRegistered) <==> network_exists
                && !unregistered
            &&& result == Err::<(), Error>(Error::NonAssociatedColdKey) <==> unregistered
                && !associated
            &&& result == Err::<(), Error>(Error::CouldNotConvertToBalance) <==> associated
                && !admitted
        }),
{
}

/// After a registration by the system that succeeds, the stake of the coldkey on the hotkey is
/// what it was plus the stake of the call, as far as that fits, and every other stake is what it
/// was. The balance of the coldkey is what it was plus the balance of the call, where balances
/// can hold as much, or else what it was, and so is every other balance.
pub proof fn law_system_registration_credits(
    state: State,
    origin: Origin,
    netuid: u16,
    hotkey: AccountId,
    coldkey: AccountId,
    stake: u64,
    balance: u64,
)
    requires
        state.system_registration(origin, netuid, hotkey, coldkey, stake, balance).result is Ok,
    ensures
        ({
            let after = state.system_registration(
                origin,
                netuid,
                hotkey,
                coldkey,
                stake,
                balance,
            ).state;
            let total_stake = state.stake_of(coldkey@, hotkey@) + stake;
            let total_balance = state.balance_of(coldkey@) + balance;
            &&& after.stake_of(coldkey@, hotkey@) == if total_stake > u64::MAX {
                u64::MAX as int
            } else {
                total_stake
            }
            &&& after.stake.remove((coldkey@, hotkey@)) == state.stake.remove(
                (coldkey@, hotkey@),
            )
            &&& after.balance_of(coldkey@) == if total_balance > state.config.max_balance {
                state.balance_of(coldkey@) as int
            } else {
                total_balance
            }
            &&& after.balances.remove(coldkey@) == state.balances.remove(coldkey@)
        }),
{
    let after = state.system_registration(origin, netuid, hotkey, coldkey, stake, balance).state;
    assert(after.stake.remove((coldkey@, hotkey@)) =~= state.stake.remove((coldkey@, hotkey@)));
    assert(after.balances.remove(coldkey@) =~= state.balances.remove(coldkey@));
}

/// What a registration by the system stores. A hotkey of nobody becomes the coldkey's once the
/// network is known to have no slot of it. The stake is there once the hotkey is known to be the
/// coldkey's. Only where the call succeeds does the balance change, does the hotkey take the
/// next slot and is the event deposited; nothing is counted, and nothing else is ever stored.
pub proof fn law_system_registration_stores(
    state: State,
    origin: Origin,
    netuid: u16,
    hotkey: AccountId,
    coldkey: AccountId,
    stake: u64,
    balance: u64,
)
    ensures
        ({
            let outcome = state.system_registration(
                origin,
                netuid,
                hotkey,
                coldkey,
                stake,
                balance,
            );
            let after = outcome.state;
            let refused_early = match outcome.result {
                Ok(_) => false,
                Err(error) => error != Error::NonAssociatedColdKey && error
                    != Error::CouldNotConvertToBalance,
            };
            let total_stake = state.stake_of(coldkey@, hotkey@) + stake;
            &&& refused_early || outcome.result == Err::<(), Error>(Error::NonAssociatedColdKey)
                ==> after == state
            &&& outcome.result == Err::<(), Error>(Error::CouldNotConvertToBalance) ==> {
                &&& after == (State { owner: after.owner, stake: after.stake, ..state })
                &&& after.owner == state.owner.insert(hotkey@, coldkey)
                &&& after.stake_of(coldkey@, hotkey@) == if total_stake > u64::MAX {
                    u64::MAX as int
                } else {
                    total_stake
                }
                &&& after.stake.remove((coldkey@, hotkey@)) == state.stake.remove(
                    (coldkey@, hotkey@),
                )
            }
            &&& outcome.result is Ok ==> {
                let filled = state.with_slot(netuid, hotkey);
                &&& after.owner == state.owner.insert(hotkey@, coldkey)
                &&& after == (State {
                    owner: after.owner,
                    stake: after.stake,
                    balances: after.balances,
                    subnetwork_n: filled.subnetwork_n,
                    uids: filled.uids,
                    keys: filled.keys,
                    block_at_registration: filled.block_at_registration,
                    pruning_scores: filled.pruning_scores,
                    events: state.events.push(
                        Event::NeuronRegistered(netuid, filled.uids[(netuid, hotkey@)], hotkey),
                    ),
                    ..state
                })
            }
        }),
{
    let created = state.with_account(coldkey, hotkey);
    let staked = created.with_more_stake(coldkey@, hotkey@, stake);
    let funded = staked.with_deposit(coldkey@, balance);
    lemma_next_slot_rests_on_neurons(state, funded, netuid);
    assert(staked.stake.remove((coldkey@, hotkey@)) =~= state.stake.remove((coldkey@, hotkey@)));
    if created.owns(coldkey, hotkey@) {
        assert(created.owner =~= state.owner.insert(hotkey@, coldkey));
    }
}

/// The hyperparameters that networks start with do not matter to a network that has set its
/// own: the same calls are answered alike, the same nonce is the first to give work, and the
/// same neuron is the one to prune.
pub proof fn law_initial_hyperparameters_do_not_matter(
    state: State,
    initial_hyperparameters: Hyperparameters,
    netuid: u16,
    hotkey: AccountId,
    coldkey: AccountId,
    block_number: u64,
    nonce: u64,
    work: Seq<u8>,
)
    requires
        state.hyperparameters.dom().contains(netuid),
    ensures
        ({
            let other = State {
                config: Config { initial_hyperparameters, ..state.config },
                ..state
            };
            &&& other.work_registration(netuid, block_number, nonce, work, hotkey, coldkey).result
                == state.work_registration(
                netuid,
                block_number,
                nonce,
                work,
                hotkey,
                coldkey,
            ).result
            &&& other.burned_registration(coldkey, netuid, hotkey).result
                == state.burned_registration(coldkey, netuid, hotkey).result
            &&& forall|start_nonce: u64| #[trigger]
                other.is_first_work(netuid, block_number, start_nonce, nonce)
                    == state.is_first_work(netuid, block_number, start_nonce, nonce)
            &&& other.slot_to_prune(netuid) == state.slot_to_prune(netuid)
            &&& other.next_slot(netuid) == state.next_slot(netuid)
        }),
{
    let other = State { config: Config { initial_hyperparameters, ..state.config }, ..state };
    lemma_requirements_rest_on_neurons(state, other, netuid, hotkey@);
    lemma_next_slot_rests_on_neurons(state, other, netuid);
    assert forall|start_nonce: u64| #[trigger]
        other.is_first_work(netuid, block_number, start_nonce, nonce) == state.is_first_work(
            netuid,
            block_number,
            start_nonce,
            nonce,
        ) by {
        assert(forall|earlier: u64| #[trigger]
            other.seal_is_work(netuid, block_number, earlier) == state.seal_is_work(
                netuid,
                block_number,
                earlier,
            ));
        assert(forall|earlier: u64|
            other.seal_is_work(netuid, block_number, earlier) == #[trigger] state.seal_is_work(
                netuid,
                block_number,
                earlier,
            ));
    }
}

/// An association succeeds exactly where the signature is valid and the hotkey belongs to
/// nobody. The hotkey then belongs to the coldkey, with the stake that it had, and the event is
/// deposited; an association that is refused stores nothing.
pub proof fn law_association_answers_and_stores(
    state: State,
    coldkey: AccountId,
    hotkey: AccountId,
    verified: bool,
)
    ensures
        ({
            let outcome = state.association(coldkey, hotkey, verified);
            let admitted = verified && !state.owner.dom().contains(hotkey@);
            &&& admitted ==> outcome.result is Ok && outcome.state == (State {
                owner: state.owner.insert(hotkey@, coldkey),
                stake: state.stake.insert(
                    (coldkey@, hotkey@),
                    state.stake_of(coldkey@, hotkey@),
                ),
                events: state.events.push(Event::HotkeyAssociated(coldkey, hotkey)),
                ..state
            })
            &&& !admitted ==> outcome.result == Err::<(), Error>(Error::AlreadyRegistered)
                && outcome.state == state
        }),
{
}

/// A disassociation succeeds exactly where the hotkey belongs to the coldkey, has no slot on any
/// network, is no delegate and holds no stake of the coldkey. The hotkey then belongs to nobody,
/// the record of the stake is gone and the event is deposited; a disassociation that is refused
/// stores nothing.
pub proof fn law_disassociation_answers_and_stores(
    state: State,
    coldkey: AccountId,
    hotkey: AccountId,
)
    ensures
        ({
            let outcome = state.disassociation(coldkey, hotkey);
            let owned = if state.owner.dom().contains(hotkey@) {
                state.owner[hotkey@]@ == coldkey@
            } else {
                coldkey@ == Seq::new(32, |i: int| 0u8)
            };
            let idle = owned && !state.delegates.dom().contains(hotkey@) && state.stake_of(
                coldkey@,
                hotkey@,
            ) == 0 && forall|netuid: u16|
                !#[trigger] state.uids.dom().contains((netuid, hotkey@));
            &&& idle ==> outcome.result is Ok && outcome.state == (State {
                owner: state.owner.remove(hotkey@),
                stake: state.stake.remove((coldkey@, hotkey@)),
                events: state.events.push(Event::HotkeyDisassociated(coldkey, hotkey)),
                ..state
            })
            &&& !idle ==> outcome.state == state && outcome.result == (if owned {
                Err::<(), Error>(Error::OtherAssociation)
            } else {
                Err::<(), Error>(Error::NotHotkeyOwner)
            })
        }),
{
    assert forall|netuid: u16|
        state.uids.dom().contains((netuid, hotkey@)) == #[trigger] state.is_registered(
            netuid,
            hotkey@,
        ) by {}
    if exists|netuid: u16| state.uids.dom().contains((netuid, hotkey@)) {
        let netuid = choose|netuid: u16| state.uids.dom().contains((netuid, hotkey@));
        assert(state.is_registered(netuid, hotkey@));
    }
}

} // verus!
