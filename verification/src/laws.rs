//! What holds of the calls taken together.
use crate::pallet::{saturating_difference, saturating_sum, State};
use crate::primitives::AccountId;
use crate::pruning::{law_always_one_to_prune, law_at_most_one_to_prune};
use crate::types::{Error, Event, Origin};
use vstd::prelude::*;

verus! {

impl State {
    /// The hotkey has the slot, which holds it and was filled in this block, and the last
    /// event says so.
    pub open spec fn has_just_registered(
        self,
        netuid: u16,
        uid: u16,
        hotkey: AccountId,
        coldkey: AccountId,
    ) -> bool {
        &&& self.is_registered(netuid, hotkey@)
        &&& self.uids[(netuid, hotkey@)] == uid
        &&& self.key_of(netuid, uid) == hotkey@
        &&& self.registered_at(netuid, uid) == self.block_number
        &&& self.owns(coldkey, hotkey@)
        &&& self.events.len() > 0
        &&& self.events.last() == Event::NeuronRegistered(netuid, uid, hotkey)
    }

    /// The two states have the same neurons, counters and events.
    pub open spec fn same_neurons(self, other: State) -> bool {
        &&& self.subnetwork_n == other.subnetwork_n
        &&& self.uids == other.uids
        &&& self.keys == other.keys
        &&& self.block_at_registration == other.block_at_registration
        &&& self.pruning_scores == other.pruning_scores
        &&& self.counters == other.counters
        &&& self.rao_recycled == other.rao_recycled
        &&& self.events == other.events
    }
}

/// Filling a slot for a hotkey that has none keeps slots and hotkeys in agreement, on a
/// network with slots.
proof fn lemma_with_slot_agrees(state: State, netuid: u16, hotkey: AccountId)
    requires
        state.slots_agree(),
        !state.is_registered(netuid, hotkey@),
        state.size_of(netuid) > 0 || state.parameters_of(netuid).max_allowed_uids > 0,
    ensures
        state.with_slot(netuid, hotkey).slots_agree(),
{
    let after = state.with_slot(netuid, hotkey);
    let uid = state.next_slot(netuid);
    let appended = state.size_of(netuid) < state.parameters_of(netuid).max_allowed_uids;
    if !appended {
        law_always_one_to_prune(state, netuid);
    }
    let leaving = state.key_of(netuid, uid);
    assert(after.key_of(netuid, uid) == hotkey@);
    assert forall|n: u16, key: Seq<u8>| #[trigger] after.is_registered(n, key) implies {
        &&& after.uids[(n, key)] < after.size_of(n)
        &&& after.key_of(n, after.uids[(n, key)]) == key
    } by {
        if n == netuid && key == hotkey@ {
        } else {
            assert(state.is_registered(n, key));
            if n == netuid && !appended {
                assert(key != leaving);
                assert(state.uids[(n, key)] != uid);
            }
        }
    }
    assert forall|n: u16, u: u16| u < after.size_of(n) implies {
        &&& after.is_registered(n, #[trigger] after.key_of(n, u))
        &&& after.uids[(n, after.key_of(n, u))] == u
    } by {
        if n == netuid && u == uid {
        } else {
            assert(after.key_of(n, u) == state.key_of(n, u));
            assert(u < state.size_of(n));
            assert(state.is_registered(n, state.key_of(n, u)));
            assert(state.uids[(n, state.key_of(n, u))] == u);
            if n == netuid && !appended {
                assert(state.uids[(n, leaving)] == uid);
            }
        }
    }
}

/// What agrees of slots and hotkeys rests on the slots and hotkeys alone.
proof fn lemma_agreement_carries_over(before: State, after: State)
    requires
        before.slots_agree(),
        after.subnetwork_n == before.subnetwork_n,
        after.uids == before.uids,
        after.keys == before.keys,
    ensures
        after.slots_agree(),
{
    assert forall|netuid: u16, hotkey: Seq<u8>| #[trigger]
        after.is_registered(netuid, hotkey) implies {
        &&& after.uids[(netuid, hotkey)] < after.size_of(netuid)
        &&& after.key_of(netuid, after.uids[(netuid, hotkey)]) == hotkey
    } by {
        assert(before.is_registered(netuid, hotkey));
    }
    assert forall|netuid: u16, uid: u16| uid < after.size_of(netuid) implies {
        &&& after.is_registered(netuid, #[trigger] after.key_of(netuid, uid))
        &&& after.uids[(netuid, after.key_of(netuid, uid))] == uid
    } by {
        assert(before.is_registered(netuid, before.key_of(netuid, uid)));
    }
}

/// A registration by the system keeps slots and hotkeys in agreement, whatever comes of it,
/// on a network with slots or neurons.
pub proof fn law_system_registration_keeps_agreement(
    state: State,
    origin: Origin,
    netuid: u16,
    hotkey: AccountId,
    coldkey: AccountId,
    stake: u64,
    balance: u64,
)
    requires
        state.slots_agree(),
        state.size_of(netuid) > 0 || state.parameters_of(netuid).max_allowed_uids > 0,
    ensures
        state.system_registration(
            origin,
            netuid,
            hotkey,
            coldkey,
            stake,
            balance,
        ).state.slots_agree(),
{
    let outcome = state.system_registration(origin, netuid, hotkey, coldkey, stake, balance);
    if outcome.result is Ok {
        let funded = state.with_account(coldkey, hotkey).with_more_stake(
            coldkey@,
            hotkey@,
            stake,
        ).with_deposit(coldkey@, balance);
        lemma_agreement_carries_over(state, funded);
        lemma_with_slot_agrees(funded, netuid, hotkey);
        lemma_agreement_carries_over(funded.with_slot(netuid, hotkey), outcome.state);
    } else {
        lemma_agreement_carries_over(state, outcome.state);
    }
}

/// A registration by burning keeps slots and hotkeys in agreement, whatever comes of it.
pub proof fn law_burned_registration_keeps_agreement(
    state: State,
    coldkey: AccountId,
    netuid: u16,
    hotkey: AccountId,
)
    requires
        state.slots_agree(),
    ensures
        state.burned_registration(coldkey, netuid, hotkey).state.slots_agree(),
{
    let outcome = state.burned_registration(coldkey, netuid, hotkey);
    if outcome.result is Ok {
        let created = state.with_burned(netuid, coldkey@).with_account(coldkey, hotkey);
        lemma_agreement_carries_over(state, created);
        lemma_with_slot_agrees(created, netuid, hotkey);
        lemma_agreement_carries_over(created.with_slot(netuid, hotkey), outcome.state);
    } else {
        lemma_agreement_carries_over(state, outcome.state);
    }
}

/// A registration by work keeps slots and hotkeys in agreement, whatever comes of it.
pub proof fn law_work_registration_keeps_agreement(
    state: State,
    netuid: u16,
    block_number: u64,
    nonce: u64,
    work: Seq<u8>,
    hotkey: AccountId,
    coldkey: AccountId,
)
    requires
        state.slots_agree(),
    ensures
        state.work_registration(
            netuid,
            block_number,
            nonce,
            work,
            hotkey,
            coldkey,
        ).state.slots_agree(),
{
    let outcome = state.work_registration(netuid, block_number, nonce, work, hotkey, coldkey);
    if outcome.result is Ok {
        let created = state.with_used_work(work).with_account(coldkey, hotkey);
        lemma_agreement_carries_over(state, created);
        lemma_with_slot_agrees(created, netuid, hotkey);
        lemma_agreement_carries_over(created.with_slot(netuid, hotkey), outcome.state);
    } else {
        lemma_agreement_carries_over(state, outcome.state);
    }
}

/// Neither association nor disassociation touches slots and hotkeys: what agreed of them
/// still does.
pub proof fn law_association_keeps_neurons(
    state: State,
    coldkey: AccountId,
    hotkey: AccountId,
    verified: bool,
)
    ensures
        ({
            let associated = state.association(coldkey, hotkey, verified).state;
            let disassociated = state.disassociation(coldkey, hotkey).state;
            &&& associated.uids == state.uids
            &&& associated.keys == state.keys
            &&& associated.subnetwork_n == state.subnetwork_n
            &&& disassociated.uids == state.uids
            &&& disassociated.keys == state.keys
            &&& disassociated.subnetwork_n == state.subnetwork_n
            &&& state.slots_agree() ==> associated.slots_agree() && disassociated.slots_agree()
        }),
{
    if state.slots_agree() {
        lemma_agreement_carries_over(state, state.association(coldkey, hotkey, verified).state);
        lemma_agreement_carries_over(state, state.disassociation(coldkey, hotkey).state);
    }
}

/// A registration by the system that succeeds gives the hotkey the next slot, and its
/// coldkey the hotkey. It counts against no quota.
pub proof fn law_system_registration_registers(
    state: State,
    origin: Origin,
    netuid: u16,
    hotkey: AccountId,
    coldkey: AccountId,
    stake: u64,
    balance: u64,
)
    requires
        state.system_registration(origin, netuid, hotkey, coldkey, stake, balance).result is Ok,
    ensures
        ({
            let after = state.system_registration(
                origin,
                netuid,
                hotkey,
                coldkey,
                stake,
                balance,
            ).state;
            &&& after.has_just_registered(netuid, state.next_slot(netuid), hotkey, coldkey)
            &&& after.counters == state.counters
            &&& after.used_work == state.used_work
            &&& after.total_issuance == state.total_issuance
            &&& origin == Origin::Root
        }),
{
    lemma_next_slot_rests_on_neurons(
        state,
        state.with_account(coldkey, hotkey).with_more_stake(coldkey@, hotkey@, stake).with_deposit(
            coldkey@,
            balance,
        ),
        netuid,
    );
}

/// The next slot rests on neurons, scores and the network's hyperparameters alone.
pub(crate) proof fn lemma_next_slot_rests_on_neurons(before: State, after: State, netuid: u16)
    requires
        after.block_number == before.block_number,
        after.parameters_of(netuid) == before.parameters_of(netuid),
        after.subnetwork_n == before.subnetwork_n,
        after.block_at_registration == before.block_at_registration,
        after.pruning_scores == before.pruning_scores,
    ensures
        after.next_slot(netuid) == before.next_slot(netuid),
        after.slot_to_prune(netuid) == before.slot_to_prune(netuid),
{
    if before.size_of(netuid) > 0 {
        law_always_one_to_prune(before, netuid);
        law_always_one_to_prune(after, netuid);
        let uid = after.slot_to_prune(netuid);
        assert(forall|u: u16| #[trigger]
            after.is_immune(netuid, u) == before.is_immune(netuid, u));
        assert(forall|u: u16| #[trigger]
            before.is_immune(netuid, u) == after.is_immune(netuid, u));
        assert(forall|u: u16| #[trigger]
            before.score_of(netuid, u) == after.score_of(netuid, u));
        assert(before.is_to_prune(netuid, uid));
        law_at_most_one_to_prune(before, netuid, uid, before.slot_to_prune(netuid));
    }
}

/// A registration by burning that succeeds gives the hotkey the next slot, and the coldkey
/// that signed the hotkey. It is counted once, the coldkey has paid the burn, which has left
/// the issuance and is recorded as recycled.
pub proof fn law_burned_registration_registers(
    state: State,
    coldkey: AccountId,
    netuid: u16,
    hotkey: AccountId,
)
    requires
        state.counters_add_up(netuid),
        state.quota_fits(netuid),
        state.burned_registration(coldkey, netuid, hotkey).result is Ok,
    ensures
        ({
            let after = state.burned_registration(coldkey, netuid, hotkey).state;
            let burn = state.parameters_of(netuid).burn;
            &&& after.has_just_registered(netuid, state.next_slot(netuid), hotkey, coldkey)
            &&& after.counters_of(netuid).this_block == state.counters_of(netuid).this_block + 1
            &&& after.counters_of(netuid).this_interval == state.counters_of(netuid).this_interval
                + 1
            &&& after.counters_of(netuid).burn_this_interval == state.counters_of(
                netuid,
            ).burn_this_interval + 1
            &&& after.counters_of(netuid).pow_this_interval == state.counters_of(
                netuid,
            ).pow_this_interval
            &&& after.balance_of(coldkey@) == state.balance_of(coldkey@) - burn
            &&& after.total_issuance == saturating_difference(state.total_issuance, burn)
            &&& after.recycled_of(netuid) == saturating_sum(state.recycled_of(netuid), burn)
            &&& after.used_work == state.used_work
        }),
{
    let created = state.with_burned(netuid, coldkey@).with_account(coldkey, hotkey);
    lemma_next_slot_rests_on_neurons(state, created, netuid);
    let counters = state.counters_of(netuid);
    assert(created.with_slot(netuid, hotkey).counters_of(netuid) == counters);
}

/// A registration by work that succeeds gives the hotkey the next slot, and the coldkey the
/// hotkey. It is counted once, and the work has been used; nothing is paid.
pub proof fn law_work_registration_registers(
    state: State,
    netuid: u16,
    block_number: u64,
    nonce: u64,
    work: Seq<u8>,
    hotkey: AccountId,
    coldkey: AccountId,
)
    requires
        state.counters_add_up(netuid),
        state.quota_fits(netuid),
        state.work_registration(
            netuid,
            block_number,
            nonce,
            work,
            hotkey,
            coldkey,
        ).result is Ok,
    ensures
        ({
            let after = state.work_registration(
                netuid,
                block_number,
                nonce,
                work,
                hotkey,
                coldkey,
            ).state;
            &&& after.has_just_registered(netuid, state.next_slot(netuid), hotkey, coldkey)
            &&& after.counters_of(netuid).this_block == state.counters_of(netuid).this_block + 1
            &&& after.counters_of(netuid).this_interval == state.counters_of(netuid).this_interval
                + 1
            &&& after.counters_of(netuid).pow_this_interval == state.counters_of(
                netuid,
            ).pow_this_interval + 1
            &&& after.counters_of(netuid).burn_this_interval == state.counters_of(
                netuid,
            ).burn_this_interval
            &&& after.used_work == state.used_work.insert(work, state.block_number)
            &&& after.balances == state.balances
            &&& after.total_issuance == state.total_issuance
        }),
{
    let created = state.with_used_work(work).with_account(coldkey, hotkey);
    lemma_next_slot_rests_on_neurons(state, created, netuid);
    let counters = state.counters_of(netuid);
    assert(created.with_slot(netuid, hotkey).counters_of(netuid) == counters);
}

/// Registrations by burning and by work never exceed the quotas of the block and the interval,
/// and a network within its size stays within it.
pub proof fn law_quotas_hold(
    state: State,
    netuid: u16,
    block_number: u64,
    nonce: u64,
    work: Seq<u8>,
    hotkey: AccountId,
    coldkey: AccountId,
)
    requires
        state.counters_add_up(netuid),
        state.quota_fits(netuid),
    ensures
        ({
            let parameters = state.parameters_of(netuid);
            let burned = state.burned_registration(coldkey, netuid, hotkey);
            let worked = state.work_registration(
                netuid,
                block_number,
                nonce,
                work,
                hotkey,
                coldkey,
            );
            &&& burned.result is Ok ==> {
                &&& burned.state.counters_of(netuid).this_block
                    <= parameters.max_registrations_per_block
                &&& burned.state.counters_of(netuid).this_interval
                    <= parameters.target_registrations_per_interval * 3
            }
            &&& worked.result is Ok ==> {
                &&& worked.state.counters_of(netuid).this_block
                    <= parameters.max_registrations_per_block
                &&& worked.state.counters_of(netuid).this_interval
                    <= parameters.target_registrations_per_interval * 3
            }
            &&& state.size_of(netuid) <= parameters.max_allowed_uids ==> {
                &&& burned.state.size_of(netuid) <= parameters.max_allowed_uids
                &&& worked.state.size_of(netuid) <= parameters.max_allowed_uids
            }
        }),
{
    if state.burned_registration(coldkey, netuid, hotkey).result is Ok {
        law_burned_registration_registers(state, coldkey, netuid, hotkey);
    }
    if state.work_registration(
        netuid,
        block_number,
        nonce,
        work,
        hotkey,
        coldkey,
    ).result is Ok {
        law_work_registration_registers(
            state,
            netuid,
            block_number,
            nonce,
            work,
            hotkey,
            coldkey,
        );
    }
}

/// A network within its size stays within it when the system registers.
pub proof fn law_system_registration_keeps_size(
    state: State,
    origin: Origin,
    netuid: u16,
    hotkey: AccountId,
    coldkey: AccountId,
    stake: u64,
    balance: u64,
)
    requires
        state.size_of(netuid) <= state.parameters_of(netuid).max_allowed_uids,
    ensures
        state.system_registration(
            origin,
            netuid,
            hotkey,
            coldkey,
            stake,
            balance,
        ).state.size_of(netuid) <= state.parameters_of(netuid).max_allowed_uids,
{
}

/// Work registers once: what a registration has used, no registration is given for again, on
/// any network, for any keys.
pub proof fn law_used_work_is_refused(
    state: State,
    netuid: u16,
    block_number: u64,
    nonce: u64,
    work: Seq<u8>,
    hotkey: AccountId,
    coldkey: AccountId,
)
    requires
        state.used_work.dom().contains(work),
    ensures
        ({
            let outcome = state.work_registration(
                netuid,
                block_number,
                nonce,
                work,
                hotkey,
                coldkey,
            );
            outcome.result is Err && outcome.state == state
        }),
{
}

/// Once a hotkey has a slot on a network, it gets no other there.
pub proof fn law_registered_hotkey_is_refused(
    state: State,
    origin: Origin,
    netuid: u16,
    block_number: u64,
    nonce: u64,
    work: Seq<u8>,
    hotkey: AccountId,
    coldkey: AccountId,
    stake: u64,
    balance: u64,
)
    requires
        state.is_registered(netuid, hotkey@),
    ensures
        ({
            let by_system = state.system_registration(
                origin,
                netuid,
                hotkey,
                coldkey,
                stake,
                balance,
            );
            let burned = state.burned_registration(coldkey, netuid, hotkey);
            let worked = state.work_registration(
                netuid,
                block_number,
                nonce,
                work,
                hotkey,
                coldkey,
            );
            &&& by_system.result is Err && by_system.state == state
            &&& burned.result is Err && burned.state == state
            &&& worked.result is Err && worked.state == state
        }),
{
}

/// Work counts only on the current block and the two before it, and only where it is the seal
/// of the block and the nonce and meets the difficulty.
pub proof fn law_accepted_work_is_recent_and_hard(
    state: State,
    netuid: u16,
    block_number: u64,
    nonce: u64,
    work: Seq<u8>,
    hotkey: AccountId,
    coldkey: AccountId,
)
    requires
        state.work_registration(
            netuid,
            block_number,
            nonce,
            work,
            hotkey,
            coldkey,
        ).result is Ok,
    ensures
        block_number <= state.block_number < block_number + 3,
        work == state.seal(block_number, nonce),
        state.seal_is_work(netuid, block_number, nonce),
        !state.used_work.dom().contains(work),
{
}

/// The work that is created for a recent block is good for a registration on the network: if
/// it was not used, the hotkey is admitted and belongs to the coldkey or to nobody, and the
/// network has slots, the hotkey is registered.
pub proof fn law_created_work_registers(
    state: State,
    netuid: u16,
    block_number: u64,
    start_nonce: u64,
    nonce: u64,
    hotkey: AccountId,
    coldkey: AccountId,
)
    requires
        state.is_first_work(netuid, block_number, start_nonce, nonce),
        state.quota_error(netuid, hotkey@) is None,
        block_number <= state.block_number < block_number + 3,
        !state.used_work.dom().contains(state.seal(block_number, nonce)),
        state.passes_requirements(netuid, hotkey@),
        state.owner.dom().contains(hotkey@) ==> state.owner[hotkey@] == coldkey,
        state.parameters_of(netuid).max_allowed_uids > 0,
    ensures
        state.work_registration(
            netuid,
            block_number,
            nonce,
            state.seal(block_number, nonce),
            hotkey,
            coldkey,
        ).result is Ok,
{
}

/// A refused registration leaves neurons, counters and events as they were.
pub proof fn law_refusal_registers_nobody(
    state: State,
    origin: Origin,
    netuid: u16,
    block_number: u64,
    nonce: u64,
    work: Seq<u8>,
    hotkey: AccountId,
    coldkey: AccountId,
    stake: u64,
    balance: u64,
)
    ensures
        ({
            let by_system = state.system_registration(
                origin,
                netuid,
                hotkey,
                coldkey,
                stake,
                balance,
            );
            let burned = state.burned_registration(coldkey, netuid, hotkey);
            let worked = state.work_registration(
                netuid,
                block_number,
                nonce,
                work,
                hotkey,
                coldkey,
            );
            &&& by_system.result is Err ==> by_system.state.same_neurons(state)
            &&& burned.result is Err ==> burned.state.same_neurons(state)
            &&& worked.result is Err ==> worked.state.same_neurons(state)
        }),
{
}

impl State {
    /// The two states hold the same of the network.
    pub open spec fn same_network(self, other: State, netuid: u16) -> bool {
        &&& self.network_exists(netuid) == other.network_exists(netuid)
        &&& self.parameters_of(netuid) == other.parameters_of(netuid)
        &&& self.size_of(netuid) == other.size_of(netuid)
        &&& self.counters_of(netuid) == other.counters_of(netuid)
        &&& self.recycled_of(netuid) == other.recycled_of(netuid)
        &&& forall|hotkey: Seq<u8>|
            {
                &&& #[trigger] self.is_registered(netuid, hotkey) == other.is_registered(
                    netuid,
                    hotkey,
                )
                &&& self.uids[(netuid, hotkey)] == other.uids[(netuid, hotkey)]
            }
        &&& forall|uid: u16|
            {
                &&& #[trigger] self.key_of(netuid, uid) == other.key_of(netuid, uid)
                &&& self.registered_at(netuid, uid) == other.registered_at(netuid, uid)
                &&& self.score_of(netuid, uid) == other.score_of(netuid, uid)
            }
    }
}

/// A registration on one network leaves every other network as it was.
pub proof fn law_other_networks_are_untouched(
    state: State,
    other: u16,
    origin: Origin,
    netuid: u16,
    block_number: u64,
    nonce: u64,
    work: Seq<u8>,
    hotkey: AccountId,
    coldkey: AccountId,
    stake: u64,
    balance: u64,
)
    requires
        other != netuid,
    ensures
        state.system_registration(
            origin,
            netuid,
            hotkey,
            coldkey,
            stake,
            balance,
        ).state.same_network(state, other),
        state.burned_registration(coldkey, netuid, hotkey).state.same_network(state, other),
        state.work_registration(
            netuid,
            block_number,
            nonce,
            work,
            hotkey,
            coldkey,
        ).state.same_network(state, other),
{
}

/// Association gives the hotkey to the coldkey, and association and disassociation undo each
/// other: after both, a hotkey that belonged to nobody, was not in use and bore no stake
/// belongs to nobody and bears none, and only the events tell.
pub proof fn law_disassociation_undoes_association(
    state: State,
    coldkey: AccountId,
    hotkey: AccountId,
)
    requires
        !state.owner.dom().contains(hotkey@),
        !state.is_registered_anywhere(hotkey@),
        !state.delegates.dom().contains(hotkey@),
        !state.stake.dom().contains((coldkey@, hotkey@)),
    ensures
        ({
            let associated = state.association(coldkey, hotkey, true);
            let back = associated.state.disassociation(coldkey, hotkey);
            &&& associated.result is Ok
            &&& associated.state.owns(coldkey, hotkey@)
            &&& back.result is Ok
            &&& back.state == (State {
                events: state.events.push(Event::HotkeyAssociated(coldkey, hotkey)).push(
                    Event::HotkeyDisassociated(coldkey, hotkey),
                ),
                ..state
            })
        }),
{
    let associated = state.association(coldkey, hotkey, true).state;
    assert forall|netuid: u16| !#[trigger] associated.is_registered(netuid, hotkey@) by {
        assert(!state.is_registered(netuid, hotkey@));
    }
    let back = associated.disassociation(coldkey, hotkey).state;
    assert(back.owner =~= state.owner);
    assert(back.stake =~= state.stake);
}

/// An associated hotkey cannot be associated again, by anyone, its owner included.
pub proof fn law_associated_hotkey_is_refused(
    state: State,
    coldkey: AccountId,
    hotkey: AccountId,
    verified: bool,
)
    requires
        state.owner.dom().contains(hotkey@),
    ensures
        state.association(coldkey, hotkey, verified).result == Err::<(), Error>(
            Error::AlreadyRegistered,
        ),
        state.association(coldkey, hotkey, verified).state == state,
{
}

/// Only the owner of an associated hotkey can give it up.
pub proof fn law_only_the_owner_disassociates(
    state: State,
    coldkey: AccountId,
    hotkey: AccountId,
)
    requires
        state.owner.dom().contains(hotkey@),
        state.owner[hotkey@] != coldkey,
    ensures
        state.disassociation(coldkey, hotkey).result == Err::<(), Error>(Error::NotHotkeyOwner),
        state.disassociation(coldkey, hotkey).state == state,
{
    if state.owner[hotkey@]@ == coldkey@ {
        assert(state.owner[hotkey@] =~= coldkey);
    }
}

/// A hotkey that has been given up has no slot anywhere, is no delegate, and its coldkey's
/// stake on it was zero: nothing is lost with it.
pub proof fn law_disassociated_hotkey_is_idle(
    state: State,
    coldkey: AccountId,
    hotkey: AccountId,
)
    requires
        state.disassociation(coldkey, hotkey).result is Ok,
    ensures
        ({
            let after = state.disassociation(coldkey, hotkey).state;
            &&& !after.is_registered_anywhere(hotkey@)
            &&& !after.delegates.dom().contains(hotkey@)
            &&& !after.owner.dom().contains(hotkey@)
            &&& state.stake_of(coldkey@, hotkey@) == 0
            &&& forall|other: Seq<u8>, key: Seq<u8>| #[trigger]
                after.stake_of(other, key) == state.stake_of(other, key)
        }),
{
    let after = state.disassociation(coldkey, hotkey).state;
    assert forall|netuid: u16| !#[trigger] after.is_registered(netuid, hotkey@) by {
        assert(!state.is_registered(netuid, hotkey@));
    }
}

} // verus!
