//! Which neuron leaves a full network.
use crate::pallet::{lemma_keeps_well_formed, Pallet, State};
use vstd::prelude::*;

verus! {

impl State {
    /// Whether the neuron in the slot is in its immunity period: it was registered
    /// fewer blocks ago than the period is long.
    pub open spec fn is_immune(self, netuid: u16, uid: u16) -> bool {
        self.block_number - self.registered_at(netuid, uid) < self.parameters_of(
            netuid,
        ).immunity_period
    }

    /// Whether every neuron of the network is in its immunity period.
    pub open spec fn all_immune(self, netuid: u16) -> bool {
        forall|uid: u16| uid < self.size_of(netuid) ==> #[trigger] self.is_immune(netuid, uid)
    }

    /// Whether no neuron outside its immunity period has a lower pruning score than
    /// this one, and none with the same score has a later slot.
    pub open spec fn is_lowest_outside_immunity(self, netuid: u16, uid: u16) -> bool {
        &&& !self.is_immune(netuid, uid)
        &&& forall|other: u16|
            other < self.size_of(netuid) && !#[trigger] self.is_immune(netuid, other)
                ==> self.score_of(netuid, uid) <= self.score_of(netuid, other) && (self.score_of(
                netuid,
                uid,
            ) == self.score_of(netuid, other) ==> other <= uid)
    }

    /// Whether no neuron has a lower pruning score than this one, and none with the same
    /// score has an earlier slot; or, where every neuron has the highest score, whether
    /// this one has the last slot.
    pub open spec fn is_lowest(self, netuid: u16, uid: u16) -> bool {
        forall|other: u16|
            other < self.size_of(netuid) ==> {
                &&& self.score_of(netuid, uid) <= #[trigger] self.score_of(netuid, other)
                &&& self.score_of(netuid, uid) == self.score_of(netuid, other) ==> if self.score_of(
                    netuid,
                    uid,
                ) == u16::MAX {
                    other <= uid
                } else {
                    uid <= other
                }
            }
    }

    /// Whether the neuron in the slot is the one to prune: the lowest outside the
    /// immunity period, or the lowest of all where all are in it.
    pub open spec fn is_to_prune(self, netuid: u16, uid: u16) -> bool {
        &&& uid < self.size_of(netuid)
        &&& if self.all_immune(netuid) {
            self.is_lowest(netuid, uid)
        } else {
            self.is_lowest_outside_immunity(netuid, uid)
        }
    }

    /// The slot of the neuron to prune; zero on a network without neurons.
    pub open spec fn slot_to_prune(self, netuid: u16) -> u16 {
        if self.size_of(netuid) == 0 {
            0
        } else {
            choose|uid: u16| self.is_to_prune(netuid, uid)
        }
    }

    /// The neuron to prune has been given the highest score.
    pub open spec fn with_pruned(self, netuid: u16) -> State {
        if self.size_of(netuid) == 0 {
            self
        } else {
            self.with_score(netuid, self.slot_to_prune(netuid), u16::MAX)
        }
    }
}

/// At most one neuron is the one to prune.
pub proof fn law_at_most_one_to_prune(state: State, netuid: u16, uid: u16, other: u16)
    requires
        state.is_to_prune(netuid, uid),
        state.is_to_prune(netuid, other),
    ensures
        uid == other,
{
    if state.all_immune(netuid) {
        assert(state.score_of(netuid, uid) <= state.score_of(netuid, other));
        assert(state.score_of(netuid, other) <= state.score_of(netuid, uid));
    } else {
        assert(!state.is_immune(netuid, uid) && !state.is_immune(netuid, other));
    }
}

/// The lowest of the first `count` neurons outside the immunity period, the last of them
/// where several are, if there is one.
proof fn lemma_lowest_outside_immunity(state: State, netuid: u16, count: int) -> (lowest: Option<
    u16,
>)
    requires
        0 <= count <= state.size_of(netuid),
    ensures
        lowest is None ==> forall|other: u16|
            other < count ==> #[trigger] state.is_immune(netuid, other),
        lowest matches Some(uid) ==> {
            &&& uid < count
            &&& !state.is_immune(netuid, uid)
            &&& forall|other: u16|
                other < count && !#[trigger] state.is_immune(netuid, other) ==> state.score_of(
                    netuid,
                    uid,
                ) <= state.score_of(netuid, other) && (state.score_of(netuid, uid)
                    == state.score_of(netuid, other) ==> other <= uid)
        },
    decreases count,
{
    if count == 0 {
        None
    } else {
        let before = lemma_lowest_outside_immunity(state, netuid, count - 1);
        let uid = (count - 1) as u16;
        if state.is_immune(netuid, uid) {
            before
        } else if before is None || state.score_of(netuid, uid) <= state.score_of(
            netuid,
            before->0,
        ) {
            Some(uid)
        } else {
            before
        }
    }
}

/// The lowest of the first `count` neurons: the first of them where several are, the last
/// where all have the highest score.
proof fn lemma_lowest(state: State, netuid: u16, count: int) -> (lowest: u16)
    requires
        0 < count <= state.size_of(netuid),
    ensures
        lowest < count,
        forall|other: u16|
            other < count ==> {
                &&& state.score_of(netuid, lowest) <= #[trigger] state.score_of(netuid, other)
                &&& state.score_of(netuid, lowest) == state.score_of(netuid, other)
                    ==> if state.score_of(netuid, lowest) == u16::MAX {
                    other <= lowest
                } else {
                    lowest <= other
                }
            },
    decreases count,
{
    let uid = (count - 1) as u16;
    if count == 1 {
        uid
    } else {
        let before = lemma_lowest(state, netuid, count - 1);
        if state.score_of(netuid, uid) < state.score_of(netuid, before) || state.score_of(
            netuid,
            before,
        ) == u16::MAX {
            uid
        } else {
            before
        }
    }
}

/// On a network with neurons, there is always one to prune.
pub proof fn law_always_one_to_prune(state: State, netuid: u16)
    requires
        state.size_of(netuid) > 0,
    ensures
        state.is_to_prune(netuid, state.slot_to_prune(netuid)),
        state.slot_to_prune(netuid) < state.size_of(netuid),
{
    let uid = match lemma_lowest_outside_immunity(state, netuid, state.size_of(netuid) as int) {
        Some(uid) => uid,
        None => lemma_lowest(state, netuid, state.size_of(netuid) as int),
    };
    assert(state.is_to_prune(netuid, uid));
}

/// A neuron in its immunity period is pruned only where all are in it.
pub proof fn law_immune_neurons_are_spared(state: State, netuid: u16)
    requires
        state.size_of(netuid) > 0,
        !state.all_immune(netuid),
    ensures
        !state.is_immune(netuid, state.slot_to_prune(netuid)),
{
    law_always_one_to_prune(state, netuid);
}

/// The neuron to prune has the lowest pruning score of those outside the immunity period
/// or, where all neurons are in it, of all.
pub proof fn law_lowest_score_is_pruned(state: State, netuid: u16, other: u16)
    requires
        other < state.size_of(netuid),
        state.all_immune(netuid) || !state.is_immune(netuid, other),
    ensures
        state.score_of(netuid, state.slot_to_prune(netuid)) <= state.score_of(netuid, other),
{
    law_always_one_to_prune(state, netuid);
}

/// In the event that every peer has been pruned, so that every score is the highest, the
/// last one is pruned continually: it is the one to prune, and still is after it has been
/// pruned. (Where some of the peers are immune and some are not, the immune ones are spared.)
pub proof fn law_last_is_pruned_continually(state: State, netuid: u16)
    requires
        state.size_of(netuid) > 0,
        forall|uid: u16|
            uid < state.size_of(netuid) ==> #[trigger] state.score_of(netuid, uid) == u16::MAX,
        state.all_immune(netuid) || !state.is_immune(netuid, (state.size_of(netuid) - 1) as u16),
    ensures
        state.slot_to_prune(netuid) == state.size_of(netuid) - 1,
        state.with_pruned(netuid).slot_to_prune(netuid) == state.size_of(netuid) - 1,
{
    let last = (state.size_of(netuid) - 1) as u16;
    assert(state.is_to_prune(netuid, last));
    law_always_one_to_prune(state, netuid);
    law_at_most_one_to_prune(state, netuid, last, state.slot_to_prune(netuid));
    let after = state.with_pruned(netuid);
    assert forall|uid: u16| uid < after.size_of(netuid) implies #[trigger] after.score_of(
        netuid,
        uid,
    ) == u16::MAX by {
        assert(uid < state.size_of(netuid) ==> state.score_of(netuid, uid) == u16::MAX);
    }
    assert(forall|uid: u16|
        after.is_immune(netuid, uid) == #[trigger] state.is_immune(netuid, uid));
    assert(forall|uid: u16| #[trigger]
        after.is_immune(netuid, uid) == state.is_immune(netuid, uid));
    assert(after.all_immune(netuid) == state.all_immune(netuid));
    assert(after.is_to_prune(netuid, last));
    law_always_one_to_prune(after, netuid);
    law_at_most_one_to_prune(after, netuid, last, after.slot_to_prune(netuid));
}

/// Where some neuron was registered at least the network's immunity period ago, so was the
/// one to prune; of all such neurons it has the lowest score, and of those with the same
/// score the last slot.
pub proof fn law_pruned_neuron_is_past_the_networks_period(state: State, netuid: u16, past: u16)
    requires
        past < state.size_of(netuid),
        state.block_number - state.registered_at(netuid, past) >= state.parameters_of(
            netuid,
        ).immunity_period,
    ensures
        state.slot_to_prune(netuid) < state.size_of(netuid),
        state.block_number - state.registered_at(netuid, state.slot_to_prune(netuid))
            >= state.parameters_of(netuid).immunity_period,
        state.score_of(netuid, state.slot_to_prune(netuid)) <= state.score_of(netuid, past),
        state.score_of(netuid, state.slot_to_prune(netuid)) == state.score_of(netuid, past)
            ==> past <= state.slot_to_prune(netuid),
{
    law_always_one_to_prune(state, netuid);
    assert(!state.is_immune(netuid, past));
}

/// Where every neuron was registered fewer blocks ago than the network's immunity period is
/// long, the one to prune has the lowest score of all. Of those with the same score it has the
/// first slot, or the last where the score is the highest there is.
pub proof fn law_lowest_goes_where_all_are_within_the_networks_period(
    state: State,
    netuid: u16,
    other: u16,
)
    requires
        other < state.size_of(netuid),
        forall|uid: u16|
            uid < state.size_of(netuid) ==> state.block_number - #[trigger] state.registered_at(
                netuid,
                uid,
            ) < state.parameters_of(netuid).immunity_period,
    ensures
        state.slot_to_prune(netuid) < state.size_of(netuid),
        state.score_of(netuid, state.slot_to_prune(netuid)) <= state.score_of(netuid, other),
        state.score_of(netuid, state.slot_to_prune(netuid)) == state.score_of(netuid, other)
            && state.score_of(netuid, other) < u16::MAX ==> state.slot_to_prune(netuid) <= other,
        state.score_of(netuid, state.slot_to_prune(netuid)) == state.score_of(netuid, other)
            && state.score_of(netuid, other) == u16::MAX ==> other <= state.slot_to_prune(netuid),
{
    law_always_one_to_prune(state, netuid);
    assert forall|uid: u16| uid < state.size_of(netuid) implies #[trigger] state.is_immune(
        netuid,
        uid,
    ) by {
        assert(state.block_number - state.registered_at(netuid, uid) < state.parameters_of(
            netuid,
        ).immunity_period);
    }
}

/// Pruning gives the neuron to prune the highest score and changes nothing else; a network
/// without neurons is left as it is.
pub proof fn law_pruning_only_raises_the_score(state: State, netuid: u16)
    ensures
        state.size_of(netuid) == 0 ==> state.with_pruned(netuid) == state
            && state.slot_to_prune(netuid) == 0,
        state.size_of(netuid) > 0 ==> state.with_pruned(netuid) == (State {
            pruning_scores: state.pruning_scores.insert(
                (netuid, state.slot_to_prune(netuid)),
                u16::MAX,
            ),
            ..state
        }),
{
}

impl Pallet {
    /// Determines which peer to prune from the network: the one with the lowest pruning
    /// score out of the immunity period or, if all neurons are in the immunity period, the
    /// one with the lowest pruning score. Gives it the highest score, so that every peer
    /// always has one. Where every candidate has the highest score already, the last of
    /// them is taken.
    pub fn get_neuron_to_prune(&mut self, netuid: u16) -> (pruned: u16)
        requires
            old(self)@.well_formed(),
        ensures
            old(self)@.size_of(netuid) == 0 ==> pruned == 0,
            old(self)@.size_of(netuid) > 0 ==> old(self)@.is_to_prune(netuid, pruned),
            pruned == old(self)@.slot_to_prune(netuid),
            final(self)@ == old(self)@.with_pruned(netuid),
            final(self)@.well_formed(),
    {
        let n = self.get_subnetwork_n(netuid);
        if n == 0 {
            return 0;
        }
        let ghost state = self@;
        let current_block = self.block_number;
        let immunity_period: u64 = self.get_hyperparameters(netuid).immunity_period as u64;
        let mut min_score: u16 = u16::MAX;
        let mut min_score_in_immunity_period: u16 = u16::MAX;
        let mut uid_with_min_score: Option<u16> = None;
        let mut uid_with_min_score_in_immunity_period: u16 = 0;
        let mut uid: u16 = 0;
        while uid < n
            invariant
                self@ == state,
                state.well_formed(),
                n == state.size_of(netuid),
                current_block == state.block_number,
                immunity_period == state.parameters_of(netuid).immunity_period,
                uid <= n,
                uid_with_min_score is None ==> forall|other: u16|
                    other < uid ==> #[trigger] state.is_immune(netuid, other),
                uid_with_min_score matches Some(lowest) ==> {
                    &&& lowest < uid
                    &&& !state.is_immune(netuid, lowest)
                    &&& min_score == state.score_of(netuid, lowest)
                    &&& forall|other: u16|
                        other < uid && !#[trigger] state.is_immune(netuid, other) ==> min_score
                            <= state.score_of(netuid, other) && (min_score == state.score_of(
                            netuid,
                            other,
                        ) ==> other <= lowest)
                },
                uid_with_min_score is None ==> min_score == u16::MAX,
                uid == 0 ==> min_score_in_immunity_period == u16::MAX,
                uid > 0 && uid_with_min_score is None ==> {
                    &&& uid_with_min_score_in_immunity_period < uid
                    &&& min_score_in_immunity_period == state.score_of(
                        netuid,
                        uid_with_min_score_in_immunity_period,
                    )
                    &&& forall|other: u16|
                        other < uid ==> {
                            &&& min_score_in_immunity_period <= #[trigger] state.score_of(
                                netuid,
                                other,
                            )
                            &&& min_score_in_immunity_period == state.score_of(netuid, other)
                                ==> if min_score_in_immunity_period == u16::MAX {
                                other <= uid_with_min_score_in_immunity_period
                            } else {
                                uid_with_min_score_in_immunity_period <= other
                            }
                        }
                },
            decreases n - uid,
        {
            let pruning_score = self.get_pruning_score_for_uid(netuid, uid);
            let block_at_registration = self.get_neuron_block_at_registration(netuid, uid);
            if current_block - block_at_registration < immunity_period {
                // The neuron is in its immunity period: the first one with the lowest score
                // counts, the last one while no score is below the highest.
                if pruning_score < min_score_in_immunity_period || (pruning_score == u16::MAX
                    && min_score_in_immunity_period == u16::MAX) {
                    min_score_in_immunity_period = pruning_score;
                    uid_with_min_score_in_immunity_period = uid;
                }
            } else if pruning_score <= min_score {
                min_score = pruning_score;
                uid_with_min_score = Some(uid);
            }
            uid += 1;
        }
        let pruned: u16 = match uid_with_min_score {
            Some(lowest) => {
                assert(!state.is_immune(netuid, lowest));
                lowest
            },
            // All neurons are in the immunity period.
            None => uid_with_min_score_in_immunity_period,
        };
        assert(state.is_to_prune(netuid, pruned));
        proof {
            law_at_most_one_to_prune(state, netuid, pruned, state.slot_to_prune(netuid));
        }
        self.set_pruning_score_for_uid(netuid, pruned, u16::MAX);
        proof {
            lemma_keeps_well_formed(state, self@);
        }
        pruned
    }
}

} // verus!
