//! The requirement that a network may set on hotkeys of a connected network.
use crate::fixed::{self, fixed_one};
use crate::pallet::{Pallet, State};
use crate::primitives::AccountId;
use vstd::prelude::*;

verus! {

/// `part / whole`, as the bits of a fixed-point number: rounded down to a multiple of
/// `2^-32`.
pub open spec fn share_bits(part: int, whole: int) -> int {
    part * fixed_one() / whole
}

/// Whether `better` of `size` is no more than `requirement` of `u16::MAX`.
pub open spec fn is_within_share(better: nat, size: u16, requirement: u16) -> bool {
    better * u16::MAX <= requirement * size
}

impl State {
    /// The slots of the network with a better pruning score than the slot `uid`.
    pub open spec fn better_slots(self, netuid: u16, uid: u16) -> Set<u16> {
        Set::new(
            |other: u16|
                other < self.size_of(netuid) && other != uid && self.score_of(netuid, other)
                    > self.score_of(netuid, uid),
        )
    }

    /// Whether the first network sets a requirement on hotkeys of the second, which exists.
    pub open spec fn is_connected(self, netuid_a: u16, netuid_b: u16) -> bool {
        self.network_exists(netuid_b) && self.network_connect.dom().contains((netuid_a, netuid_b))
    }

    /// Whether the hotkey meets the requirement of the first network on the second: it has
    /// a slot there, and the share of the slots with a better score is no more than the
    /// requirement's share of `u16::MAX`.
    pub open spec fn meets_requirement(
        self,
        netuid_a: u16,
        netuid_b: u16,
        hotkey: Seq<u8>,
    ) -> bool {
        &&& self.size_of(netuid_b) != 0
        &&& self.is_registered(netuid_b, hotkey)
        &&& is_within_share(
            self.better_slots(netuid_b, self.uids[(netuid_b, hotkey)]).len(),
            self.size_of(netuid_b),
            self.network_connect[(netuid_a, netuid_b)],
        )
    }

    /// Whether the hotkey meets the requirement of the network on every network that it is
    /// connected to.
    pub open spec fn passes_requirements(self, netuid_a: u16, hotkey: Seq<u8>) -> bool {
        forall|netuid_b: u16| #[trigger]
            self.is_connected(netuid_a, netuid_b) ==> self.meets_requirement(
                netuid_a,
                netuid_b,
                hotkey,
            )
    }
}

/// A share of at most the whole is at most one.
proof fn lemma_share_fits(part: int, whole: int)
    requires
        0 <= part <= whole,
        0 < whole,
    ensures
        0 <= share_bits(part, whole) <= fixed_one(),
        share_bits(part, whole) == (part * fixed_one()) * fixed_one() / (whole * fixed_one()),
{
    let one = fixed_one();
    assert(0 <= part * one <= one * whole) by (nonlinear_arith)
        requires
            0 <= part <= whole,
            one >= 0,
    ;
    vstd::arithmetic::div_mod::lemma_div_pos_is_pos(part * one, whole);
    vstd::arithmetic::div_mod::lemma_div_is_ordered(part * one, one * whole, whole);
    vstd::arithmetic::div_mod::lemma_div_multiples_vanish(one, whole);
    assert(one * whole == whole * one) by (nonlinear_arith);
    assert(part * one * one == one * (part * one)) by (nonlinear_arith);
    vstd::arithmetic::div_mod::lemma_div_multiples_vanish_quotient(one, part * one, whole);
}

impl Pallet {
    /// How many slots of the network have a better pruning score than the slot `uid`.
    pub fn count_better_slots(&self, netuid: u16, uid: u16) -> (better: u16)
        ensures
            better == self@.better_slots(netuid, uid).len(),
            better <= self@.size_of(netuid),
    {
        let ghost state = self@;
        let n = self.get_subnetwork_n(netuid);
        let our_score = self.get_pruning_score_for_uid(netuid, uid);
        let mut better: u16 = 0;
        let mut other: u16 = 0;
        let ghost mut found = Set::<u16>::empty();
        while other < n
            invariant
                self@ == state,
                n == state.size_of(netuid),
                our_score == state.score_of(netuid, uid),
                other <= n,
                better <= other,
                found.finite(),
                better == found.len(),
                forall|slot: u16|
                    found.contains(slot) <==> slot < other && state.better_slots(
                        netuid,
                        uid,
                    ).contains(slot),
            decreases n - other,
        {
            let other_score = self.get_pruning_score_for_uid(netuid, other);
            if other != uid && other_score > our_score {
                better = better + 1;
                proof {
                    found = found.insert(other);
                }
            }
            other += 1;
        }
        assert(found =~= state.better_slots(netuid, uid));
        better
    }

    /// Whether the hotkey in the slot `uid` of the second network, which has neurons, is in
    /// the share of the best that the first network asks for: `requirement`, of `u16::MAX`.
    pub fn is_in_top_share(&self, netuid_b: u16, uid_b: u16, requirement: u16) -> (within: bool)
        requires
            self@.size_of(netuid_b) != 0,
        ensures
            within == is_within_share(
                self@.better_slots(netuid_b, uid_b).len(),
                self@.size_of(netuid_b),
                requirement,
            ),
    {
        let n_better = self.count_better_slots(netuid_b, uid_b);
        let subnet_n = self.get_subnetwork_n(netuid_b);
        proof {
            lemma_share_fits(requirement as int, u16::MAX as int);
            lemma_share_fits(n_better as int, subnet_n as int);
            law_rounding_decides_nothing(n_better as nat, subnet_n, requirement);
        }
        let topk_percentile_requirement: i64 = fixed::div(
            fixed::from_num(requirement),
            fixed::from_num(u16::MAX),
        );
        let topk_percentile_value: i64 = fixed::div(
            fixed::from_num(n_better),
            fixed::from_num(subnet_n),
        );
        !fixed::gt(topk_percentile_value, topk_percentile_requirement)
    }

    /// Whether the hotkey passes the top-k pruning requirement in all connected networks.
    pub fn passes_network_connection_requirement(&self, netuid_a: u16, hotkey: &AccountId) -> (passes:
        bool)
        ensures
            passes == self@.passes_requirements(netuid_a, hotkey@),
    {
        proof {
            self.networks_added.lemma_keys();
        }
        let len = self.networks_added.len();
        let mut i: usize = 0;
        while i < len
            invariant
                i <= len,
                len == self.networks_added.keys().len(),
                forall|j: int|
                    #![trigger self.networks_added.keys()[j]]
                    0 <= j < i && self@.is_connected(netuid_a, self.networks_added.keys()[j])
                        ==> self@.meets_requirement(
                        netuid_a,
                        self.networks_added.keys()[j],
                        hotkey@,
                    ),
            decreases len - i,
        {
            let entry = self.networks_added.entry_at(i);
            let netuid_b = entry.0;
            if entry.1 {
                match self.network_connect.get(&(netuid_a, netuid_b)) {
                    Some(requirement) => {
                        assert(self@.is_connected(netuid_a, netuid_b));
                        // We cannot be in the top percentile of an empty network.
                        if self.get_subnetwork_n(netuid_b) == 0 {
                            return false;
                        }
                        match self.get_uid_for_net_and_hotkey(netuid_b, hotkey) {
                            Some(uid_b) => {
                                if !self.is_in_top_share(netuid_b, uid_b, requirement) {
                                    return false;
                                }
                            },
                            // Who is not registered there trivially fails.
                            None => {
                                return false;
                            },
                        }
                    },
                    None => {},
                }
            }
            i += 1;
        }
        assert forall|netuid_b: u16| #[trigger]
            self@.is_connected(netuid_a, netuid_b) implies self@.meets_requirement(
            netuid_a,
            netuid_b,
            hotkey@,
        ) by {
            assert(self.networks_added.keys().contains(netuid_b));
        }
        true
    }
}

/// A network without connections asks nothing of a hotkey.
pub proof fn law_unconnected_network_asks_nothing(state: State, netuid: u16, hotkey: Seq<u8>)
    requires
        forall|other: u16| !#[trigger] state.is_connected(netuid, other),
    ensures
        state.passes_requirements(netuid, hotkey),
{
}

/// Rounding decides nothing: the fixed-point shares compare as the exact shares do, on a
/// network of any size. Two shares that differ do so by more than fixed-point numbers are
/// apart.
pub proof fn law_rounding_decides_nothing(better: nat, size: u16, requirement: u16)
    requires
        size > 0,
    ensures
        share_bits(better as int, size as int) <= share_bits(requirement as int, u16::MAX as int)
            <==> is_within_share(better, size, requirement),
{
    let part = better as int;
    let whole = size as int;
    let asked = requirement as int;
    let most = u16::MAX as int;
    let one = fixed_one();
    let share = share_bits(part, whole);
    let limit = share_bits(asked, most);
    vstd::arithmetic::div_mod::lemma_fundamental_div_mod(part * one, whole);
    vstd::arithmetic::div_mod::lemma_fundamental_div_mod(asked * one, most);
    vstd::arithmetic::div_mod::lemma_mod_bound(part * one, whole);
    vstd::arithmetic::div_mod::lemma_mod_bound(asked * one, most);
    assert(share * whole <= part * one < (share + 1) * whole) by (nonlinear_arith)
        requires
            part * one == whole * share + (part * one) % whole,
            0 <= (part * one) % whole < whole,
    ;
    assert(limit * most <= asked * one < (limit + 1) * most) by (nonlinear_arith)
        requires
            asked * one == most * limit + (asked * one) % most,
            0 <= (asked * one) % most < most,
    ;
    if part * most <= asked * whole {
        assert(share * most <= asked * one) by (nonlinear_arith)
            requires
                share * whole <= part * one,
                part * most <= asked * whole,
                0 < whole,
                0 < most,
                0 < one,
        ;
        assert(share < limit + 1) by (nonlinear_arith)
            requires
                share * most <= asked * one < (limit + 1) * most,
                0 < most,
        ;
    }
    if share <= limit {
        assert((share + 1) * whole <= (limit + 1) * whole) by (nonlinear_arith)
            requires
                share <= limit,
                0 < whole,
        ;
        assert((part * most) * one < (limit * most) * whole + most * whole) by (nonlinear_arith)
            requires
                part * one < (limit + 1) * whole,
                0 < most,
        ;
        assert((limit * most) * whole <= (asked * whole) * one) by (nonlinear_arith)
            requires
                limit * most <= asked * one,
                0 < whole,
        ;
        assert(most * whole < one) by (nonlinear_arith)
            requires
                most == 65535,
                0 < whole <= 65535,
                one == 0x1_0000_0000,
        ;
        assert(part * most < asked * whole + 1) by (nonlinear_arith)
            requires
                (part * most) * one < (asked * whole) * one + one,
                0 < one,
        ;
    }
}

/// The slots of a network with a better score are no more than its slots.
proof fn lemma_better_slots_bound(state: State, netuid: u16, uid: u16, count: int)
    requires
        0 <= count <= state.size_of(netuid),
    ensures
        state.better_slots(netuid, uid).filter(|slot: u16| slot < count).finite(),
        state.better_slots(netuid, uid).filter(|slot: u16| slot < count).len() <= count,
    decreases count,
{
    let better = state.better_slots(netuid, uid);
    let found = better.filter(|slot: u16| slot < count);
    if count == 0 {
        assert(found =~= Set::<u16>::empty());
    } else {
        lemma_better_slots_bound(state, netuid, uid, count - 1);
        let fewer = better.filter(|slot: u16| slot < count - 1);
        let last = (count - 1) as u16;
        if better.contains(last) {
            assert(found =~= fewer.insert(last));
        } else {
            assert(found =~= fewer);
        }
    }
}

/// A requirement of all of `u16::MAX`, the top hundred percent, is met by every hotkey with
/// a slot on the connected network.
pub proof fn law_whole_share_admits_all(
    state: State,
    netuid_a: u16,
    netuid_b: u16,
    hotkey: Seq<u8>,
)
    requires
        state.size_of(netuid_b) != 0,
        state.is_registered(netuid_b, hotkey),
        state.network_connect[(netuid_a, netuid_b)] == u16::MAX,
    ensures
        state.meets_requirement(netuid_a, netuid_b, hotkey),
{
    let uid = state.uids[(netuid_b, hotkey)];
    let size = state.size_of(netuid_b);
    let better = state.better_slots(netuid_b, uid);
    lemma_better_slots_bound(state, netuid_b, uid, size as int);
    assert(better.filter(|slot: u16| slot < size as int) =~= better);
    assert(better.len() * u16::MAX <= u16::MAX * size) by (nonlinear_arith)
        requires
            better.len() <= size,
    ;
}

/// A hotkey of which no slot has a better score meets every requirement.
pub proof fn law_best_score_meets_every_requirement(
    state: State,
    netuid_a: u16,
    netuid_b: u16,
    hotkey: Seq<u8>,
)
    requires
        state.size_of(netuid_b) != 0,
        state.is_registered(netuid_b, hotkey),
        forall|slot: u16|
            slot < state.size_of(netuid_b) ==> #[trigger] state.score_of(netuid_b, slot)
                <= state.score_of(netuid_b, state.uids[(netuid_b, hotkey)]),
    ensures
        state.meets_requirement(netuid_a, netuid_b, hotkey),
{
    let better = state.better_slots(netuid_b, state.uids[(netuid_b, hotkey)]);
    assert(better =~= Set::<u16>::empty());
}

/// The requirements of connected networks rest on neurons, scores and connections alone.
pub(crate) proof fn lemma_requirements_rest_on_neurons(
    before: State,
    after: State,
    netuid: u16,
    hotkey: Seq<u8>,
)
    requires
        after.networks_added == before.networks_added,
        after.network_connect == before.network_connect,
        after.subnetwork_n == before.subnetwork_n,
        after.uids == before.uids,
        after.pruning_scores == before.pruning_scores,
    ensures
        after.passes_requirements(netuid, hotkey) == before.passes_requirements(netuid, hotkey),
{
    assert forall|netuid_b: u16| #[trigger]
        after.is_connected(netuid, netuid_b) == before.is_connected(netuid, netuid_b) by {}
    assert forall|netuid_b: u16| #[trigger]
        after.meets_requirement(netuid, netuid_b, hotkey) == before.meets_requirement(
            netuid,
            netuid_b,
            hotkey,
        ) by {
        assert(after.better_slots(netuid_b, after.uids[(netuid_b, hotkey)])
            =~= before.better_slots(netuid_b, before.uids[(netuid_b, hotkey)]));
    }
    assert forall|netuid_b: u16| before.is_connected(netuid, netuid_b) implies after.is_connected(
        netuid,
        netuid_b,
    ) by {}
}

/// A slot is a better one exactly where it is filled and its score is higher, wherever it
/// stands.
pub proof fn law_better_slots_are_those_with_higher_scores(
    state: State,
    netuid: u16,
    uid: u16,
    other: u16,
)
    ensures
        state.better_slots(netuid, uid).contains(other) <==> other < state.size_of(netuid)
            && state.score_of(netuid, other) > state.score_of(netuid, uid),
{
}

/// The first `count` slots are as many.
proof fn lemma_first_slots(count: int)
    requires
        0 <= count <= u16::MAX,
    ensures
        Set::new(|slot: u16| slot < count).finite(),
        Set::new(|slot: u16| slot < count).len() == count,
    decreases count,
{
    let slots = Set::new(|slot: u16| slot < count);
    if count == 0 {
        assert(slots =~= Set::<u16>::empty());
    } else {
        lemma_first_slots(count - 1);
        let fewer = Set::new(|slot: u16| slot < count - 1);
        assert(slots =~= fewer.insert((count - 1) as u16));
    }
}

proof fn lemma_better_slots_finite(state: State, netuid: u16, uid: u16)
    ensures
        state.better_slots(netuid, uid).finite(),
        state.better_slots(netuid, uid).len() <= state.size_of(netuid),
{
    let size = state.size_of(netuid) as int;
    lemma_better_slots_bound(state, netuid, uid, size);
    assert(state.better_slots(netuid, uid).filter(|slot: u16| slot < size)
        =~= state.better_slots(netuid, uid));
}

/// Of two filled slots, the one with the lower score has more better slots.
pub proof fn law_lower_score_has_more_better_slots(
    state: State,
    netuid: u16,
    lower: u16,
    higher: u16,
)
    requires
        higher < state.size_of(netuid),
        state.score_of(netuid, lower) < state.score_of(netuid, higher),
    ensures
        state.better_slots(netuid, higher).len() < state.better_slots(netuid, lower).len(),
{
    lemma_better_slots_finite(state, netuid, lower);
    lemma_better_slots_finite(state, netuid, higher);
    let more = state.better_slots(netuid, lower);
    let fewer = state.better_slots(netuid, higher);
    assert(more.contains(higher));
    assert(fewer.subset_of(more.remove(higher)));
    vstd::set_lib::lemma_len_subset(fewer, more.remove(higher));
}

/// A filled slot with a score below all others has every other slot as a better one.
pub proof fn law_worst_slot_has_all_others_better(state: State, netuid: u16, uid: u16)
    requires
        uid < state.size_of(netuid),
        forall|other: u16|
            other < state.size_of(netuid) && other != uid ==> state.score_of(netuid, uid)
                < #[trigger] state.score_of(netuid, other),
    ensures
        state.better_slots(netuid, uid).len() == state.size_of(netuid) - 1,
{
    let size = state.size_of(netuid) as int;
    lemma_first_slots(size);
    assert(state.better_slots(netuid, uid) =~= Set::new(|slot: u16| slot < size).remove(uid));
}

/// The hotkey passes exactly where, on every network that exists and for which the first one
/// keeps a requirement, it has a slot, and the filled slots with a higher score, as a part of
/// all filled ones, are no more than the requirement is of `u16::MAX`. `better` is the set of
/// those slots for each network.
pub proof fn law_top_share_of_every_connected_network(
    state: State,
    netuid_a: u16,
    hotkey: Seq<u8>,
    better: spec_fn(u16) -> Set<u16>,
)
    requires
        forall|netuid_b: u16, slot: u16| #[trigger]
            better(netuid_b).contains(slot) <==> slot < state.size_of(netuid_b)
                && state.score_of(netuid_b, slot) > state.score_of(
                netuid_b,
                state.uids[(netuid_b, hotkey)],
            ),
    ensures
        state.passes_requirements(netuid_a, hotkey) <==> forall|netuid_b: u16|
            #![trigger state.networks_added.dom().contains(netuid_b)]
            state.networks_added.dom().contains(netuid_b) && state.networks_added[netuid_b]
                && state.network_connect.dom().contains((netuid_a, netuid_b)) ==> {
                &&& state.size_of(netuid_b) > 0
                &&& state.uids.dom().contains((netuid_b, hotkey))
                &&& better(netuid_b).len() * u16::MAX <= state.network_connect[(
                    netuid_a,
                    netuid_b,
                )] * state.size_of(netuid_b)
            },
{
    assert forall|netuid_b: u16| #[trigger]
        better(netuid_b) == state.better_slots(netuid_b, state.uids[(netuid_b, hotkey)]) by {
        assert(better(netuid_b) =~= state.better_slots(
            netuid_b,
            state.uids[(netuid_b, hotkey)],
        ));
    }
    let all = forall|netuid_b: u16|
        #![trigger state.networks_added.dom().contains(netuid_b)]
        state.networks_added.dom().contains(netuid_b) && state.networks_added[netuid_b]
            && state.network_connect.dom().contains((netuid_a, netuid_b)) ==> {
            &&& state.size_of(netuid_b) > 0
            &&& state.uids.dom().contains((netuid_b, hotkey))
            &&& better(netuid_b).len() * u16::MAX <= state.network_connect[(netuid_a, netuid_b)]
                * state.size_of(netuid_b)
        };
    if state.passes_requirements(netuid_a, hotkey) {
        assert forall|netuid_b: u16|
            #![trigger state.networks_added.dom().contains(netuid_b)]
            state.networks_added.dom().contains(netuid_b) && state.networks_added[netuid_b]
                && state.network_connect.dom().contains((netuid_a, netuid_b)) implies {
            &&& state.size_of(netuid_b) > 0
            &&& state.uids.dom().contains((netuid_b, hotkey))
            &&& better(netuid_b).len() * u16::MAX <= state.network_connect[(netuid_a, netuid_b)]
                * state.size_of(netuid_b)
        } by {
            assert(state.is_connected(netuid_a, netuid_b));
        }
    }
    if all {
        assert forall|netuid_b: u16| #[trigger]
            state.is_connected(netuid_a, netuid_b) implies state.meets_requirement(
            netuid_a,
            netuid_b,
            hotkey,
        ) by {
            assert(state.networks_added.dom().contains(netuid_b));
        }
    }
}

/// Of a given size, what is within a share is what is at most that share of it: `better` slots
/// of `size` are no more than `requirement` of `u16::MAX`. So fewer slots are within it too, and
/// as many are within a larger one.
pub proof fn law_share_is_compared_exactly(
    better: nat,
    size: u16,
    requirement: u16,
    fewer: nat,
    larger: u16,
)
    requires
        fewer <= better,
        requirement <= larger,
    ensures
        is_within_share(better, size, requirement) <==> better * u16::MAX <= size * requirement,
        is_within_share(better, size, requirement) ==> is_within_share(fewer, size, larger),
{
    assert(size * requirement == requirement * size) by (nonlinear_arith);
    assert(fewer * u16::MAX <= better * u16::MAX) by (nonlinear_arith)
        requires
            fewer <= better,
    ;
    assert(requirement * size <= larger * size) by (nonlinear_arith)
        requires
            requirement <= larger,
    ;
}

/// Where a hotkey meets the requirement on a network, so does every hotkey there with a score
/// that is no lower.
pub proof fn law_no_lower_score_meets_as_much(
    state: State,
    netuid_a: u16,
    netuid_b: u16,
    hotkey: Seq<u8>,
    other: Seq<u8>,
)
    requires
        state.meets_requirement(netuid_a, netuid_b, hotkey),
        state.is_registered(netuid_b, other),
        state.score_of(netuid_b, state.uids[(netuid_b, hotkey)]) <= state.score_of(
            netuid_b,
            state.uids[(netuid_b, other)],
        ),
    ensures
        state.meets_requirement(netuid_a, netuid_b, other),
{
    let uid = state.uids[(netuid_b, hotkey)];
    let other_uid = state.uids[(netuid_b, other)];
    lemma_better_slots_finite(state, netuid_b, uid);
    lemma_better_slots_finite(state, netuid_b, other_uid);
    let more = state.better_slots(netuid_b, uid);
    let fewer = state.better_slots(netuid_b, other_uid);
    assert(fewer.subset_of(more));
    vstd::set_lib::lemma_len_subset(fewer, more);
    assert(fewer.len() * u16::MAX <= more.len() * u16::MAX) by (nonlinear_arith)
        requires
            fewer.len() <= more.len(),
    ;
}

} // verus!
