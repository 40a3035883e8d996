//! The pallet's storage, its mathematical model, and the reads and writes that the
//! calls are made of.
use crate::primitives::{AccountId, H256};
use crate::storage::{StorageKey, StorageMap};
use crate::types::{Config, Counters, Event, Hyperparameters};
use vstd::prelude::*;

verus! {

/// The pallet: everything it keeps between calls.
pub struct Pallet {
    pub config: Config,
    /// The number of the current block.
    pub block_number: u64,
    /// The hashes of the blocks, by number.
    pub block_hash: StorageMap<u64, H256>,
    /// Whether a network exists.
    pub networks_added: StorageMap<u16, bool>,
    /// The hyperparameters of each network.
    pub hyperparameters: StorageMap<u16, Hyperparameters>,
    /// The registrations that each network has seen.
    pub counters: StorageMap<u16, Counters>,
    /// What registrations on each network have burned.
    pub rao_recycled: StorageMap<u16, u64>,
    /// For a network and another that it is connected to: the share of the other's
    /// neurons, as a part of `u16::MAX`, that a hotkey has to be in.
    pub network_connect: StorageMap<(u16, u16), u16>,
    /// How many slots of each network are filled.
    pub subnetwork_n: StorageMap<u16, u16>,
    /// The slot of a hotkey on a network.
    pub uids: StorageMap<(u16, AccountId), u16>,
    /// The hotkey in a slot of a network.
    pub keys: StorageMap<(u16, u16), AccountId>,
    /// The block at which a slot of a network was filled last.
    pub block_at_registration: StorageMap<(u16, u16), u64>,
    /// The pruning score of a slot of a network.
    pub pruning_scores: StorageMap<(u16, u16), u16>,
    /// The coldkey that a hotkey belongs to.
    pub owner: StorageMap<AccountId, AccountId>,
    /// The stake of a coldkey on a hotkey.
    pub stake: StorageMap<(AccountId, AccountId), u64>,
    /// The delegates, with their take.
    pub delegates: StorageMap<AccountId, u16>,
    /// The balances of the coldkeys.
    pub balances: StorageMap<AccountId, u64>,
    /// All that has been issued.
    pub total_issuance: u64,
    /// The work that has been used, with the block in which it was.
    pub used_work: StorageMap<Vec<u8>, u64>,
    /// The events that the pallet has deposited.
    pub events: Vec<Event>,
}

/// The mathematical model of [`Pallet`]. Accounts and work stand in it, where they
/// are keys, as sequences of bytes.
pub struct State {
    pub config: Config,
    pub block_number: u64,
    pub block_hash: Map<u64, H256>,
    pub networks_added: Map<u16, bool>,
    pub hyperparameters: Map<u16, Hyperparameters>,
    pub counters: Map<u16, Counters>,
    pub rao_recycled: Map<u16, u64>,
    pub network_connect: Map<(u16, u16), u16>,
    pub subnetwork_n: Map<u16, u16>,
    pub uids: Map<(u16, Seq<u8>), u16>,
    pub keys: Map<(u16, u16), AccountId>,
    pub block_at_registration: Map<(u16, u16), u64>,
    pub pruning_scores: Map<(u16, u16), u16>,
    pub owner: Map<Seq<u8>, AccountId>,
    pub stake: Map<(Seq<u8>, Seq<u8>), u64>,
    pub delegates: Map<Seq<u8>, u16>,
    pub balances: Map<Seq<u8>, u64>,
    pub total_issuance: u64,
    pub used_work: Map<Seq<u8>, u64>,
    pub events: Seq<Event>,
}

impl View for Pallet {
    type V = State;

    open spec fn view(&self) -> State {
        State {
            config: self.config,
            block_number: self.block_number,
            block_hash: self.block_hash@,
            networks_added: self.networks_added@,
            hyperparameters: self.hyperparameters@,
            counters: self.counters@,
            rao_recycled: self.rao_recycled@,
            network_connect: self.network_connect@,
            subnetwork_n: self.subnetwork_n@,
            uids: self.uids@,
            keys: self.keys@,
            block_at_registration: self.block_at_registration@,
            pruning_scores: self.pruning_scores@,
            owner: self.owner@,
            stake: self.stake@,
            delegates: self.delegates@,
            balances: self.balances@,
            total_issuance: self.total_issuance,
            used_work: self.used_work@,
            events: self.events@,
        }
    }
}

/// The value under `key`, or `default` where there is none.
pub open spec fn value_or<K, V>(map: Map<K, V>, key: K, default: V) -> V {
    if map.dom().contains(key) {
        map[key]
    } else {
        default
    }
}

/// The bytes of the account, and of the hash, that stand where none was set: 32 zeros.
pub open spec fn zero_bytes() -> Seq<u8> {
    Seq::new(32, |i: int| 0u8)
}

/// `left + right`, or the largest `u64` where that is less.
pub open spec fn saturating_sum(left: u64, right: u64) -> u64 {
    if left + right > u64::MAX {
        u64::MAX
    } else {
        (left + right) as u64
    }
}

/// `left - right`, or zero where that is more.
pub open spec fn saturating_difference(left: u64, right: u64) -> u64 {
    if left < right {
        0
    } else {
        (left - right) as u64
    }
}

impl State {
    /// Whether the network exists.
    pub open spec fn network_exists(self, netuid: u16) -> bool {
        value_or(self.networks_added, netuid, false)
    }

    /// The hyperparameters of the network.
    pub open spec fn parameters_of(self, netuid: u16) -> Hyperparameters {
        value_or(self.hyperparameters, netuid, self.config.initial_hyperparameters)
    }

    /// The registrations that the network has seen.
    pub open spec fn counters_of(self, netuid: u16) -> Counters {
        value_or(
            self.counters,
            netuid,
            Counters {
                this_block: 0,
                this_interval: 0,
                pow_this_interval: 0,
                burn_this_interval: 0,
            },
        )
    }

    /// What registrations on the network have burned.
    pub open spec fn recycled_of(self, netuid: u16) -> u64 {
        value_or(self.rao_recycled, netuid, 0)
    }

    /// How many slots of the network are filled.
    pub open spec fn size_of(self, netuid: u16) -> u16 {
        value_or(self.subnetwork_n, netuid, 0)
    }

    /// Whether the hotkey has a slot on the network.
    pub open spec fn is_registered(self, netuid: u16, hotkey: Seq<u8>) -> bool {
        self.uids.dom().contains((netuid, hotkey))
    }

    /// Whether the hotkey has a slot on some network.
    pub open spec fn is_registered_anywhere(self, hotkey: Seq<u8>) -> bool {
        exists|netuid: u16| #[trigger] self.is_registered(netuid, hotkey)
    }

    /// The hotkey in the slot; the zero account where there is none.
    pub open spec fn key_of(self, netuid: u16, uid: u16) -> Seq<u8> {
        if self.keys.dom().contains((netuid, uid)) {
            self.keys[(netuid, uid)]@
        } else {
            zero_bytes()
        }
    }

    /// The block at which the slot was filled last.
    pub open spec fn registered_at(self, netuid: u16, uid: u16) -> u64 {
        value_or(self.block_at_registration, (netuid, uid), 0)
    }

    /// The pruning score of the slot; a slot without one has the highest.
    pub open spec fn score_of(self, netuid: u16, uid: u16) -> u16 {
        value_or(self.pruning_scores, (netuid, uid), u16::MAX)
    }

    /// The hash of the block; the zero hash where none is kept.
    pub open spec fn hash_of_block(self, block_number: u64) -> Seq<u8> {
        if self.block_hash.dom().contains(block_number) {
            self.block_hash[block_number]@
        } else {
            zero_bytes()
        }
    }

    /// The coldkey that the hotkey belongs to; the zero account where it belongs to
    /// none.
    pub open spec fn owner_of(self, hotkey: Seq<u8>) -> Seq<u8> {
        if self.owner.dom().contains(hotkey) {
            self.owner[hotkey]@
        } else {
            zero_bytes()
        }
    }

    /// Whether the hotkey belongs to the coldkey.
    pub open spec fn owns(self, coldkey: AccountId, hotkey: Seq<u8>) -> bool {
        self.owner.dom().contains(hotkey) && self.owner[hotkey] == coldkey
    }

    /// The stake of the coldkey on the hotkey.
    pub open spec fn stake_of(self, coldkey: Seq<u8>, hotkey: Seq<u8>) -> u64 {
        value_or(self.stake, (coldkey, hotkey), 0)
    }

    /// The balance of the coldkey.
    pub open spec fn balance_of(self, coldkey: Seq<u8>) -> u64 {
        value_or(self.balances, coldkey, 0)
    }

    /// Whether a withdrawal of `amount` from the coldkey goes through: the account
    /// holds as much, and keeps the existential deposit if anything leaves it.
    pub open spec fn can_withdraw(self, coldkey: Seq<u8>, amount: u64) -> bool {
        &&& amount <= self.balance_of(coldkey)
        &&& amount == 0 || self.balance_of(coldkey) - amount >= self.config.existential_deposit
    }

    /// The current block has a number that fits, and no slot was filled in a block to come.
    pub open spec fn well_formed(self) -> bool {
        &&& self.block_number <= self.config.max_block_number
        &&& forall|netuid: u16, uid: u16| #[trigger]
            self.registered_at(netuid, uid) <= self.block_number
    }

    /// The registrations of the network in this interval are no fewer than those by work and
    /// those by burning together.
    pub open spec fn counters_add_up(self, netuid: u16) -> bool {
        let counters = self.counters_of(netuid);
        counters.pow_this_interval + counters.burn_this_interval <= counters.this_interval
    }

    /// On every network, the slot of each hotkey is a filled one that holds the hotkey, and
    /// each filled slot holds a hotkey that has it.
    pub open spec fn slots_agree(self) -> bool {
        &&& forall|netuid: u16, hotkey: Seq<u8>| #[trigger]
            self.is_registered(netuid, hotkey) ==> {
                &&& self.uids[(netuid, hotkey)] < self.size_of(netuid)
                &&& self.key_of(netuid, self.uids[(netuid, hotkey)]) == hotkey
            }
        &&& forall|netuid: u16, uid: u16|
            uid < self.size_of(netuid) ==> {
                &&& self.is_registered(netuid, #[trigger] self.key_of(netuid, uid))
                &&& self.uids[(netuid, self.key_of(netuid, uid))] == uid
            }
    }

    /// The hotkey belongs to the coldkey, with the stake that is recorded or none, if it
    /// belonged to nobody.
    pub open spec fn with_account(self, coldkey: AccountId, hotkey: AccountId) -> State {
        if self.owner.dom().contains(hotkey@) {
            self
        } else {
            State {
                stake: self.stake.insert(
                    (coldkey@, hotkey@),
                    self.stake_of(coldkey@, hotkey@),
                ),
                owner: self.owner.insert(hotkey@, coldkey),
                ..self
            }
        }
    }

    /// The coldkey has `amount` more at stake on the hotkey.
    pub open spec fn with_more_stake(
        self,
        coldkey: Seq<u8>,
        hotkey: Seq<u8>,
        amount: u64,
    ) -> State {
        State {
            stake: self.stake.insert(
                (coldkey, hotkey),
                saturating_sum(self.stake_of(coldkey, hotkey), amount),
            ),
            ..self
        }
    }

    /// The coldkey holds `amount` more, unless balances cannot hold that much.
    pub open spec fn with_deposit(self, coldkey: Seq<u8>, amount: u64) -> State {
        if self.balance_of(coldkey) + amount <= self.config.max_balance {
            State {
                balances: self.balances.insert(
                    coldkey,
                    (self.balance_of(coldkey) + amount) as u64,
                ),
                ..self
            }
        } else {
            self
        }
    }

    /// The coldkey holds `amount` less.
    pub open spec fn with_withdrawal(self, coldkey: Seq<u8>, amount: u64) -> State {
        State {
            balances: self.balances.insert(coldkey, (self.balance_of(coldkey) - amount) as u64),
            ..self
        }
    }

    /// The slot has the pruning score `score`.
    pub open spec fn with_score(self, netuid: u16, uid: u16, score: u16) -> State {
        State { pruning_scores: self.pruning_scores.insert((netuid, uid), score), ..self }
    }

    /// The hotkey has the first free slot of the network, filled in this block.
    pub open spec fn with_appended(self, netuid: u16, hotkey: AccountId) -> State {
        let uid = self.size_of(netuid);
        State {
            subnetwork_n: self.subnetwork_n.insert(netuid, (uid + 1) as u16),
            pruning_scores: self.pruning_scores.insert((netuid, uid), 0),
            keys: self.keys.insert((netuid, uid), hotkey),
            uids: self.uids.insert((netuid, hotkey@), uid),
            block_at_registration: self.block_at_registration.insert(
                (netuid, uid),
                self.block_number,
            ),
            ..self
        }
    }

    /// The hotkey has the slot `uid` of the network, filled in this block, in place of
    /// the hotkey that had it.
    pub open spec fn with_replaced(self, netuid: u16, uid: u16, hotkey: AccountId) -> State {
        State {
            keys: self.keys.insert((netuid, uid), hotkey),
            uids: self.uids.remove((netuid, self.key_of(netuid, uid))).insert(
                (netuid, hotkey@),
                uid,
            ),
            block_at_registration: self.block_at_registration.insert(
                (netuid, uid),
                self.block_number,
            ),
            ..self
        }
    }

    /// The event has been deposited.
    pub open spec fn with_event(self, event: Event) -> State {
        State { events: self.events.push(event), ..self }
    }
}

/// Well-formedness rests on the block number and the blocks of registration, of which the
/// current one may be new.
pub(crate) proof fn lemma_keeps_well_formed(before: State, after: State)
    requires
        after.config == before.config,
        after.block_number == before.block_number,
        forall|key: (u16, u16)|
            #![trigger after.block_at_registration.dom().contains(key)]
            after.block_at_registration.dom().contains(key) ==> after.block_at_registration[key]
                == before.block_number || (before.block_at_registration.dom().contains(key)
                && after.block_at_registration[key] == before.block_at_registration[key]),
    ensures
        before.well_formed() ==> after.well_formed(),
{
    if before.well_formed() {
        assert forall|netuid: u16, uid: u16| #[trigger]
            after.registered_at(netuid, uid) <= after.block_number by {
            assert(before.registered_at(netuid, uid) <= before.block_number);
            assert(after.block_at_registration.dom().contains((netuid, uid))
                || after.registered_at(netuid, uid) == 0);
        }
    }
}

impl Pallet {
    /// A pallet at the given block, that keeps nothing yet.
    pub fn new(config: Config, block_number: u64) -> (pallet: Self)
        requires
            block_number <= config.max_block_number,
        ensures
            pallet@ == (State {
                config,
                block_number,
                block_hash: Map::empty(),
                networks_added: Map::empty(),
                hyperparameters: Map::empty(),
                counters: Map::empty(),
                rao_recycled: Map::empty(),
                network_connect: Map::empty(),
                subnetwork_n: Map::empty(),
                uids: Map::empty(),
                keys: Map::empty(),
                block_at_registration: Map::empty(),
                pruning_scores: Map::empty(),
                owner: Map::empty(),
                stake: Map::empty(),
                delegates: Map::empty(),
                balances: Map::empty(),
                total_issuance: 0,
                used_work: Map::empty(),
                events: Seq::empty(),
            }),
            pallet@.well_formed(),
            pallet@.slots_agree(),
            forall|netuid: u16| #[trigger] pallet@.counters_add_up(netuid),
    {
        Pallet {
            config,
            block_number,
            block_hash: StorageMap::new(),
            networks_added: StorageMap::new(),
            hyperparameters: StorageMap::new(),
            counters: StorageMap::new(),
            rao_recycled: StorageMap::new(),
            network_connect: StorageMap::new(),
            subnetwork_n: StorageMap::new(),
            uids: StorageMap::new(),
            keys: StorageMap::new(),
            block_at_registration: StorageMap::new(),
            pruning_scores: StorageMap::new(),
            owner: StorageMap::new(),
            stake: StorageMap::new(),
            delegates: StorageMap::new(),
            balances: StorageMap::new(),
            total_issuance: 0,
            used_work: StorageMap::new(),
            events: Vec::new(),
        }
    }

    /// Whether the network exists.
    pub fn if_subnet_exist(&self, netuid: u16) -> (exists: bool)
        ensures
            exists == self@.network_exists(netuid),
    {
        match self.networks_added.get(&netuid) {
            Some(added) => added,
            None => false,
        }
    }

    /// The hyperparameters of the network.
    pub fn get_hyperparameters(&self, netuid: u16) -> (parameters: Hyperparameters)
        ensures
            parameters == self@.parameters_of(netuid),
    {
        match self.hyperparameters.get(&netuid) {
            Some(parameters) => parameters,
            None => self.config.initial_hyperparameters,
        }
    }

    /// The registrations that the network has seen.
    pub fn get_counters(&self, netuid: u16) -> (counters: Counters)
        ensures
            counters == self@.counters_of(netuid),
    {
        match self.counters.get(&netuid) {
            Some(counters) => counters,
            None => Counters {
                this_block: 0,
                this_interval: 0,
                pow_this_interval: 0,
                burn_this_interval: 0,
            },
        }
    }

    /// What registrations on the network have burned.
    pub fn get_rao_recycled(&self, netuid: u16) -> (recycled: u64)
        ensures
            recycled == self@.recycled_of(netuid),
    {
        match self.rao_recycled.get(&netuid) {
            Some(recycled) => recycled,
            None => 0,
        }
    }

    /// How many slots of the network are filled.
    pub fn get_subnetwork_n(&self, netuid: u16) -> (n: u16)
        ensures
            n == self@.size_of(netuid),
    {
        match self.subnetwork_n.get(&netuid) {
            Some(n) => n,
            None => 0,
        }
    }

    /// Whether the hotkey has a slot on the network.
    pub fn is_hotkey_registered_on_network(&self, netuid: u16, hotkey: &AccountId) -> (registered:
        bool)
        ensures
            registered == self@.is_registered(netuid, hotkey@),
    {
        self.uids.contains_key(&(netuid, *hotkey))
    }

    /// The slot of the hotkey on the network.
    pub fn get_uid_for_net_and_hotkey(&self, netuid: u16, hotkey: &AccountId) -> (uid: Option<u16>)
        ensures
            uid == (if self@.is_registered(netuid, hotkey@) {
                Some(self@.uids[(netuid, hotkey@)])
            } else {
                None
            }),
    {
        self.uids.get(&(netuid, *hotkey))
    }

    /// Whether the hotkey has a slot on some network.
    pub fn is_hotkey_registered_on_any_network(&self, hotkey: &AccountId) -> (registered: bool)
        ensures
            registered == self@.is_registered_anywhere(hotkey@),
    {
        proof {
            self.uids.lemma_keys();
        }
        let len = self.uids.len();
        let mut i: usize = 0;
        while i < len
            invariant
                i <= len,
                len == self.uids.keys().len(),
                forall|j: int| 0 <= j < i ==> (#[trigger] self.uids.keys()[j]).1 != hotkey@,
            decreases len - i,
        {
            let entry = self.uids.entry_at(i);
            if entry.0.1.same(hotkey) {
                assert(self@.is_registered(entry.0.0, hotkey@));
                return true;
            }
            i += 1;
        }
        assert forall|netuid: u16| !#[trigger] self@.is_registered(netuid, hotkey@) by {
            assert(!self.uids.keys().contains((netuid, hotkey@)));
        }
        false
    }

    /// The block at which the slot was filled last.
    pub fn get_neuron_block_at_registration(&self, netuid: u16, uid: u16) -> (block: u64)
        ensures
            block == self@.registered_at(netuid, uid),
    {
        match self.block_at_registration.get(&(netuid, uid)) {
            Some(block) => block,
            None => 0,
        }
    }

    /// The pruning score of the slot.
    pub fn get_pruning_score_for_uid(&self, netuid: u16, uid: u16) -> (score: u16)
        ensures
            score == self@.score_of(netuid, uid),
    {
        match self.pruning_scores.get(&(netuid, uid)) {
            Some(score) => score,
            None => u16::MAX,
        }
    }

    /// Sets the pruning score of the slot.
    pub fn set_pruning_score_for_uid(&mut self, netuid: u16, uid: u16, score: u16)
        ensures
            final(self)@ == old(self)@.with_score(netuid, uid, score),
    {
        self.pruning_scores.insert((netuid, uid), score);
    }

    /// Whether the hotkey belongs to a coldkey.
    pub fn hotkey_account_exists(&self, hotkey: &AccountId) -> (exists: bool)
        ensures
            exists == self@.owner.dom().contains(hotkey@),
    {
        self.owner.contains_key(hotkey)
    }

    /// The coldkey that the hotkey belongs to.
    pub fn get_owning_coldkey_for_hotkey(&self, hotkey: &AccountId) -> (coldkey: AccountId)
        ensures
            coldkey@ == self@.owner_of(hotkey@),
    {
        match self.owner.get(hotkey) {
            Some(coldkey) => coldkey,
            None => {
                let zero: AccountId = [0u8;32];
                assert(zero@ =~= zero_bytes());
                zero
            },
        }
    }

    /// Whether the hotkey belongs to the coldkey.
    pub fn coldkey_owns_hotkey(&self, coldkey: &AccountId, hotkey: &AccountId) -> (owns: bool)
        ensures
            owns == self@.owns(*coldkey, hotkey@),
    {
        match self.owner.get(hotkey) {
            Some(owner) => {
                let owns = owner.same(coldkey);
                assert(owns ==> owner =~= *coldkey);
                owns
            },
            None => false,
        }
    }

    /// Gives the hotkey to the coldkey if it belongs to nobody.
    pub fn create_account_if_non_existent(&mut self, coldkey: &AccountId, hotkey: &AccountId)
        ensures
            final(self)@ == old(self)@.with_account(*coldkey, *hotkey),
    {
        if !self.hotkey_account_exists(hotkey) {
            let stake = self.get_stake_for_coldkey_and_hotkey(coldkey, hotkey);
            self.stake.insert((*coldkey, *hotkey), stake);
            self.owner.insert(*hotkey, *coldkey);
        }
    }

    /// Whether the hotkey is a delegate.
    pub fn hotkey_is_delegate(&self, hotkey: &AccountId) -> (delegate: bool)
        ensures
            delegate == self@.delegates.dom().contains(hotkey@),
    {
        self.delegates.contains_key(hotkey)
    }

    /// The stake of the coldkey on the hotkey.
    pub fn get_stake_for_coldkey_and_hotkey(
        &self,
        coldkey: &AccountId,
        hotkey: &AccountId,
    ) -> (stake: u64)
        ensures
            stake == self@.stake_of(coldkey@, hotkey@),
    {
        match self.stake.get(&(*coldkey, *hotkey)) {
            Some(stake) => stake,
            None => 0,
        }
    }

    /// Adds to the stake of the coldkey on the hotkey.
    pub fn increase_stake_on_coldkey_hotkey_account(
        &mut self,
        coldkey: &AccountId,
        hotkey: &AccountId,
        increment: u64,
    )
        ensures
            final(self)@ == old(self)@.with_more_stake(coldkey@, hotkey@, increment),
    {
        let stake = self.get_stake_for_coldkey_and_hotkey(coldkey, hotkey);
        self.stake.insert((*coldkey, *hotkey), stake.saturating_add(increment));
    }

    /// The amount as a balance, if balances can hold it.
    pub fn u64_to_balance(&self, amount: u64) -> (balance: Option<u64>)
        ensures
            balance == (if amount <= self@.config.max_balance {
                Some(amount)
            } else {
                None
            }),
    {
        if amount <= self.config.max_balance {
            Some(amount)
        } else {
            None
        }
    }

    /// The balance of the coldkey.
    pub fn get_coldkey_balance(&self, coldkey: &AccountId) -> (balance: u64)
        ensures
            balance == self@.balance_of(coldkey@),
    {
        match self.balances.get(coldkey) {
            Some(balance) => balance,
            None => 0,
        }
    }

    /// Deposits the amount with the coldkey.
    pub fn add_balance_to_coldkey_account(&mut self, coldkey: &AccountId, amount: u64)
        ensures
            final(self)@ == old(self)@.with_deposit(coldkey@, amount),
    {
        match self.get_coldkey_balance(coldkey).checked_add(amount) {
            Some(sum) => {
                if sum <= self.config.max_balance {
                    self.balances.insert(*coldkey, sum);
                }
            },
            None => {},
        }
    }

    /// Whether the coldkey holds the amount.
    pub fn can_remove_balance_from_coldkey_account(
        &self,
        coldkey: &AccountId,
        amount: u64,
    ) -> (can: bool)
        ensures
            can == (amount <= self@.balance_of(coldkey@)),
    {
        amount <= self.get_coldkey_balance(coldkey)
    }

    /// Withdraws the amount from the coldkey; says whether that went through.
    pub fn remove_balance_from_coldkey_account(
        &mut self,
        coldkey: &AccountId,
        amount: u64,
    ) -> (removed: bool)
        ensures
            removed == old(self)@.can_withdraw(coldkey@, amount),
            final(self)@ == (if removed {
                old(self)@.with_withdrawal(coldkey@, amount)
            } else {
                old(self)@
            }),
    {
        let balance = self.get_coldkey_balance(coldkey);
        if amount > balance {
            return false;
        }
        let rest: u64 = balance - amount;
        if amount != 0 && rest < self.config.existential_deposit {
            return false;
        }
        self.balances.insert(*coldkey, rest);
        true
    }

    /// Puts the hotkey into the first free slot of the network.
    pub fn append_neuron(&mut self, netuid: u16, hotkey: &AccountId)
        requires
            old(self)@.size_of(netuid) < u16::MAX,
        ensures
            final(self)@ == old(self)@.with_appended(netuid, *hotkey),
    {
        let uid = self.get_subnetwork_n(netuid);
        let block_number = self.block_number;
        self.subnetwork_n.insert(netuid, uid + 1);
        self.pruning_scores.insert((netuid, uid), 0);
        self.keys.insert((netuid, uid), *hotkey);
        self.uids.insert((netuid, *hotkey), uid);
        self.block_at_registration.insert((netuid, uid), block_number);
    }

    /// Puts the hotkey into the slot in place of the one that was there.
    pub fn replace_neuron(&mut self, netuid: u16, uid: u16, hotkey: &AccountId)
        ensures
            final(self)@ == old(self)@.with_replaced(netuid, uid, *hotkey),
    {
        let replaced: AccountId = match self.keys.get(&(netuid, uid)) {
            Some(key) => key,
            None => [0u8;32],
        };
        assert(replaced@ =~= self@.key_of(netuid, uid));
        let block_number = self.block_number;
        self.uids.remove(&(netuid, replaced));
        self.keys.insert((netuid, uid), *hotkey);
        self.uids.insert((netuid, *hotkey), uid);
        self.block_at_registration.insert((netuid, uid), block_number);
    }

    /// Deposits the event.
    pub fn deposit_event(&mut self, event: Event)
        ensures
            final(self)@ == old(self)@.with_event(event),
    {
        self.events.push(event);
    }
}

} // verus!
