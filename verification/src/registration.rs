//! The calls that register a hotkey on a network: by the system, by burning, by work.
use crate::connection::lemma_requirements_rest_on_neurons;
use crate::pallet::{
    lemma_keeps_well_formed, saturating_difference, saturating_sum, Pallet, State,
};
use crate::primitives::{AccountId, H256};
use crate::storage::StorageKey;
use crate::types::{ensure_root, ensure_signed, Counters, Error, Event, Origin};
use crate::work::meets_difficulty;
use vstd::prelude::*;

verus! {

/// What a call leaves behind and what it answers.
pub struct Outcome {
    pub state: State,
    pub result: Result<(), Error>,
}

impl State {
    /// Why a registration of the hotkey on the network is refused whatever is offered for
    /// it: the first reason that holds.
    pub open spec fn quota_error(self, netuid: u16, hotkey: Seq<u8>) -> Option<Error> {
        let counters = self.counters_of(netuid);
        let parameters = self.parameters_of(netuid);
        if !self.network_exists(netuid) {
            Some(Error::NetworkDoesNotExist)
        } else if counters.this_block >= parameters.max_registrations_per_block {
            Some(Error::TooManyRegistrationsThisBlock)
        } else if counters.this_interval >= parameters.target_registrations_per_interval * 3 {
            Some(Error::TooManyRegistrationsThisInterval)
        } else if self.is_registered(netuid, hotkey) {
            Some(Error::AlreadyRegistered)
        } else {
            None
        }
    }

    /// The number of registrations that an interval of the network may hold fits 16 bits,
    /// where it is asked for: on a network that exists and has room in this block.
    pub open spec fn quota_fits(self, netuid: u16) -> bool {
        self.network_exists(netuid) && self.counters_of(netuid).this_block < self.parameters_of(
            netuid,
        ).max_registrations_per_block ==> self.parameters_of(
            netuid,
        ).target_registrations_per_interval * 3 <= u16::MAX
    }

    /// Why work on the block is refused before it is looked at: the block is one of the
    /// future or not one of the last three, or the work has been used.
    pub open spec fn freshness_error(self, block_number: u64, work: Seq<u8>) -> Option<Error> {
        if block_number > self.block_number || self.block_number - block_number >= 3 {
            Some(Error::InvalidWorkBlock)
        } else if self.used_work.dom().contains(work) {
            Some(Error::WorkRepeated)
        } else {
            None
        }
    }

    /// The slot that the next hotkey gets on the network: the first free one, or that of
    /// the neuron to prune where the network is full.
    pub open spec fn next_slot(self, netuid: u16) -> u16 {
        if self.size_of(netuid) < self.parameters_of(netuid).max_allowed_uids {
            self.size_of(netuid)
        } else {
            self.slot_to_prune(netuid)
        }
    }

    /// The hotkey has the next slot of the network.
    pub open spec fn with_slot(self, netuid: u16, hotkey: AccountId) -> State {
        if self.size_of(netuid) < self.parameters_of(netuid).max_allowed_uids {
            self.with_appended(netuid, hotkey)
        } else {
            self.with_pruned(netuid).with_replaced(netuid, self.slot_to_prune(netuid), hotkey)
        }
    }

    /// One more registration by work has been counted.
    pub open spec fn with_work_counted(self, netuid: u16) -> State {
        let counters = self.counters_of(netuid);
        State {
            counters: self.counters.insert(
                netuid,
                Counters {
                    this_block: (counters.this_block + 1) as u16,
                    this_interval: (counters.this_interval + 1) as u16,
                    pow_this_interval: (counters.pow_this_interval + 1) as u16,
                    burn_this_interval: counters.burn_this_interval,
                },
            ),
            ..self
        }
    }

    /// One more registration by burning has been counted, and what it burned.
    pub open spec fn with_burn_counted(self, netuid: u16) -> State {
        let counters = self.counters_of(netuid);
        State {
            counters: self.counters.insert(
                netuid,
                Counters {
                    this_block: (counters.this_block + 1) as u16,
                    this_interval: (counters.this_interval + 1) as u16,
                    pow_this_interval: counters.pow_this_interval,
                    burn_this_interval: (counters.burn_this_interval + 1) as u16,
                },
            ),
            rao_recycled: self.rao_recycled.insert(
                netuid,
                saturating_sum(self.recycled_of(netuid), self.parameters_of(netuid).burn),
            ),
            ..self
        }
    }

    /// Why the hotkey cannot take a slot for the coldkey: it belongs to another, or the
    /// network has no slots.
    pub open spec fn slot_error(
        self,
        netuid: u16,
        coldkey: AccountId,
        hotkey: Seq<u8>,
    ) -> Option<Error> {
        if !self.owns(coldkey, hotkey) {
            Some(Error::NonAssociatedColdKey)
        } else if self.parameters_of(netuid).max_allowed_uids == 0 {
            Some(Error::NetworkDoesNotExist)
        } else {
            None
        }
    }

    /// The work has been used in this block.
    pub open spec fn with_used_work(self, work: Seq<u8>) -> State {
        State { used_work: self.used_work.insert(work, self.block_number), ..self }
    }

    /// The burn of the network has left the coldkey and the issuance.
    pub open spec fn with_burned(self, netuid: u16, coldkey: Seq<u8>) -> State {
        let burn = self.parameters_of(netuid).burn;
        let paid = self.with_withdrawal(coldkey, burn);
        State { total_issuance: saturating_difference(self.total_issuance, burn), ..paid }
    }

    /// What the system's registration of the hotkey comes to. The hotkey gets the stake and
    /// its coldkey the balance; nothing is counted.
    pub open spec fn system_registration(
        self,
        origin: Origin,
        netuid: u16,
        hotkey: AccountId,
        coldkey: AccountId,
        stake: u64,
        balance: u64,
    ) -> Outcome {
        let created = self.with_account(coldkey, hotkey);
        let staked = created.with_more_stake(coldkey@, hotkey@, stake);
        let funded = staked.with_deposit(coldkey@, balance);
        if origin != Origin::Root {
            Outcome { state: self, result: Err(Error::BadOrigin) }
        } else if !self.network_exists(netuid) {
            Outcome { state: self, result: Err(Error::NetworkDoesNotExist) }
        } else if self.is_registered(netuid, hotkey@) {
            Outcome { state: self, result: Err(Error::AlreadyRegistered) }
        } else if !created.owns(coldkey, hotkey@) {
            Outcome { state: created, result: Err(Error::NonAssociatedColdKey) }
        } else if balance > self.config.max_balance {
            Outcome { state: staked, result: Err(Error::CouldNotConvertToBalance) }
        } else {
            Outcome {
                state: funded.with_slot(netuid, hotkey).with_event(
                    Event::NeuronRegistered(netuid, funded.next_slot(netuid), hotkey),
                ),
                result: Ok(()),
            }
        }
    }

    /// What a registration of the hotkey by burning comes to, with the coldkey that signed.
    pub open spec fn burned_registration(
        self,
        coldkey: AccountId,
        netuid: u16,
        hotkey: AccountId,
    ) -> Outcome {
        let burn = self.parameters_of(netuid).burn;
        let created = self.with_burned(netuid, coldkey@).with_account(coldkey, hotkey);
        match self.quota_error(netuid, hotkey@) {
            Some(error) => Outcome { state: self, result: Err(error) },
            None => if !self.passes_requirements(netuid, hotkey@) {
                Outcome {
                    state: self,
                    result: Err(Error::DidNotPassConnectedNetworkRequirement),
                }
            } else if burn > self.balance_of(coldkey@) {
                Outcome { state: self, result: Err(Error::NotEnoughBalanceToStake) }
            } else if !self.can_withdraw(coldkey@, burn) {
                Outcome { state: self, result: Err(Error::BalanceWithdrawalError) }
            } else {
                match created.slot_error(netuid, coldkey, hotkey@) {
                    Some(error) => Outcome { state: created, result: Err(error) },
                    None => Outcome {
                        state: created.with_slot(netuid, hotkey).with_burn_counted(
                            netuid,
                        ).with_event(
                            Event::NeuronRegistered(netuid, created.next_slot(netuid), hotkey),
                        ),
                        result: Ok(()),
                    },
                }
            },
        }
    }

    /// What a registration of the hotkey with fresh work that meets the difficulty comes to,
    /// where the seal of the block and the nonce is `seal`.
    pub open spec fn sealed_registration(
        self,
        netuid: u16,
        work: Seq<u8>,
        seal: Seq<u8>,
        hotkey: AccountId,
        coldkey: AccountId,
    ) -> Outcome {
        let used = self.with_used_work(work);
        let created = used.with_account(coldkey, hotkey);
        if seal != work {
            Outcome { state: self, result: Err(Error::InvalidSeal) }
        } else if !self.passes_requirements(netuid, hotkey@) {
            Outcome { state: used, result: Err(Error::DidNotPassConnectedNetworkRequirement) }
        } else {
            match created.slot_error(netuid, coldkey, hotkey@) {
                Some(error) => Outcome { state: created, result: Err(error) },
                None => Outcome {
                    state: created.with_slot(netuid, hotkey).with_work_counted(netuid).with_event(
                        Event::NeuronRegistered(netuid, created.next_slot(netuid), hotkey),
                    ),
                    result: Ok(()),
                },
            }
        }
    }

    /// What a registration of the hotkey by work comes to.
    pub open spec fn work_registration(
        self,
        netuid: u16,
        block_number: u64,
        nonce: u64,
        work: Seq<u8>,
        hotkey: AccountId,
        coldkey: AccountId,
    ) -> Outcome {
        match self.quota_error(netuid, hotkey@) {
            Some(error) => Outcome { state: self, result: Err(error) },
            None => match self.freshness_error(block_number, work) {
                Some(error) => Outcome { state: self, result: Err(error) },
                None => if !meets_difficulty(work, self.parameters_of(netuid).difficulty@) {
                    Outcome { state: self, result: Err(Error::InvalidDifficulty) }
                } else {
                    self.sealed_registration(
                        netuid,
                        work,
                        self.seal(block_number, nonce),
                        hotkey,
                        coldkey,
                    )
                },
            },
        }
    }
}

/// Counting one more registration, by work or by burning, on a network with room in its
/// quota keeps the counters of every network adding up.
proof fn lemma_counted_adds_up(before: State, netuid: u16)
    requires
        before.counters_add_up(netuid),
        before.counters_of(netuid).this_interval < u16::MAX,
    ensures
        forall|other: u16|
            before.counters_add_up(other) ==> #[trigger] before.with_work_counted(
                netuid,
            ).counters_add_up(other),
        forall|other: u16|
            before.counters_add_up(other) ==> #[trigger] before.with_burn_counted(
                netuid,
            ).counters_add_up(other),
{
}

impl Pallet {
    /// The checks that every registration but the system's starts with.
    fn check_quota(&self, netuid: u16, hotkey: &AccountId) -> (result: Result<(), Error>)
        requires
            self@.quota_fits(netuid),
        ensures
            result == (match self@.quota_error(netuid, hotkey@) {
                Some(error) => Err(error),
                None => Ok::<(), Error>(()),
            }),
    {
        let counters = self.get_counters(netuid);
        let parameters = self.get_hyperparameters(netuid);
        if !self.if_subnet_exist(netuid) {
            return Err(Error::NetworkDoesNotExist);
        }
        if counters.this_block >= parameters.max_registrations_per_block {
            return Err(Error::TooManyRegistrationsThisBlock);
        }
        if counters.this_interval >= parameters.target_registrations_per_interval * 3 {
            return Err(Error::TooManyRegistrationsThisInterval);
        }
        if self.is_hotkey_registered_on_network(netuid, hotkey) {
            return Err(Error::AlreadyRegistered);
        }
        Ok(())
    }

    /// Puts the hotkey into the next slot of the network, and says which that is.
    fn fill_slot(&mut self, netuid: u16, hotkey: &AccountId) -> (uid: u16)
        requires
            old(self)@.well_formed(),
        ensures
            final(self)@ == old(self)@.with_slot(netuid, *hotkey),
            uid == old(self)@.next_slot(netuid),
            final(self)@.well_formed(),
    {
        let ghost before = self@;
        let current_subnetwork_n = self.get_subnetwork_n(netuid);
        if current_subnetwork_n < self.get_hyperparameters(netuid).max_allowed_uids {
            // No replacement required, the uid appends the subnetwork.
            self.append_neuron(netuid, hotkey);
            proof {
                lemma_keeps_well_formed(before, self@);
            }
            current_subnetwork_n
        } else {
            // Replacement required: the neuron with the lowest pruning score goes.
            let uid = self.get_neuron_to_prune(netuid);
            self.replace_neuron(netuid, uid, hotkey);
            proof {
                lemma_keeps_well_formed(before, self@);
            }
            uid
        }
    }

    /// Registers the hotkey on the system's behalf, with a stake on it and a balance for its
    /// coldkey.
    pub fn do_sudo_registration(
        &mut self,
        origin: Origin,
        netuid: u16,
        hotkey: AccountId,
        coldkey: AccountId,
        stake: u64,
        balance: u64,
    ) -> (result: Result<(), Error>)
        requires
            old(self)@.well_formed(),
        ensures
            ({
                let outcome = old(self)@.system_registration(
                    origin,
                    netuid,
                    hotkey,
                    coldkey,
                    stake,
                    balance,
                );
                final(self)@ == outcome.state && result == outcome.result
            }),
            final(self)@.well_formed(),
            forall|netuid: u16|
                old(self)@.counters_add_up(netuid) ==> #[trigger] final(self)@.counters_add_up(
                    netuid,
                ),
    {
        let ghost before = self@;
        ensure_root(origin)?;
        if !self.if_subnet_exist(netuid) {
            return Err(Error::NetworkDoesNotExist);
        }
        if self.is_hotkey_registered_on_network(netuid, &hotkey) {
            return Err(Error::AlreadyRegistered);
        }
        self.create_account_if_non_existent(&coldkey, &hotkey);
        proof {
            lemma_keeps_well_formed(before, self@);
        }
        if !self.coldkey_owns_hotkey(&coldkey, &hotkey) {
            return Err(Error::NonAssociatedColdKey);
        }
        self.increase_stake_on_coldkey_hotkey_account(&coldkey, &hotkey, stake);
        proof {
            lemma_keeps_well_formed(before, self@);
        }
        match self.u64_to_balance(balance) {
            Some(amount) => self.add_balance_to_coldkey_account(&coldkey, amount),
            None => {
                return Err(Error::CouldNotConvertToBalance);
            },
        }
        proof {
            lemma_keeps_well_formed(before, self@);
        }
        let subnetwork_uid = self.fill_slot(netuid, &hotkey);
        let ghost filled = self@;
        self.deposit_event(Event::NeuronRegistered(netuid, subnetwork_uid, hotkey));
        proof {
            lemma_keeps_well_formed(filled, self@);
        }
        Ok(())
    }

    /// Registers the hotkey for the coldkey that signed, which pays the network's burn for it.
    ///
    /// It raises `NetworkDoesNotExist` for a network that does not exist or has no slots,
    /// `TooManyRegistrationsThisBlock` and `TooManyRegistrationsThisInterval` beyond the
    /// network's quotas, and `AlreadyRegistered` for a hotkey that has a slot there already.
    pub fn do_burned_registration(
        &mut self,
        origin: Origin,
        netuid: u16,
        hotkey: AccountId,
    ) -> (result: Result<(), Error>)
        requires
            old(self)@.well_formed(),
            origin is Signed ==> old(self)@.quota_fits(netuid) && old(self)@.counters_add_up(netuid),
            origin is Signed && old(self)@.quota_error(netuid, hotkey@) is None && old(
                self,
            )@.passes_requirements(netuid, hotkey@) ==> old(self)@.parameters_of(netuid).burn
                <= old(self)@.config.max_balance,
        ensures
            match origin {
                Origin::Signed(coldkey) => {
                    let outcome = old(self)@.burned_registration(coldkey, netuid, hotkey);
                    final(self)@ == outcome.state && result == outcome.result
                },
                _ => final(self)@ == old(self)@ && result == Err::<(), Error>(Error::BadOrigin),
            },
            final(self)@.well_formed(),
            forall|netuid: u16|
                old(self)@.counters_add_up(netuid) ==> #[trigger] final(self)@.counters_add_up(
                    netuid,
                ),
    {
        let ghost before = self@;
        let coldkey = ensure_signed(origin)?;
        self.check_quota(netuid, &hotkey)?;
        if !self.passes_network_connection_requirement(netuid, &hotkey) {
            return Err(Error::DidNotPassConnectedNetworkRequirement);
        }
        // Ensure the caller's coldkey has enough to pay for the registration.
        let registration_cost = self.get_hyperparameters(netuid).burn;
        let registration_cost = self.u64_to_balance(registration_cost).unwrap();
        if !self.can_remove_balance_from_coldkey_account(&coldkey, registration_cost) {
            return Err(Error::NotEnoughBalanceToStake);
        }
        if !self.remove_balance_from_coldkey_account(&coldkey, registration_cost) {
            return Err(Error::BalanceWithdrawalError);
        }
        // The burn occurs here.
        self.total_issuance = self.total_issuance.saturating_sub(registration_cost);
        self.create_account_if_non_existent(&coldkey, &hotkey);
        let ghost created = self@;
        proof {
            lemma_keeps_well_formed(before, created);
            assert(created == before.with_burned(netuid, coldkey@).with_account(coldkey, hotkey));
        }
        if !self.coldkey_owns_hotkey(&coldkey, &hotkey) {
            return Err(Error::NonAssociatedColdKey);
        }
        // Possibly there are no neuron slots at all.
        if self.get_hyperparameters(netuid).max_allowed_uids == 0 {
            return Err(Error::NetworkDoesNotExist);
        }
        let subnetwork_uid = self.fill_slot(netuid, &hotkey);
        let ghost filled = self@;
        assert(filled.counters_of(netuid) == before.counters_of(netuid));
        // Record the registration and increment block and interval counters.
        let mut counters = self.get_counters(netuid);
        counters.burn_this_interval += 1;
        counters.this_interval += 1;
        counters.this_block += 1;
        self.counters.insert(netuid, counters);
        let recycled = self.get_rao_recycled(netuid);
        self.rao_recycled.insert(netuid, recycled.saturating_add(registration_cost));
        proof {
            assert(self@ == filled.with_burn_counted(netuid));
            lemma_keeps_well_formed(filled, self@);
            lemma_counted_adds_up(filled, netuid);
        }
        let ghost counted = self@;
        self.deposit_event(Event::NeuronRegistered(netuid, subnetwork_uid, hotkey));
        proof {
            lemma_keeps_well_formed(counted, self@);
        }
        Ok(())
    }

    /// The part of [`Pallet::do_registration`] that follows the computation of the seal, for
    /// work that is fresh and meets the difficulty.
    pub fn register_with_seal(
        &mut self,
        netuid: u16,
        work: Vec<u8>,
        seal: H256,
        hotkey: AccountId,
        coldkey: AccountId,
    ) -> (result: Result<(), Error>)
        requires
            old(self)@.well_formed(),
            old(self)@.quota_fits(netuid),
            old(self)@.counters_add_up(netuid),
            old(self)@.quota_error(netuid, hotkey@) is None,
        ensures
            ({
                let outcome = old(self)@.sealed_registration(
                    netuid,
                    work@,
                    seal@,
                    hotkey,
                    coldkey,
                );
                final(self)@ == outcome.state && result == outcome.result
            }),
            final(self)@.well_formed(),
            forall|netuid: u16|
                old(self)@.counters_add_up(netuid) ==> #[trigger] final(self)@.counters_add_up(
                    netuid,
                ),
    {
        let ghost before = self@;
        // Check that the work is the product of the nonce and the block number, and add it
        // as used work.
        if !Self::hash_to_vec(seal).same(&work) {
            return Err(Error::InvalidSeal);
        }
        let current_block_number = self.block_number;
        let ghost work_bytes = work@;
        self.used_work.insert(work, current_block_number);
        proof {
            assert(self@ == before.with_used_work(work_bytes));
            lemma_keeps_well_formed(before, self@);
            lemma_requirements_rest_on_neurons(before, self@, netuid, hotkey@);
        }
        if !self.passes_network_connection_requirement(netuid, &hotkey) {
            return Err(Error::DidNotPassConnectedNetworkRequirement);
        }
        self.create_account_if_non_existent(&coldkey, &hotkey);
        proof {
            lemma_keeps_well_formed(before, self@);
        }
        if !self.coldkey_owns_hotkey(&coldkey, &hotkey) {
            return Err(Error::NonAssociatedColdKey);
        }
        // Possibly there are no neuron slots at all.
        if self.get_hyperparameters(netuid).max_allowed_uids == 0 {
            return Err(Error::NetworkDoesNotExist);
        }
        let subnetwork_uid = self.fill_slot(netuid, &hotkey);
        let ghost filled = self@;
        assert(filled.counters_of(netuid) == before.counters_of(netuid));
        // Record the registration and increment block and interval counters.
        let mut counters = self.get_counters(netuid);
        counters.pow_this_interval += 1;
        counters.this_interval += 1;
        counters.this_block += 1;
        self.counters.insert(netuid, counters);
        proof {
            assert(self@ == filled.with_work_counted(netuid));
            lemma_keeps_well_formed(filled, self@);
            lemma_counted_adds_up(filled, netuid);
        }
        let ghost counted = self@;
        self.deposit_event(Event::NeuronRegistered(netuid, subnetwork_uid, hotkey));
        proof {
            lemma_keeps_well_formed(counted, self@);
        }
        Ok(())
    }

    /// Registers the hotkey for the coldkey, against work on a recent block.
    ///
    /// It raises `NetworkDoesNotExist` for a network that does not exist or has no slots,
    /// `TooManyRegistrationsThisBlock` and `TooManyRegistrationsThisInterval` beyond the
    /// network's quotas, `AlreadyRegistered` for a hotkey that has a slot there already,
    /// `InvalidWorkBlock` for work on a stale or future block, `WorkRepeated` for work that
    /// was used, `InvalidDifficulty` for work that does not match the difficulty and
    /// `InvalidSeal` where the seal is incorrect.
    pub fn do_registration(
        &mut self,
        origin: Origin,
        netuid: u16,
        block_number: u64,
        nonce: u64,
        work: Vec<u8>,
        hotkey: AccountId,
        coldkey: AccountId,
    ) -> (result: Result<(), Error>)
        requires
            old(self)@.well_formed(),
            origin is Signed ==> old(self)@.quota_fits(netuid) && old(self)@.counters_add_up(netuid),
            origin is Signed && old(self)@.quota_error(netuid, hotkey@) is None && old(
                self,
            )@.freshness_error(block_number, work@) is None ==> work@.len() == 32,
        ensures
            match origin {
                Origin::Signed(_) => {
                    let outcome = old(self)@.work_registration(
                        netuid,
                        block_number,
                        nonce,
                        work@,
                        hotkey,
                        coldkey,
                    );
                    final(self)@ == outcome.state && result == outcome.result
                },
                _ => final(self)@ == old(self)@ && result == Err::<(), Error>(Error::BadOrigin),
            },
            final(self)@.well_formed(),
            forall|netuid: u16|
                old(self)@.counters_add_up(netuid) ==> #[trigger] final(self)@.counters_add_up(
                    netuid,
                ),
    {
        ensure_signed(origin)?;
        self.check_quota(netuid, &hotkey)?;
        // Ensure the passed block number is valid, not in the future or too old.
        // Work must have been done within 3 blocks.
        let current_block_number = self.block_number;
        if block_number > current_block_number {
            return Err(Error::InvalidWorkBlock);
        }
        if current_block_number - block_number >= 3 {
            return Err(Error::InvalidWorkBlock);
        }
        if self.used_work.contains_key(&work) {
            return Err(Error::WorkRepeated);
        }
        // Ensure the supplied work passes the difficulty.
        let difficulty = self.get_hyperparameters(netuid).difficulty;
        let work_hash = Self::vec_to_hash(work.clone());
        if !Self::hash_meets_difficulty(&work_hash, difficulty) {
            return Err(Error::InvalidDifficulty);
        }
        let seal = self.create_seal_hash(block_number, nonce);
        self.register_with_seal(netuid, work, seal, hotkey, coldkey)
    }
}

} // verus!
