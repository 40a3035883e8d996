//! Origins, errors and events of the pallet's calls, and the values that it keeps
//! for each network.
use crate::primitives::{AccountId, U256};
use vstd::prelude::*;

verus! {

/// Who dispatched a call.
#[derive(Clone, Copy, Debug, PartialEq, Eq)]
pub enum Origin {
    /// The system itself.
    Root,
    /// An account that signed the call.
    Signed(AccountId),
    /// Nobody: the call came without a signature.
    Unsigned,
}

/// Why a call was refused.
#[derive(Clone, Copy, Debug, PartialEq, Eq)]
pub enum Error {
    /// The call does not accept this origin.
    BadOrigin,
    /// The network does not exist, or has no slot for a neuron.
    NetworkDoesNotExist,
    /// The registration exceeds the number allowed on this network in this block.
    TooManyRegistrationsThisBlock,
    /// The registration exceeds the number allowed on this network in this interval.
    TooManyRegistrationsThisInterval,
    /// The hotkey is already registered on this network, or already associated.
    AlreadyRegistered,
    /// The hotkey does not pass the requirement of a connected network.
    DidNotPassConnectedNetworkRequirement,
    /// The coldkey holds less than the registration costs.
    NotEnoughBalanceToStake,
    /// The cost could not be withdrawn from the coldkey.
    BalanceWithdrawalError,
    /// The amount does not fit the type of balances.
    CouldNotConvertToBalance,
    /// The hotkey belongs to another coldkey.
    NonAssociatedColdKey,
    /// The caller does not own the hotkey.
    NotHotkeyOwner,
    /// The hotkey is still in use.
    OtherAssociation,
    /// The work was done on a block of the future or on one that is too old.
    InvalidWorkBlock,
    /// The work has been used before.
    WorkRepeated,
    /// The work does not meet the difficulty.
    InvalidDifficulty,
    /// The work is not the seal of the block and the nonce.
    InvalidSeal,
}

/// What a call reports when it succeeds.
#[derive(Clone, Copy, Debug, PartialEq, Eq)]
pub enum Event {
    /// A hotkey took a slot: the network, the slot, the hotkey.
    NeuronRegistered(u16, u16, AccountId),
    /// A coldkey and a hotkey were associated.
    HotkeyAssociated(AccountId, AccountId),
    /// A coldkey and a hotkey were disassociated.
    HotkeyDisassociated(AccountId, AccountId),
}

/// What the owner of a network sets for it.
#[derive(Clone, Copy, Debug, PartialEq, Eq)]
pub struct Hyperparameters {
    /// How many neurons fit in the network.
    pub max_allowed_uids: u16,
    /// For how many blocks after its registration a neuron is immune.
    pub immunity_period: u16,
    /// How many registrations one block may hold.
    pub max_registrations_per_block: u16,
    /// How many registrations an interval aims at; it may hold three times as many.
    pub target_registrations_per_interval: u16,
    /// What a registration without work costs.
    pub burn: u64,
    /// How hard the work of a registration is.
    pub difficulty: U256,
}

/// How many registrations a network has seen.
#[derive(Clone, Copy, Debug, PartialEq, Eq)]
pub struct Counters {
    /// In this block.
    pub this_block: u16,
    /// In this interval.
    pub this_interval: u16,
    /// In this interval, by work.
    pub pow_this_interval: u16,
    /// In this interval, by burning.
    pub burn_this_interval: u16,
}

/// What the runtime fixes for the pallet.
#[derive(Clone, Copy, Debug, PartialEq, Eq)]
pub struct Config {
    /// The largest amount that the type of balances holds.
    pub max_balance: u64,
    /// The largest number that the type of block numbers holds.
    pub max_block_number: u64,
    /// What a withdrawal has to leave in the account.
    pub existential_deposit: u64,
    /// The hyperparameters of a network for which none were set.
    pub initial_hyperparameters: Hyperparameters,
}

/// Accepts the system's own calls only.
pub fn ensure_root(origin: Origin) -> (result: Result<(), Error>)
    ensures
        result == (match origin {
            Origin::Root => Ok(()),
            _ => Err::<(), Error>(Error::BadOrigin),
        }),
{
    match origin {
        Origin::Root => Ok(()),
        _ => Err(Error::BadOrigin),
    }
}

/// The account that signed the call.
pub fn ensure_signed(origin: Origin) -> (result: Result<AccountId, Error>)
    ensures
        result == (match origin {
            Origin::Signed(account) => Ok(account),
            _ => Err::<AccountId, Error>(Error::BadOrigin),
        }),
{
    match origin {
        Origin::Signed(account) => Ok(account),
        _ => Err(Error::BadOrigin),
    }
}

} // verus!
