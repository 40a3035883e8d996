//! The calls that give a hotkey to a coldkey, and take it back, without registration.
use crate::crypto::{
    account_to_address, default_address_format, encode_address_of, sr25519_verifies, ss58_address,
    verify_sr25519,
};
use crate::pallet::{lemma_keeps_well_formed, Pallet, State};
use crate::primitives::{AccountId, Signature};
use crate::registration::Outcome;
use crate::storage::StorageKey;
use crate::types::{ensure_signed, Error, Event, Origin};
use vstd::prelude::*;

verus! {

impl State {
    /// What the association of the hotkey with the coldkey comes to, where `verified` says
    /// whether the hotkey's signature of the coldkey's address is valid.
    pub open spec fn association(
        self,
        coldkey: AccountId,
        hotkey: AccountId,
        verified: bool,
    ) -> Outcome {
        if !verified || self.owner.dom().contains(hotkey@) {
            Outcome { state: self, result: Err(Error::AlreadyRegistered) }
        } else {
            Outcome {
                state: self.with_account(coldkey, hotkey).with_event(
                    Event::HotkeyAssociated(coldkey, hotkey),
                ),
                result: Ok(()),
            }
        }
    }

    /// Whether the hotkey is in use: it has a slot on some network, is a delegate, or holds a
    /// stake of the coldkey.
    pub open spec fn is_in_use(self, coldkey: Seq<u8>, hotkey: Seq<u8>) -> bool {
        ||| self.is_registered_anywhere(hotkey)
        ||| self.delegates.dom().contains(hotkey)
        ||| self.stake_of(coldkey, hotkey) > 0
    }

    /// The hotkey belongs to nobody, and the coldkey has no stake on it.
    pub open spec fn without_account(self, coldkey: Seq<u8>, hotkey: Seq<u8>) -> State {
        State {
            owner: self.owner.remove(hotkey),
            stake: self.stake.remove((coldkey, hotkey)),
            ..self
        }
    }

    /// What the disassociation of the hotkey from the coldkey comes to.
    pub open spec fn disassociation(self, coldkey: AccountId, hotkey: AccountId) -> Outcome {
        if self.owner_of(hotkey@) != coldkey@ {
            Outcome { state: self, result: Err(Error::NotHotkeyOwner) }
        } else if self.is_in_use(coldkey@, hotkey@) {
            Outcome { state: self, result: Err(Error::OtherAssociation) }
        } else {
            Outcome {
                state: self.without_account(coldkey@, hotkey@).with_event(
                    Event::HotkeyDisassociated(coldkey, hotkey),
                ),
                result: Ok(()),
            }
        }
    }
}

impl Pallet {
    /// The public key that the account stands for: its encoded address without the byte
    /// that says what kind of address it is.
    pub fn public_key_of(account: &AccountId) -> (public: [u8; 32])
        ensures
            public@ == account@,
    {
        let encoded = encode_address_of(account);
        let mut public: [u8; 32] = [0u8;32];
        let mut i: usize = 0;
        while i < 32
            invariant
                i <= 32,
                encoded@ == seq![0u8] + account@,
                forall|j: int| 0 <= j < i ==> public@[j] == account@[j],
            decreases 32 - i,
        {
            public[i] = encoded[i + 1];
            i += 1;
        }
        assert(public@ =~= account@);
        public
    }

    /// Whether the signature is the hotkey's, of the coldkey's address in the given format.
    pub fn verify_association(
        coldkey: &AccountId,
        hotkey: &AccountId,
        sig: &Signature,
        format: u16,
    ) -> (verified: bool)
        ensures
            verified == sr25519_verifies(sig@, ss58_address(coldkey@, format), hotkey@),
    {
        let hotkey_sr25519 = Self::public_key_of(hotkey);
        let signed_data = account_to_address(coldkey, format);
        verify_sr25519(sig, signed_data.as_slice(), &hotkey_sr25519)
    }

    /// The part of [`Pallet::do_associate`] that follows the verification of the signature.
    pub fn associate_verified(
        &mut self,
        coldkey: AccountId,
        hotkey: AccountId,
        verified: bool,
    ) -> (result: Result<(), Error>)
        ensures
            ({
                let outcome = old(self)@.association(coldkey, hotkey, verified);
                final(self)@ == outcome.state && result == outcome.result
            }),
            old(self)@.well_formed() ==> final(self)@.well_formed(),
            forall|netuid: u16|
                old(self)@.counters_add_up(netuid) ==> #[trigger] final(self)@.counters_add_up(
                    netuid,
                ),
    {
        let ghost before = self@;
        if !verified {
            return Err(Error::AlreadyRegistered);
        }
        // Check the hotkey isn't already associated with a coldkey.
        if self.hotkey_account_exists(&hotkey) {
            return Err(Error::AlreadyRegistered);
        }
        self.create_account_if_non_existent(&coldkey, &hotkey);
        self.deposit_event(Event::HotkeyAssociated(coldkey, hotkey));
        proof {
            lemma_keeps_well_formed(before, self@);
        }
        Ok(())
    }

    /// Associates the hotkey with the coldkey that signed the call, without registration. The
    /// hotkey has to have signed the coldkey's address.
    ///
    /// It raises `AlreadyRegistered` for a hotkey that is associated with a coldkey, and for a
    /// signature that is not the hotkey's.
    ///
    /// The address is printed in the format that the process prints addresses in, of which
    /// nothing is known here: the contract holds with some format.
    pub fn do_associate(&mut self, origin: Origin, hotkey: AccountId, sig: Signature) -> (result:
        Result<(), Error>)
        ensures
            match origin {
                Origin::Signed(coldkey) => exists|format: u16|
                    {
                        let outcome = old(self)@.association(
                            coldkey,
                            hotkey,
                            sr25519_verifies(
                                sig@,
                                #[trigger] ss58_address(coldkey@, format),
                                hotkey@,
                            ),
                        );
                        final(self)@ == outcome.state && result == outcome.result
                    },
                _ => final(self)@ == old(self)@ && result == Err::<(), Error>(Error::BadOrigin),
            },
            old(self)@.well_formed() ==> final(self)@.well_formed(),
            forall|netuid: u16|
                old(self)@.counters_add_up(netuid) ==> #[trigger] final(self)@.counters_add_up(
                    netuid,
                ),
    {
        let coldkey = ensure_signed(origin)?;
        let format = default_address_format();
        let verified = Self::verify_association(&coldkey, &hotkey, &sig, format);
        self.associate_verified(coldkey, hotkey, verified)
    }

    /// Takes the hotkey from the coldkey that signed the call.
    ///
    /// It raises `NotHotkeyOwner` for another coldkey's hotkey, and `OtherAssociation` for a
    /// hotkey that is registered to a network, is an active delegate or has an active stake.
    pub fn do_disassociate(&mut self, origin: Origin, hotkey: AccountId) -> (result: Result<
        (),
        Error,
    >)
        ensures
            match origin {
                Origin::Signed(coldkey) => {
                    let outcome = old(self)@.disassociation(coldkey, hotkey);
                    final(self)@ == outcome.state && result == outcome.result
                },
                _ => final(self)@ == old(self)@ && result == Err::<(), Error>(Error::BadOrigin),
            },
            old(self)@.well_formed() ==> final(self)@.well_formed(),
            forall|netuid: u16|
                old(self)@.counters_add_up(netuid) ==> #[trigger] final(self)@.counters_add_up(
                    netuid,
                ),
    {
        let ghost before = self@;
        let coldkey = ensure_signed(origin)?;
        if !self.get_owning_coldkey_for_hotkey(&hotkey).same(&coldkey) {
            return Err(Error::NotHotkeyOwner);
        }
        // Check if the hotkey is registered to a subnet.
        if self.is_hotkey_registered_on_any_network(&hotkey) {
            return Err(Error::OtherAssociation);
        }
        // Check if the hotkey is an active delegate.
        if self.hotkey_is_delegate(&hotkey) {
            return Err(Error::OtherAssociation);
        }
        // Check if the hotkey has an active stake.
        if self.get_stake_for_coldkey_and_hotkey(&coldkey, &hotkey) > 0 {
            return Err(Error::OtherAssociation);
        }
        self.owner.remove(&hotkey);
        self.stake.remove(&(coldkey, hotkey));
        self.deposit_event(Event::HotkeyDisassociated(coldkey, hotkey));
        proof {
            lemma_keeps_well_formed(before, self@);
        }
        Ok(())
    }
}

} // verus!
