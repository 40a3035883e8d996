use sp_core::crypto::{AccountId32, Ss58Codec};
use sp_core::{sr25519, Pair};
use subtensor_registration::pallet::Pallet;
use subtensor_registration::primitives::{AccountId, Signature, U256};
use subtensor_registration::types::{Config, Error, Event, Hyperparameters, Origin};

const ADDRESS: &str = "5CDvHBym6RLoxTdX9MS1acpaDbNxaFagqM5LpBiFGjWT6o1n";

fn pallet() -> Pallet {
    let initial_hyperparameters = Hyperparameters {
        max_allowed_uids: 8,
        immunity_period: 10,
        max_registrations_per_block: 3,
        target_registrations_per_interval: 2,
        burn: 100,
        difficulty: U256 { limbs: [1, 0, 0, 0] },
    };
    Pallet::new(
        Config {
            max_balance: u64::MAX,
            max_block_number: u64::MAX,
            existential_deposit: 1,
            initial_hyperparameters,
        },
        100,
    )
}

fn coldkey() -> AccountId {
    [7; 32]
}

fn pair() -> sr25519::Pair {
    sr25519::Pair::from_seed(&[5; 32])
}

fn hotkey() -> AccountId {
    pair().public().0
}

fn sign(message: &str) -> Signature {
    Signature { bytes: pair().sign(message.as_bytes()).0 }
}

#[test]
fn the_public_key_is_the_account() {
    assert_eq!(Pallet::public_key_of(&coldkey()), coldkey());
    let mut counted = [0u8; 32];
    for i in 0..32 {
        counted[i] = i as u8;
    }
    assert_eq!(Pallet::public_key_of(&counted), counted);
}

#[test]
fn the_signature_is_of_the_coldkeys_address() {
    assert_eq!(AccountId32::new(coldkey()).to_ss58check(), ADDRESS);
    let sig = sign(ADDRESS);
    assert!(Pallet::verify_association(&coldkey(), &hotkey(), &sig, 42));
    assert!(!Pallet::verify_association(&coldkey(), &hotkey(), &sig, 0));
    assert!(!Pallet::verify_association(&[8; 32], &hotkey(), &sig, 42));
    assert!(!Pallet::verify_association(&coldkey(), &[8; 32], &sig, 42));
    assert!(!Pallet::verify_association(&coldkey(), &hotkey(), &sign("hello"), 42));
}

#[test]
fn associate_gives_the_hotkey_to_the_signer() {
    let mut p = pallet();
    let result = p.do_associate(Origin::Signed(coldkey()), hotkey(), sign(ADDRESS));
    assert_eq!(result, Ok(()));
    assert!(p.coldkey_owns_hotkey(&coldkey(), &hotkey()));
    assert_eq!(p.stake.get(&(coldkey(), hotkey())), Some(0));
    assert_eq!(p.events, vec![Event::HotkeyAssociated(coldkey(), hotkey())]);
}

#[test]
fn associate_refuses_another_signature() {
    let mut p = pallet();
    let result = p.do_associate(Origin::Signed(coldkey()), hotkey(), sign("hello"));
    assert_eq!(result, Err(Error::AlreadyRegistered));
    assert!(!p.hotkey_account_exists(&hotkey()));
    assert!(p.events.is_empty());
}

#[test]
fn associate_refuses_a_hotkey_with_an_owner() {
    let mut p = pallet();
    p.create_account_if_non_existent(&[9; 32], &hotkey());
    let result = p.do_associate(Origin::Signed(coldkey()), hotkey(), sign(ADDRESS));
    assert_eq!(result, Err(Error::AlreadyRegistered));
    assert_eq!(p.get_owning_coldkey_for_hotkey(&hotkey()), [9; 32]);
    assert!(p.events.is_empty());
}

#[test]
fn association_calls_want_a_signer() {
    let mut p = pallet();
    let sig = sign(ADDRESS);
    assert_eq!(p.do_associate(Origin::Root, hotkey(), sig), Err(Error::BadOrigin));
    assert_eq!(p.do_associate(Origin::Unsigned, hotkey(), sig), Err(Error::BadOrigin));
    assert_eq!(p.do_disassociate(Origin::Root, hotkey()), Err(Error::BadOrigin));
    assert_eq!(p.do_disassociate(Origin::Unsigned, hotkey()), Err(Error::BadOrigin));
}

#[test]
fn a_verified_association_goes_through() {
    let mut p = pallet();
    assert_eq!(
        p.associate_verified(coldkey(), [3; 32], false),
        Err(Error::AlreadyRegistered)
    );
    assert_eq!(p.associate_verified(coldkey(), [3; 32], true), Ok(()));
    assert_eq!(
        p.associate_verified(coldkey(), [3; 32], true),
        Err(Error::AlreadyRegistered)
    );
}

#[test]
fn disassociate_undoes_associate() {
    let mut p = pallet();
    assert_eq!(p.associate_verified(coldkey(), [3; 32], true), Ok(()));
    assert_eq!(p.do_disassociate(Origin::Signed(coldkey()), [3; 32]), Ok(()));
    assert!(!p.hotkey_account_exists(&[3; 32]));
    assert!(p.stake.get(&(coldkey(), [3; 32])).is_none());
    assert_eq!(
        p.events,
        vec![
            Event::HotkeyAssociated(coldkey(), [3; 32]),
            Event::HotkeyDisassociated(coldkey(), [3; 32]),
        ]
    );
    assert_eq!(p.associate_verified([9; 32], [3; 32], true), Ok(()));
}

#[test]
fn disassociate_is_for_the_owner() {
    let mut p = pallet();
    p.create_account_if_non_existent(&[9; 32], &[3; 32]);
    assert_eq!(
        p.do_disassociate(Origin::Signed(coldkey()), [3; 32]),
        Err(Error::NotHotkeyOwner)
    );
    assert_eq!(
        p.do_disassociate(Origin::Signed(coldkey()), [4; 32]),
        Err(Error::NotHotkeyOwner)
    );
    assert!(p.hotkey_account_exists(&[3; 32]));
}

#[test]
fn disassociate_refuses_a_registered_hotkey() {
    let mut p = pallet();
    p.create_account_if_non_existent(&coldkey(), &[3; 32]);
    p.append_neuron(6, &[3; 32]);
    assert_eq!(
        p.do_disassociate(Origin::Signed(coldkey()), [3; 32]),
        Err(Error::OtherAssociation)
    );
}

#[test]
fn disassociate_refuses_a_delegate() {
    let mut p = pallet();
    p.create_account_if_non_existent(&coldkey(), &[3; 32]);
    p.delegates.insert([3; 32], 0);
    assert_eq!(
        p.do_disassociate(Origin::Signed(coldkey()), [3; 32]),
        Err(Error::OtherAssociation)
    );
}

#[test]
fn disassociate_refuses_a_hotkey_with_stake() {
    let mut p = pallet();
    p.create_account_if_non_existent(&coldkey(), &[3; 32]);
    p.increase_stake_on_coldkey_hotkey_account(&coldkey(), &[3; 32], 1);
    assert_eq!(
        p.do_disassociate(Origin::Signed(coldkey()), [3; 32]),
        Err(Error::OtherAssociation)
    );
    assert_eq!(p.get_stake_for_coldkey_and_hotkey(&coldkey(), &[3; 32]), 1);
}
