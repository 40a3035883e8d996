use subtensor_registration::pallet::Pallet;
use subtensor_registration::primitives::{H256, U256};
use subtensor_registration::types::{Config, Hyperparameters};

fn number(value: u64) -> U256 {
    U256 { limbs: [value, 0, 0, 0] }
}

fn pallet(difficulty: U256, block_number: u64) -> Pallet {
    let initial_hyperparameters = Hyperparameters {
        max_allowed_uids: 4,
        immunity_period: 10,
        max_registrations_per_block: 3,
        target_registrations_per_interval: 2,
        burn: 100,
        difficulty,
    };
    Pallet::new(
        Config {
            max_balance: u64::MAX,
            max_block_number: u32::MAX as u64,
            existential_deposit: 1,
            initial_hyperparameters,
        },
        block_number,
    )
}

fn hash_of(first: u8, rest: u8) -> H256 {
    let mut bytes = [rest; 32];
    bytes[0] = first;
    H256 { bytes }
}

#[test]
fn vec_and_hash_give_each_other_back() {
    let bytes: Vec<u8> = (1..33).collect();
    let hash = Pallet::vec_to_hash(bytes.clone());
    assert_eq!(hash.bytes[0], 1);
    assert_eq!(hash.bytes[31], 32);
    assert_eq!(Pallet::hash_to_vec(hash), bytes);
}

#[test]
fn difficulty_is_met_below_the_overflow() {
    // 2^255 times 1 fits, times 2 does not.
    let half = hash_of(0x80, 0);
    assert!(Pallet::hash_meets_difficulty(&half, number(1)));
    assert!(!Pallet::hash_meets_difficulty(&half, number(2)));
    // 2^255 - 1 times 2 still fits.
    let below_half = hash_of(0x7f, 0xff);
    assert!(Pallet::hash_meets_difficulty(&below_half, number(2)));
    assert!(!Pallet::hash_meets_difficulty(&below_half, number(3)));
}

#[test]
fn every_hash_meets_the_least_difficulties() {
    let greatest = hash_of(0xff, 0xff);
    assert!(Pallet::hash_meets_difficulty(&greatest, number(0)));
    assert!(Pallet::hash_meets_difficulty(&greatest, number(1)));
    assert!(!Pallet::hash_meets_difficulty(&greatest, number(2)));
    let zero = hash_of(0, 0);
    assert!(Pallet::hash_meets_difficulty(&zero, U256 { limbs: [u64::MAX; 4] }));
}

#[test]
fn the_first_byte_of_a_hash_weighs_most() {
    let mut low = [0u8; 32];
    low[31] = 1;
    assert!(Pallet::hash_meets_difficulty(&H256 { bytes: low }, U256 { limbs: [u64::MAX; 4] }));
    let mut high = [0u8; 32];
    high[0] = 1;
    // 2^248 times 2^8 is 2^256.
    assert!(!Pallet::hash_meets_difficulty(&H256 { bytes: high }, number(256)));
    assert!(Pallet::hash_meets_difficulty(&H256 { bytes: high }, number(255)));
}

#[test]
fn a_lower_difficulty_is_easier() {
    let hash = hash_of(0x10, 0);
    assert!(Pallet::hash_meets_difficulty(&hash, number(15)));
    assert!(Pallet::hash_meets_difficulty(&hash, number(14)));
    assert!(!Pallet::hash_meets_difficulty(&hash, number(16)));
}

#[test]
fn seal_input_is_nonce_then_block_hash() {
    let input = Pallet::seal_input(&hash_of(0x22, 0x11), 0x0102030405060708);
    assert_eq!(input.len(), 40);
    assert_eq!(&input[..8], &[8, 7, 6, 5, 4, 3, 2, 1]);
    assert_eq!(input[8], 0x22);
    assert_eq!(&input[9..], &[0x11; 31]);
}

#[test]
fn seal_inputs_differ_with_nonce_and_block() {
    let input = Pallet::seal_input(&hash_of(1, 1), 5);
    assert_ne!(input, Pallet::seal_input(&hash_of(1, 1), 5 + (1 << 56)));
    assert_ne!(input, Pallet::seal_input(&hash_of(2, 1), 5));
}

#[test]
fn block_hash_is_the_stored_one_or_zero() {
    let mut p = pallet(number(1), 9);
    p.block_hash.insert(7, hash_of(3, 4));
    assert_eq!(p.get_block_hash_from_u64(7), hash_of(3, 4));
    assert_eq!(p.get_block_hash_from_u64(8), hash_of(0, 0));
}

#[test]
fn seal_is_keccak_of_sha2() {
    let mut p = pallet(number(1), 9);
    p.block_hash.insert(7, hash_of(0x11, 0x11));
    let expected: [u8; 32] = [
        0xcf, 0x3a, 0xf2, 0x2f, 0x33, 0xff, 0x80, 0x43, 0x03, 0x02, 0xf7, 0x36, 0x32, 0x73, 0x28,
        0x67, 0xa0, 0xba, 0xf3, 0x0e, 0x9e, 0x0f, 0x51, 0x3c, 0xd0, 0xee, 0x69, 0xb9, 0xe0, 0xf0,
        0x4a, 0x92,
    ];
    assert_eq!(p.create_seal_hash(7, 0x0102030405060708).bytes, expected);
    let of_nothing: [u8; 32] = [
        0x2c, 0xbd, 0xd1, 0x68, 0xdd, 0x6c, 0xe8, 0x48, 0x17, 0xc4, 0xf4, 0x3a, 0x59, 0x20, 0xc2,
        0x0a, 0x42, 0xa1, 0x71, 0xdf, 0xc2, 0x84, 0x37, 0xb9, 0x27, 0x05, 0x7d, 0x9a, 0x05, 0xb9,
        0x79, 0xf1,
    ];
    assert_eq!(p.create_seal_hash(8, 0).bytes, of_nothing);
}

#[test]
fn work_is_the_first_seal_that_meets_the_difficulty() {
    let mut p = pallet(number(64), 9);
    p.block_hash.insert(7, hash_of(0x11, 0x11));
    let expected: Vec<u8> = vec![
        0x00, 0x0d, 0xd1, 0x10, 0xda, 0x6a, 0xca, 0x2a, 0xd5, 0xab, 0xbd, 0x60, 0xe8, 0x42, 0xf7,
        0x20, 0x0e, 0xeb, 0x14, 0xb6, 0xb5, 0xd9, 0x1d, 0x37, 0xc8, 0x0f, 0x6c, 0x63, 0xfe, 0xee,
        0xa2, 0xed,
    ];
    assert_eq!(p.create_work_for_block_number(1, 7, 0), (26, expected.clone()));
    assert_eq!(p.find_work_for_block_number(1, 7, 3), Some((26, expected)));
    let (later, work) = p.create_work_for_block_number(1, 7, 27);
    assert!(later > 26);
    assert_eq!(work, Pallet::hash_to_vec(p.create_seal_hash(7, later)));
}

#[test]
fn no_work_is_found_where_none_will_do() {
    let hardest = U256 { limbs: [u64::MAX; 4] };
    let p = pallet(hardest, 9);
    assert_eq!(p.find_work_for_block_number(1, 7, u64::MAX - 3), None);
    assert_eq!(p.find_work_for_block_number(1, u32::MAX as u64 + 1, 0), None);
}
