//! The proof of work of a registration: the seal of a block and a nonce, and the
//! difficulty that it has to meet.
use crate::hashing::{keccak_256, keccak_256_digest, sha2_256, sha2_256_digest};
use crate::pallet::{zero_bytes, Pallet, State};
use crate::primitives::{big_endian_value, byte_of, u256_bound, H256, U256};
use vstd::arithmetic::power::pow;
use vstd::prelude::*;

verus! {

/// The eight bytes of a nonce, the least significant first.
pub open spec fn nonce_bytes(nonce: u64) -> Seq<u8> {
    Seq::new(8, |i: int| byte_of(nonce as nat, i as nat))
}

/// What is hashed for a seal: the nonce, then the hash of the block.
pub open spec fn seal_preimage(block_hash: Seq<u8>, nonce: u64) -> Seq<u8> {
    nonce_bytes(nonce) + block_hash
}

/// The seal of a block hash and a nonce: the Keccak-256 digest of the SHA2-256 digest
/// of both.
pub open spec fn seal_of(block_hash: Seq<u8>, nonce: u64) -> Seq<u8> {
    keccak_256_digest(sha2_256_digest(seal_preimage(block_hash, nonce)))
}

/// Whether the hash, read as a number, times the difficulty is less than `2^256`.
pub open spec fn meets_difficulty(hash: Seq<u8>, difficulty: nat) -> bool {
    big_endian_value(hash) * difficulty < u256_bound()
}

impl State {
    /// The seal of the block with the given number and the nonce.
    pub open spec fn seal(self, block_number: u64, nonce: u64) -> Seq<u8> {
        seal_of(self.hash_of_block(block_number), nonce)
    }

    /// Whether the seal of the block and the nonce meets the network's difficulty.
    pub open spec fn seal_is_work(self, netuid: u16, block_number: u64, nonce: u64) -> bool {
        meets_difficulty(
            self.seal(block_number, nonce),
            self.parameters_of(netuid).difficulty@,
        )
    }

    /// Whether `nonce` is the first from `start_nonce` on whose seal meets the network's
    /// difficulty.
    pub open spec fn is_first_work(
        self,
        netuid: u16,
        block_number: u64,
        start_nonce: u64,
        nonce: u64,
    ) -> bool {
        &&& start_nonce <= nonce
        &&& self.seal_is_work(netuid, block_number, nonce)
        &&& forall|earlier: u64|
            start_nonce <= earlier < nonce ==> !#[trigger] self.seal_is_work(
                netuid,
                block_number,
                earlier,
            )
    }
}

impl Pallet {
    /// The hash with the given 32 bytes.
    pub fn vec_to_hash(vec_hash: Vec<u8>) -> (hash: H256)
        requires
            vec_hash@.len() == 32,
        ensures
            hash@ == vec_hash@,
    {
        H256::from_slice(vec_hash.as_slice())
    }

    /// The bytes of the hash.
    pub fn hash_to_vec(hash: H256) -> (vec_hash: Vec<u8>)
        ensures
            vec_hash@ == hash@,
    {
        let mut vec_hash: Vec<u8> = Vec::new();
        let mut i: usize = 0;
        while i < 32
            invariant
                i <= 32,
                vec_hash@ =~= hash@.take(i as int),
            decreases 32 - i,
        {
            vec_hash.push(hash.bytes[i]);
            i += 1;
        }
        assert(vec_hash@ =~= hash@);
        vec_hash
    }

    /// Whether the hash satisfies the difficulty: the product of the two does not
    /// overflow a 256-bit number.
    pub fn hash_meets_difficulty(hash: &H256, difficulty: U256) -> (meets: bool)
        ensures
            meets == meets_difficulty(hash@, difficulty@),
    {
        let num_hash = U256::from_big_endian(hash.bytes.as_slice());
        let (_, overflowed) = num_hash.overflowing_mul(difficulty);
        !overflowed
    }

    /// The hash of the block with the given number.
    pub fn get_block_hash_from_u64(&self, block_number: u64) -> (hash: H256)
        requires
            block_number <= self@.config.max_block_number,
        ensures
            hash@ == self@.hash_of_block(block_number),
    {
        match self.block_hash.get(&block_number) {
            Some(hash) => H256::from_slice(hash.bytes.as_slice()),
            None => {
                let zero: [u8; 32] = [0u8;32];
                assert(zero@ =~= zero_bytes());
                H256::from_slice(zero.as_slice())
            },
        }
    }

    /// What is hashed for the seal of the block hash and the nonce.
    pub fn seal_input(block_hash: &H256, nonce: u64) -> (input: Vec<u8>)
        ensures
            input@ == seal_preimage(block_hash@, nonce),
            input@.len() == 40,
    {
        let number = U256::from_u64(nonce);
        let mut input: Vec<u8> = Vec::new();
        let mut i: usize = 0;
        while i < 8
            invariant
                i <= 8,
                number@ == nonce as nat,
                input@ =~= nonce_bytes(nonce).take(i as int),
            decreases 8 - i,
        {
            input.push(number.byte(i));
            i += 1;
        }
        let mut j: usize = 0;
        while j < 32
            invariant
                j <= 32,
                input@ =~= nonce_bytes(nonce) + block_hash@.take(j as int),
            decreases 32 - j,
        {
            input.push(block_hash.bytes[j]);
            j += 1;
        }
        assert(block_hash@.take(32) =~= block_hash@);
        input
    }

    /// The seal of the block with the given number and the nonce.
    pub fn create_seal_hash(&self, block_number_u64: u64, nonce_u64: u64) -> (seal: H256)
        requires
            block_number_u64 <= self@.config.max_block_number,
        ensures
            seal@ == self@.seal(block_number_u64, nonce_u64),
    {
        let block_hash_at_number = self.get_block_hash_from_u64(block_number_u64);
        let full_bytes = Self::seal_input(&block_hash_at_number, nonce_u64);
        let sha256_seal_hash = sha2_256(full_bytes.as_slice());
        let keccak_256_seal_hash = keccak_256(sha256_seal_hash.as_slice());
        H256::from_slice(keccak_256_seal_hash.as_slice())
    }

    /// The first nonce from `start_nonce` on whose seal with the block meets the network's
    /// difficulty, and that seal.
    pub fn create_work_for_block_number(
        &self,
        netuid: u16,
        block_number: u64,
        start_nonce: u64,
    ) -> (work: (u64, Vec<u8>))
        requires
            block_number <= self@.config.max_block_number,
            exists|nonce: u64|
                start_nonce <= nonce && #[trigger] self@.seal_is_work(netuid, block_number, nonce),
        ensures
            self@.is_first_work(netuid, block_number, start_nonce, work.0),
            work.1@ == self@.seal(block_number, work.0),
            work.1@.len() == 32,
    {
        let difficulty = self.get_hyperparameters(netuid).difficulty;
        let mut nonce: u64 = start_nonce;
        let mut work = self.create_seal_hash(block_number, nonce);
        while !Self::hash_meets_difficulty(&work, difficulty)
            invariant
                block_number <= self@.config.max_block_number,
                exists|other: u64|
                    start_nonce <= other && #[trigger] self@.seal_is_work(
                        netuid,
                        block_number,
                        other,
                    ),
                difficulty == self@.parameters_of(netuid).difficulty,
                start_nonce <= nonce,
                work@ == self@.seal(block_number, nonce),
                forall|earlier: u64|
                    start_nonce <= earlier < nonce ==> !#[trigger] self@.seal_is_work(
                        netuid,
                        block_number,
                        earlier,
                    ),
            decreases u64::MAX - nonce,
        {
            assert(!self@.seal_is_work(netuid, block_number, nonce));
            nonce = nonce + 1;
            work = self.create_seal_hash(block_number, nonce);
        }
        assert(self@.seal_is_work(netuid, block_number, nonce));
        let vec_work = Self::hash_to_vec(work);
        (nonce, vec_work)
    }

    /// As [`Pallet::create_work_for_block_number`], on any block and nonce: `None` where
    /// the block has no number that fits, or no nonce from `start_nonce` on will do.
    pub fn find_work_for_block_number(
        &self,
        netuid: u16,
        block_number: u64,
        start_nonce: u64,
    ) -> (work: Option<(u64, Vec<u8>)>)
        ensures
            work is None <==> block_number > self@.config.max_block_number || forall|nonce: u64|
                start_nonce <= nonce ==> !#[trigger] self@.seal_is_work(
                    netuid,
                    block_number,
                    nonce,
                ),
            work matches Some((nonce, bytes)) ==> {
                &&& self@.is_first_work(netuid, block_number, start_nonce, nonce)
                &&& bytes@ == self@.seal(block_number, nonce)
                &&& bytes@.len() == 32
            },
    {
        if block_number > self.config.max_block_number {
            return None;
        }
        let difficulty = self.get_hyperparameters(netuid).difficulty;
        let mut nonce: u64 = start_nonce;
        loop
            invariant
                block_number <= self@.config.max_block_number,
                difficulty == self@.parameters_of(netuid).difficulty,
                start_nonce <= nonce,
                forall|earlier: u64|
                    start_nonce <= earlier < nonce ==> !#[trigger] self@.seal_is_work(
                        netuid,
                        block_number,
                        earlier,
                    ),
            decreases u64::MAX - nonce,
        {
            let seal = self.create_seal_hash(block_number, nonce);
            if Self::hash_meets_difficulty(&seal, difficulty) {
                assert(self@.seal_is_work(netuid, block_number, nonce));
                let work = self.create_work_for_block_number(netuid, block_number, nonce);
                assert(work.0 == nonce);
                return Some(work);
            }
            assert(!self@.seal_is_work(netuid, block_number, nonce));
            if nonce == u64::MAX {
                return None;
            }
            nonce = nonce + 1;
        }
    }
}

/// A hash that meets a difficulty meets every lower one.
pub proof fn law_lower_difficulty_is_easier(hash: Seq<u8>, difficulty: nat, lower: nat)
    requires
        meets_difficulty(hash, difficulty),
        lower <= difficulty,
    ensures
        meets_difficulty(hash, lower),
{
    let value = big_endian_value(hash);
    assert(value * lower <= value * difficulty) by (nonlinear_arith)
        requires
            lower <= difficulty,
    ;
}

/// The value of `bytes` is less than 256 to the power of their number.
proof fn lemma_big_endian_bound(bytes: Seq<u8>)
    ensures
        big_endian_value(bytes) < pow(256, bytes.len()),
    decreases bytes.len(),
{
    reveal(pow);
    if bytes.len() > 0 {
        lemma_big_endian_bound(bytes.drop_last());
        let shorter = pow(256, (bytes.len() - 1) as nat);
        assert(pow(256, bytes.len()) == 256 * shorter);
    }
}

/// Every hash meets the difficulties zero and one.
pub proof fn law_least_difficulties_are_met(hash: Seq<u8>, difficulty: nat)
    requires
        hash.len() == 32,
        difficulty <= 1,
    ensures
        meets_difficulty(hash, difficulty),
{
    lemma_big_endian_bound(hash);
    reveal_with_fuel(pow, 33);
    assert(pow(256, 32) == u256_bound());
    let value = big_endian_value(hash);
    assert(value * difficulty <= value) by (nonlinear_arith)
        requires
            difficulty <= 1,
    ;
}

/// The eight bytes of a nonce give it back.
proof fn lemma_nonce_from_bytes(nonce: u64)
    ensures
        nonce == nonce_bytes(nonce)[0] + nonce_bytes(nonce)[1] * 0x100 + nonce_bytes(nonce)[2]
            * 0x1_0000 + nonce_bytes(nonce)[3] * 0x100_0000 + nonce_bytes(nonce)[4]
            * 0x1_0000_0000 + nonce_bytes(nonce)[5] * 0x100_0000_0000 + nonce_bytes(nonce)[6]
            * 0x1_0000_0000_0000 + nonce_bytes(nonce)[7] * 0x100_0000_0000_0000,
{
    reveal_with_fuel(pow, 9);
    let n = nonce as int;
    assert(pow(256, 0) == 1);
    assert(pow(256, 1) == 0x100);
    assert(pow(256, 2) == 0x1_0000);
    assert(pow(256, 3) == 0x100_0000);
    assert(pow(256, 4) == 0x1_0000_0000);
    assert(pow(256, 5) == 0x100_0000_0000);
    assert(pow(256, 6) == 0x1_0000_0000_0000);
    assert(pow(256, 7) == 0x100_0000_0000_0000);
    assert(n / 0x1_0000 == n / 0x100 / 256);
    assert(n / 0x100_0000 == n / 0x1_0000 / 256);
    assert(n / 0x1_0000_0000 == n / 0x100_0000 / 256);
    assert(n / 0x100_0000_0000 == n / 0x1_0000_0000 / 256);
    assert(n / 0x1_0000_0000_0000 == n / 0x100_0000_0000 / 256);
    assert(n / 0x100_0000_0000_0000 == n / 0x1_0000_0000_0000 / 256);
    assert(n / 0x100_0000_0000_0000 < 256);
}

/// Different nonces, and different block hashes, are sealed from different bytes.
pub proof fn law_seal_inputs_differ(
    block_hash: Seq<u8>,
    nonce: u64,
    other_hash: Seq<u8>,
    other_nonce: u64,
)
    requires
        seal_preimage(block_hash, nonce) == seal_preimage(other_hash, other_nonce),
    ensures
        nonce == other_nonce,
        block_hash == other_hash,
{
    let input = seal_preimage(block_hash, nonce);
    let other = seal_preimage(other_hash, other_nonce);
    assert(input.take(8) =~= nonce_bytes(nonce));
    assert(other.take(8) =~= nonce_bytes(other_nonce));
    assert(input.skip(8) =~= block_hash);
    assert(other.skip(8) =~= other_hash);
    lemma_nonce_from_bytes(nonce);
    lemma_nonce_from_bytes(other_nonce);
}

/// Numbers are read with the most significant byte first: one more byte weighs the bytes before
/// it 256 times as much. The bound of 256 bits is 256 to the power of 32.
pub proof fn law_numbers_are_read_big_endian(bytes: Seq<u8>, byte: u8)
    ensures
        big_endian_value(Seq::<u8>::empty()) == 0,
        big_endian_value(bytes.push(byte)) == 256 * big_endian_value(bytes) + byte,
        u256_bound() == pow(256, 32),
{
    assert(bytes.push(byte).drop_last() =~= bytes);
    reveal_with_fuel(pow, 33);
}

/// A hash meets a difficulty exactly where the number it spells, times the difficulty, is
/// less than `2^256`.
pub proof fn law_difficulty_is_a_product(hash: Seq<u8>, difficulty: nat)
    ensures
        meets_difficulty(hash, difficulty) <==> big_endian_value(hash) * difficulty < pow(256, 32),
{
    reveal_with_fuel(pow, 33);
}

/// Two numbers of eight bytes, the least significant first, are equal only where the bytes are.
proof fn lemma_same_digits(left: Seq<u8>, right: Seq<u8>)
    requires
        left[0] + left[1] * 0x100 + left[2] * 0x1_0000 + left[3] * 0x100_0000 + left[4]
            * 0x1_0000_0000 + left[5] * 0x100_0000_0000 + left[6] * 0x1_0000_0000_0000 + left[7]
            * 0x100_0000_0000_0000 == right[0] + right[1] * 0x100 + right[2] * 0x1_0000
            + right[3] * 0x100_0000 + right[4] * 0x1_0000_0000 + right[5] * 0x100_0000_0000
            + right[6] * 0x1_0000_0000_0000 + right[7] * 0x100_0000_0000_0000,
    ensures
        forall|i: int| 0 <= i < 8 ==> #[trigger] left[i] == right[i],
{
    let l6 = left[6] + 0x100 * left[7];
    let r6 = right[6] + 0x100 * right[7];
    let l5 = left[5] + 0x100 * l6;
    let r5 = right[5] + 0x100 * r6;
    let l4 = left[4] + 0x100 * l5;
    let r4 = right[4] + 0x100 * r5;
    let l3 = left[3] + 0x100 * l4;
    let r3 = right[3] + 0x100 * r4;
    let l2 = left[2] + 0x100 * l3;
    let r2 = right[2] + 0x100 * r3;
    let l1 = left[1] + 0x100 * l2;
    let r1 = right[1] + 0x100 * r2;
    lemma_lowest_digit(left[0], right[0], l1, r1);
    lemma_lowest_digit(left[1], right[1], l2, r2);
    lemma_lowest_digit(left[2], right[2], l3, r3);
    lemma_lowest_digit(left[3], right[3], l4, r4);
    lemma_lowest_digit(left[4], right[4], l5, r5);
    lemma_lowest_digit(left[5], right[5], l6, r6);
    lemma_lowest_digit(left[6], right[6], left[7] as int, right[7] as int);
}

proof fn lemma_lowest_digit(left: u8, right: u8, left_rest: int, right_rest: int)
    requires
        left + 0x100 * left_rest == right + 0x100 * right_rest,
    ensures
        left == right,
        left_rest == right_rest,
{
}

/// The seal is the Keccak-256 digest of the SHA2-256 digest of forty bytes: eight that spell
/// the nonce with the least significant first, then the 32 of the hash that is kept for the
/// block, which are zeros where none is kept.
pub proof fn law_seal_is_of_nonce_and_block_hash(
    state: State,
    block_number: u64,
    nonce: u64,
    input: Seq<u8>,
)
    requires
        input.len() == 40,
        nonce == input[0] + input[1] * 0x100 + input[2] * 0x1_0000 + input[3] * 0x100_0000
            + input[4] * 0x1_0000_0000 + input[5] * 0x100_0000_0000 + input[6]
            * 0x1_0000_0000_0000 + input[7] * 0x100_0000_0000_0000,
        forall|i: int|
            0 <= i < 32 ==> #[trigger] input[8 + i] == (if state.block_hash.dom().contains(
                block_number,
            ) {
                state.block_hash[block_number].bytes@[i]
            } else {
                0u8
            }),
    ensures
        state.seal(block_number, nonce) == keccak_256_digest(sha2_256_digest(input)),
{
    let bytes = nonce_bytes(nonce);
    lemma_nonce_from_bytes(nonce);
    lemma_same_digits(bytes, input);
    let preimage = seal_preimage(state.hash_of_block(block_number), nonce);
    assert forall|i: int| 0 <= i < 40 implies preimage[i] == input[i] by {
        if i >= 8 {
            assert(input[8 + (i - 8)] == input[i]);
        }
    }
    assert(preimage =~= input);
}

/// The nonce of the first work is no earlier than the start, its seal times the difficulty of
/// the network's own hyperparameters is less than `2^256`, and those of the nonces between are
/// not.
pub proof fn law_first_work_is_held_against_the_networks_difficulty(
    state: State,
    netuid: u16,
    block_number: u64,
    start_nonce: u64,
    nonce: u64,
)
    ensures
        state.is_first_work(netuid, block_number, start_nonce, nonce) <==> {
            &&& start_nonce <= nonce
            &&& big_endian_value(state.seal(block_number, nonce)) * state.parameters_of(
                netuid,
            ).difficulty@ < pow(256, 32)
            &&& forall|earlier: u64|
                start_nonce <= earlier < nonce ==> big_endian_value(
                    #[trigger] state.seal(block_number, earlier),
                ) * state.parameters_of(netuid).difficulty@ >= pow(256, 32)
        },
        state.seal_is_work(netuid, block_number, nonce) <==> big_endian_value(
            state.seal(block_number, nonce),
        ) * state.parameters_of(netuid).difficulty@ < pow(256, 32),
{
    reveal_with_fuel(pow, 33);
    let difficulty = state.parameters_of(netuid).difficulty@;
    assert(forall|earlier: u64| #[trigger]
        state.seal_is_work(netuid, block_number, earlier) <==> big_endian_value(
            state.seal(block_number, earlier),
        ) * difficulty < u256_bound());
    assert(forall|earlier: u64|
        big_endian_value(#[trigger] state.seal(block_number, earlier)) * difficulty < u256_bound()
            <==> state.seal_is_work(netuid, block_number, earlier));
}

} // verus!
