//! Plain values of the chain: accounts, hashes, 256-bit numbers and signatures,
//! with the calls into `sp_core` that compute on them.
use vstd::arithmetic::power::pow;
use vstd::prelude::*;

verus! {

/// An account: a 32-byte public key.
pub type AccountId = [u8; 32];

/// A 256-bit hash.
#[derive(Clone, Copy, Debug, PartialEq, Eq)]
pub struct H256 {
    pub bytes: [u8; 32],
}

/// A 256-bit unsigned number, as four 64-bit limbs, the least significant first.
#[derive(Clone, Copy, Debug, PartialEq, Eq)]
pub struct U256 {
    pub limbs: [u64; 4],
}

/// An sr25519 signature.
#[derive(Clone, Copy, Debug, PartialEq, Eq)]
pub struct Signature {
    pub bytes: [u8; 64],
}

impl View for H256 {
    type V = Seq<u8>;

    open spec fn view(&self) -> Seq<u8> {
        self.bytes@
    }
}

impl View for U256 {
    type V = nat;

    open spec fn view(&self) -> nat {
        limbs_value(self.limbs@)
    }
}

impl View for Signature {
    type V = Seq<u8>;

    open spec fn view(&self) -> Seq<u8> {
        self.bytes@
    }
}

/// Two to the power of 256.
pub open spec fn u256_bound() -> nat {
    0x1_0000_0000_0000_0000_0000_0000_0000_0000_0000_0000_0000_0000_0000_0000_0000_0000nat
}

/// The number whose four 64-bit limbs are `limbs`, the least significant first.
pub open spec fn limbs_value(limbs: Seq<u64>) -> nat {
    (limbs[0] + limbs[1] * 0x1_0000_0000_0000_0000 + limbs[2]
        * 0x1_0000_0000_0000_0000_0000_0000_0000_0000 + limbs[3]
        * 0x1_0000_0000_0000_0000_0000_0000_0000_0000_0000_0000_0000_0000) as nat
}

/// The number whose base-256 digits are `bytes`, the most significant first.
pub open spec fn big_endian_value(bytes: Seq<u8>) -> nat
    decreases bytes.len(),
{
    if bytes.len() == 0 {
        0
    } else {
        big_endian_value(bytes.drop_last()) * 256 + bytes.last() as nat
    }
}

/// The base-256 digit of `value` that has the weight `256^index`.
pub open spec fn byte_of(value: nat, index: nat) -> u8 {
    ((value as int / pow(256, index)) % 256) as u8
}

impl U256 {
    /// `sp_core::U256::from` on a `u64`: the same number.
    #[verifier::external_body]
    pub(crate) fn from_u64(value: u64) -> (number: U256)
        ensures
            number@ == value as nat,
    {
        U256 { limbs: sp_core::U256::from(value).0 }
    }

    /// `sp_core::U256::from` on a slice of bytes: the number that the bytes spell
    /// with the most significant byte first. It panics on more than 32 bytes.
    #[verifier::external_body]
    pub(crate) fn from_big_endian(bytes: &[u8]) -> (number: U256)
        requires
            bytes@.len() <= 32,
        ensures
            number@ == big_endian_value(bytes@),
    {
        U256 { limbs: sp_core::U256::from(bytes).0 }
    }

    /// `sp_core::U256::byte`: the byte of weight `256^index`. It panics on an index
    /// of 32 and more.
    #[verifier::external_body]
    pub(crate) fn byte(&self, index: usize) -> (byte: u8)
        requires
            index < 32,
        ensures
            byte == byte_of(self@, index as nat),
    {
        sp_core::U256(self.limbs).byte(index)
    }

    /// `sp_core::U256::overflowing_mul`: the product modulo `2^256`, and whether the
    /// product is not less than `2^256`.
    #[verifier::external_body]
    pub(crate) fn overflowing_mul(self, other: U256) -> (result: (U256, bool))
        ensures
            result.0@ == (self@ * other@) % u256_bound(),
            result.1 == (self@ * other@ >= u256_bound()),
    {
        let (product, overflowed) = sp_core::U256(self.limbs).overflowing_mul(
            sp_core::U256(other.limbs),
        );
        (U256 { limbs: product.0 }, overflowed)
    }
}

impl H256 {
    /// `sp_core::H256::from_slice`: the hash with the given bytes. It panics on a
    /// slice of any length but 32.
    #[verifier::external_body]
    pub(crate) fn from_slice(bytes: &[u8]) -> (hash: H256)
        requires
            bytes@.len() == 32,
        ensures
            hash@ == bytes@,
    {
        H256 { bytes: sp_core::H256::from_slice(bytes).0 }
    }
}

} // verus!
