//! Signed fixed-point numbers with 32 fractional bits, given by their bits:
//! `bits` stands for the number `bits / 2^32`. The arithmetic is that of
//! `substrate_fixed::types::I32F32`.
use substrate_fixed::types::I32F32;
use vstd::prelude::*;

verus! {

/// The bits of one.
pub open spec fn fixed_one() -> int {
    0x1_0000_0000
}

/// `I32F32::from_num` on a `u16`: the number itself, which always fits.
#[verifier::external_body]
pub(crate) fn from_num(value: u16) -> (bits: i64)
    ensures
        bits == value * fixed_one(),
{
    I32F32::from_num(value).to_bits()
}

/// `I32F32`'s `/` on numbers that are not negative: the quotient, its bits rounded
/// down. It panics on a divisor of zero and on a quotient that does not fit.
#[verifier::external_body]
pub(crate) fn div(dividend: i64, divisor: i64) -> (bits: i64)
    requires
        0 <= dividend,
        0 < divisor,
        dividend * fixed_one() / divisor as int <= i64::MAX,
    ensures
        bits == dividend * fixed_one() / divisor as int,
{
    (I32F32::from_bits(dividend) / I32F32::from_bits(divisor)).to_bits()
}

/// `I32F32`'s `>`: the order of the bits.
#[verifier::external_body]
pub(crate) fn gt(left: i64, right: i64) -> (greater: bool)
    ensures
        greater == (left > right),
{
    I32F32::from_bits(left) > I32F32::from_bits(right)
}

} // verus!
