//! Ratios of two 16-bit integers as 32.32 fixed-point numbers.
use vstd::prelude::*;
use substrate_fixed::types::I32F32;

verus! {

/// Number of fractional bits of a 32.32 fixed-point number, as a factor.
pub open spec fn fixed_one() -> int {
    0x1_0000_0000
}

/// The bits of the 32.32 fixed-point quotient `num / den`: the quotient scaled
/// by 2^32 and truncated.
pub open spec fn ratio_bits(num: int, den: int) -> int {
    (num * fixed_one()) / den
}

/// Divides two integers as `substrate_fixed::types::I32F32` numbers and returns
/// the bits of the quotient.
///
/// Trusted: `I32F32::from_num` is exact on every `u16`, and the division of two
/// `I32F32` shifts the dividend's bits left by 32 in 128-bit arithmetic and
/// divides them by the divisor's bits, which truncates. The contract states
/// that quotient for two converted integers. A zero divisor panics and is left
/// out.
#[verifier::external_body]
pub(crate) fn fixed_ratio(num: u16, den: u16) -> (bits: i64)
    requires
        den != 0,
    ensures
        bits == ratio_bits(num as int, den as int),
{
    (I32F32::from_num(num) / I32F32::from_num(den)).to_bits()
}

} // verus!
