//! Bit patterns of the 32-bit floats that the library names. It carries floats as these
//! patterns and leaves arithmetic on them to its caller.

use vstd::arithmetic::power2::{lemma2_to64, pow2};
use vstd::prelude::*;

verus! {

/// 0.0
pub const ZERO_BITS: u32 = 0;

/// 1.0
pub const ONE_BITS: u32 = 0x3F80_0000;

/// One over the square root of two.
pub const INV_SQRT2_BITS: u32 = 0x3F35_04F3;

/// Whether a pattern is that of a float above zero and below infinity.
pub open spec fn is_positive(bits: u32) -> bool {
    0 < bits < 0x7F80_0000
}

/// The whole number that a normal float is, scaled up by the power of two that makes it
/// one.
pub open spec fn significand(bits: u32) -> int {
    0x80_0000 + bits as int % 0x80_0000
}

/// Whether a pattern is that of a normal positive float with `shift` binary places behind
/// the last digit of its significand.
pub open spec fn has_places(bits: u32, shift: nat) -> bool {
    0 < bits as int / 0x80_0000 < 255 && bits as int / 0x80_0000 == 150 - shift
}

/// Whether a pattern is that of the float next to `num / den`: no more than half a unit in
/// its last place away from it.
pub open spec fn is_next_to(bits: u32, num: int, den: int, shift: nat) -> bool {
    &&& has_places(bits, shift)
    &&& -den <= 2 * (significand(bits) * den - num * pow2(shift)) <= den
}

/// The powers of two that the named floats need.
pub proof fn lemma_powers()
    ensures
        pow2(19) == 0x8_0000,
        pow2(23) == 0x80_0000,
        pow2(24) == 0x100_0000,
        pow2(25) == 0x200_0000,
        pow2(26) == 0x400_0000,
        pow2(27) == 0x800_0000,
        pow2(28) == 0x1000_0000,
        pow2(29) == 0x2000_0000,
        pow2(30) == 0x4000_0000,
        pow2(31) == 0x8000_0000,
        pow2(32) == 0x1_0000_0000,
        pow2(33) == 0x2_0000_0000,
{
    lemma2_to64();
    vstd::arithmetic::power2::lemma_pow2_adds(32, 1);
}

/// The named floats are what they are called: zero, one, and one over the square root of
/// two, which lies less than half a unit in the last place away.
pub proof fn law_named_floats()
    ensures
        ZERO_BITS == 0,
        is_next_to(ONE_BITS, 1, 1, 23),
        has_places(INV_SQRT2_BITS, 24),
        (2 * significand(INV_SQRT2_BITS) - 1) * (2 * significand(INV_SQRT2_BITS) - 1) * 2 < 4
            * pow2(24) * pow2(24) < (2 * significand(INV_SQRT2_BITS) + 1) * (2 * significand(
            INV_SQRT2_BITS,
        ) + 1) * 2,
{
    lemma_powers();
    let m = significand(INV_SQRT2_BITS);
    let p = pow2(24);
    assert(m == 0xB5_04F3);
    assert((2 * m - 1) * (2 * m - 1) * 2 < 4 * p * p < (2 * m + 1) * (2 * m + 1) * 2)
        by (nonlinear_arith)
        requires
            m == 0xB5_04F3,
            p == 0x100_0000,
    ;
}

} // verus!
