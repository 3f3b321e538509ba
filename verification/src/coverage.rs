//! Decoding of raw rasterizer coverage samples into fixed-point brightness
//! units.
//!
//! The rasterizer reports, for every pixel it visits, a fractional coverage
//! value: how much of the pixel cell is covered by glyph ink.  Each sample
//! arrives as the raw bit pattern of an IEEE 754 single-precision number.
//! This module interprets that bit pattern with exact integer arithmetic:
//! the coverage fraction is clamped to [0, 1], scaled to the brightness
//! range [0, 255], and represented in fixed point with 16 fractional bits,
//! so a fully covered cell is worth exactly `FULL_COVERAGE` units.

use vstd::prelude::*;
use vstd::arithmetic::power2::{pow2, lemma_pow2_pos, lemma_pow2_unfold, lemma_pow2_strictly_increases, lemma2_to64, lemma2_to64_rest};
use vstd::arithmetic::div_mod::{lemma_basic_div, lemma_div_pos_is_pos, lemma_div_is_ordered_by_denominator, lemma_multiply_divide_lt};

verus! {

/// Brightness units of a cell wholly covered by ink: 255 in fixed point
/// with 16 fractional bits.
pub const FULL_COVERAGE: u32 = 0xFF_0000;

/// The brightness units that one raw coverage sample is worth.
///
/// `bits` is the bit pattern of an IEEE 754 single-precision number `v`
/// (1 sign bit, 8 exponent bits, 23 fraction bits); the result is
/// `floor(clamp(v, 0, 1) * 255 * 2^16)`:
/// - a sign bit means `v <= 0`, which clamps to no ink at all;
/// - an exponent of 127 or more means `v >= 1` (or a non-finite value),
///   which clamps to full coverage;
/// - otherwise `v = (2^23 + frac) * 2^(exp - 150)`, so the scaled value is
///   `255 * (2^23 + frac) * 2^(exp - 150 + 16)`, truncated to a whole
///   number of units.  Exponent 0 would denote a subnormal without the
///   implicit leading bit, but every such value truncates to 0 units
///   either way.
pub open spec fn scaled_coverage(bits: u32) -> int {
    let exp = (bits / 0x80_0000) % 0x100;
    let frac = bits % 0x80_0000;
    if bits >= 0x8000_0000 {
        0
    } else if exp >= 127 {
        FULL_COVERAGE as int
    } else {
        (255 * (0x80_0000 + frac)) / pow2((134 - exp) as nat) as int
    }
}

/// Every coverage sample is worth between 0 and `FULL_COVERAGE` units.
pub proof fn lemma_scaled_coverage_bound(bits: u32)
    ensures
        0 <= scaled_coverage(bits) <= FULL_COVERAGE,
{
    let exp = (bits / 0x80_0000) % 0x100;
    let frac = bits % 0x80_0000;
    if bits < 0x8000_0000 && exp < 127 {
        let num = 255 * (0x80_0000 + frac);
        let shift = (134 - exp) as nat;
        lemma_pow2_pos(shift);
        lemma_div_pos_is_pos(num, pow2(shift) as int);
        lemma2_to64();
        if shift > 8 {
            lemma_pow2_strictly_increases(8, shift);
        }
        lemma_div_is_ordered_by_denominator(num, 256, pow2(shift) as int);
        lemma_multiply_divide_lt(num, 256, FULL_COVERAGE as int);
    }
}

/// 2 to the power `e`, as a machine word.
fn pow2_u64(e: u32) -> (r: u64)
    requires
        e < 64,
    ensures
        r == pow2(e as nat),
{
    let mut r: u64 = 1;
    let mut i: u32 = 0;
    proof {
        lemma2_to64();
    }
    while i < e
        invariant
            i <= e,
            e < 64,
            r == pow2(i as nat),
        decreases e - i,
    {
        proof {
            lemma_pow2_unfold((i + 1) as nat);
            if i + 1 < 64 {
                lemma_pow2_strictly_increases((i + 1) as nat, 64);
            }
            lemma2_to64();
        }
        r = r * 2;
        i = i + 1;
    }
    r
}

/// Turns one raw coverage sample into brightness units.
pub fn coverage_units(bits: u32) -> (units: u32)
    ensures
        units == scaled_coverage(bits),
        units <= FULL_COVERAGE,
{
    proof {
        lemma_scaled_coverage_bound(bits);
    }
    if bits >= 0x8000_0000 {
        0
    } else {
        let exp: u32 = (bits / 0x80_0000) % 0x100;
        let frac: u32 = bits % 0x80_0000;
        if exp >= 127 {
            FULL_COVERAGE
        } else if exp < 102 {
            // The value is below 2^-25, so even after scaling it truncates
            // to no whole unit: the numerator is under 2^33 while the
            // divisor is at least 2^33.
            proof {
                let num = 255 * (0x80_0000 + frac as int);
                lemma2_to64_rest();
                if exp < 101 {
                    lemma_pow2_strictly_increases(33, (134 - exp) as nat);
                }
                lemma_basic_div(num, pow2((134 - exp) as nat) as int);
            }
            0
        } else {
            proof {
                lemma_pow2_pos((134 - exp) as nat);
            }
            let num: u64 = 255u64 * (0x80_0000u64 + frac as u64);
            let divisor: u64 = pow2_u64(134 - exp);
            (num / divisor) as u32
        }
    }
}

} // verus!
