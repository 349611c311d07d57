//! Telemetry readings that arrive as single-precision floating-point numbers.
//!
//! A reading is taken by its bit pattern: one sign bit, eight bits of exponent and
//! twenty-three bits of fraction. Every finite value of the format is a whole number of
//! units of two to the power of minus 149, so a reading divided by its ceiling is a
//! fraction of whole numbers, and the brightness that stands for it is exact.

use crate::brightness::{
    lemma_ratio_level_saturates, lemma_ratio_level_scales, ratio_level, Brightness, SCALE,
};
use vstd::arithmetic::power2::{
    lemma2_to64, lemma_pow2_adds, lemma_pow2_pos, lemma_pow2_strictly_increases, pow2,
};
use vstd::prelude::*;

verus! {

/// The sign bit is set: a negative number, or a zero or a not-a-number with that sign.
pub open spec fn sign_is_set(bits: u32) -> bool {
    bits >= 0x8000_0000
}

/// The exponent field, between 0 and 255.
pub open spec fn exponent_of(bits: u32) -> nat {
    (bits as nat / 0x80_0000) % 0x100
}

/// The fraction field, below two to the power of 23.
pub open spec fn fraction_of(bits: u32) -> nat {
    bits as nat % 0x80_0000
}

/// Neither a number nor an infinity has the exponent 255; with it, a fraction other than
/// zero marks a not-a-number.
pub open spec fn is_nan(bits: u32) -> bool {
    exponent_of(bits) == 255 && fraction_of(bits) != 0
}

pub open spec fn is_infinite(bits: u32) -> bool {
    exponent_of(bits) == 255 && fraction_of(bits) == 0
}

/// The magnitude of a finite value, in units of two to the power of minus 149.
pub open spec fn units_of(bits: u32) -> nat {
    if exponent_of(bits) == 0 {
        fraction_of(bits)
    } else {
        (0x80_0000 + fraction_of(bits)) * pow2((exponent_of(bits) - 1) as nat)
    }
}

/// The brightness that stands for the reading `bits` on a scale from zero to `ceiling`:
/// the reading divided by the ceiling, to the nearest millionth and clamped between off
/// and fully on. What is not a number, or is negative, is off; so is every reading when
/// there is no ceiling.
pub open spec fn reading_level(bits: u32, ceiling: nat) -> nat {
    if sign_is_set(bits) || is_nan(bits) || ceiling == 0 {
        0
    } else if is_infinite(bits) {
        SCALE as nat
    } else {
        ratio_level(units_of(bits), pow2(149) * ceiling)
    }
}

/// Two to the power of `exponent`, for an exponent that fits.
fn power_of_two(exponent: u32) -> (power: u64)
    requires
        exponent < 64,
    ensures
        power == pow2(exponent as nat),
{
    proof {
        vstd::bits::lemma_u64_pow2_no_overflow(exponent as nat);
        vstd::bits::lemma_u64_shl_is_mul(1, exponent as u64);
    }
    1u64 << (exponent as u64)
}

impl Brightness {
    /// The brightness that stands for a reading on a scale from zero to `ceiling`, the
    /// reading given as the bit pattern of a single-precision number.
    pub fn from_reading(bits: u32, ceiling: u32) -> (b: Brightness)
        ensures
            b@ == reading_level(bits, ceiling as nat),
    {
        let exponent: u32 = bits / 0x80_0000 % 0x100;
        let fraction: u32 = bits % 0x80_0000;
        if bits >= 0x8000_0000 || (exponent == 255 && fraction != 0) || ceiling == 0 {
            return Brightness::off();
        }
        if exponent == 255 {
            return Brightness::full();
        }
        let significand: u32 = if exponent == 0 {
            fraction
        } else {
            0x80_0000 + fraction
        };
        let shift: u32 = if exponent == 0 {
            0
        } else {
            exponent - 1
        };
        proof {
            lemma2_to64();
            assert(units_of(bits) == significand * pow2(shift as nat));
        }
        if shift >= 149 {
            let up: u32 = shift - 149;
            proof {
                lemma_pow2_adds(up as nat, 149);
                lemma_pow2_pos(149);
                assert(significand * pow2(shift as nat) == (significand * pow2(up as nat)) * pow2(
                    149,
                )) by (nonlinear_arith)
                    requires
                        pow2(shift as nat) == pow2(up as nat) * pow2(149),
                ;
                assert(pow2(149) * ceiling as nat == ceiling as nat * pow2(149))
                    by (nonlinear_arith);
                lemma_ratio_level_scales(
                    significand as nat * pow2(up as nat),
                    ceiling as nat,
                    pow2(149),
                );
            }
            if up >= 9 {
                proof {
                    if up > 9 {
                        lemma_pow2_strictly_increases(9, up as nat);
                    }
                    assert(significand * pow2(up as nat) >= 0x80_0000 * 0x200) by (nonlinear_arith)
                        requires
                            significand >= 0x80_0000,
                            pow2(up as nat) >= 0x200,
                    ;
                    lemma_ratio_level_saturates(
                        significand as nat * pow2(up as nat),
                        ceiling as nat,
                    );
                }
                Brightness::full()
            } else {
                let power: u64 = power_of_two(up);
                assert(significand * power <= 0x100_0000 * 0x100) by (nonlinear_arith)
                    requires
                        significand <= 0x100_0000,
                        power <= 0x100,
                ;
                Brightness::from_ratio(significand as u64 * power, ceiling as u64)
            }
        } else {
            let down: u32 = 149 - shift;
            proof {
                lemma_pow2_adds(shift as nat, down as nat);
                lemma_pow2_pos(shift as nat);
                lemma_pow2_pos(down as nat);
                assert(pow2(149) * ceiling as nat == (pow2(down as nat) * ceiling as nat) * pow2(
                    shift as nat,
                )) by (nonlinear_arith)
                    requires
                        pow2(149) == pow2(shift as nat) * pow2(down as nat),
                ;
                lemma_ratio_level_scales(
                    significand as nat,
                    pow2(down as nat) * ceiling as nat,
                    pow2(shift as nat),
                );
            }
            if down >= 64 {
                proof {
                    lemma2_to64();
                    vstd::arithmetic::power2::lemma2_to64_rest();
                    if down > 64 {
                        lemma_pow2_strictly_increases(64, down as nat);
                    }
                    let denominator = pow2(down as nat) * ceiling as nat;
                    assert(denominator >= 0x1_0000_0000_0000_0000) by (nonlinear_arith)
                        requires
                            denominator == pow2(down as nat) * ceiling as nat,
                            pow2(down as nat) >= 0x1_0000_0000_0000_0000,
                            ceiling >= 1,
                    ;
                    assert(significand * SCALE <= 0x100_0000 * 1_000_000) by (nonlinear_arith)
                        requires
                            significand <= 0x100_0000,
                            SCALE == 1_000_000,
                    ;
                    vstd::arithmetic::div_mod::lemma_basic_div(
                        (2 * (significand as nat * SCALE as nat) + denominator) as int,
                        (2 * denominator) as int,
                    );
                }
                Brightness::off()
            } else {
                let power: u64 = power_of_two(down);
                assert(power * ceiling <= 0xffff_ffff_ffff_ffff * 0xffff_ffff) by (nonlinear_arith)
                    requires
                        power <= 0xffff_ffff_ffff_ffff,
                        ceiling <= 0xffff_ffff,
                ;
                Brightness::from_wide_ratio(significand as u64, (power as u128) * (ceiling as u128))
            }
        }
    }
}

} // verus!
