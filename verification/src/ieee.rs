//! IEEE-754 binary32 and binary64 numbers, handled through their bit patterns.
//!
//! A single-precision number is a `u32` (1 sign bit, 8 exponent bits, 23
//! fraction bits), a double-precision number a `u64` (1 sign bit, 11 exponent
//! bits, 52 fraction bits). All conversions are integer arithmetic on these
//! patterns.

use vstd::prelude::*;

verus! {

/// The exponent field of a double.
pub open spec fn double_exponent(bits: u64) -> u64 {
    (bits >> 52) & 0x7ff
}

/// The fraction field of a double.
pub open spec fn double_fraction(bits: u64) -> u64 {
    bits & 0xf_ffff_ffff_ffff
}

/// The sign of a double, moved to the sign position of a single.
pub open spec fn double_sign_as_single(bits: u64) -> u32 {
    ((bits >> 63) as u32) << 31
}

/// The exponent field of a single.
pub open spec fn single_exponent(bits: u32) -> u32 {
    (bits >> 23) & 0xff
}

/// The fraction field of a single.
pub open spec fn single_fraction(bits: u32) -> u32 {
    bits & 0x7f_ffff
}

/// The sign of a single, moved to the sign position of a double.
pub open spec fn single_sign_as_double(bits: u32) -> u64 {
    ((bits >> 31) as u64) << 63
}

/// A double is finite when it is neither an infinity nor a NaN.
pub open spec fn double_is_finite(bits: u64) -> bool {
    double_exponent(bits) != 0x7ff
}

/// A single is finite when it is neither an infinity nor a NaN.
pub open spec fn single_is_finite(bits: u32) -> bool {
    single_exponent(bits) != 0xff
}

/// How many bits of the 53-bit significand of a double with exponent field
/// `exp` (863..=1150) do not fit into the single that it rounds to.
pub open spec fn dropped_bits(exp: u64) -> u64 {
    if exp >= 897 {
        29
    } else {
        (926 - exp) as u64
    }
}

/// The double `bits` rounded to the nearest single, ties to the even
/// significand. Values beyond the range of a single become an infinity, values
/// below half of the smallest subnormal single become zero, a NaN stays a NaN.
pub open spec fn narrow_spec(bits: u64) -> u32 {
    let sign = double_sign_as_single(bits);
    let exp = double_exponent(bits);
    let fraction = double_fraction(bits);
    if exp == 0x7ff {
        if fraction == 0 {
            sign | 0x7f80_0000
        } else {
            sign | 0x7fc0_0000 | ((fraction >> 29) as u32)
        }
    } else if exp <= 862 {
        sign
    } else if exp >= 1151 {
        sign | 0x7f80_0000
    } else {
        let significand = fraction | 0x10_0000_0000_0000;
        let shift = dropped_bits(exp);
        let base: u64 = if exp >= 897 {
            ((exp - 897) as u64) << 23
        } else {
            0
        };
        let kept = significand >> shift;
        let rest = significand & (((1u64 << shift) - 1) as u64);
        let half = 1u64 << ((shift - 1) as u64);
        let up: u64 = if rest > half || (rest == half && kept & 1 == 1) {
            1
        } else {
            0
        };
        sign | ((base + kept + up) as u32)
    }
}

/// How often the fraction of a subnormal single has to be doubled until its
/// leading one reaches bit 23.
pub open spec fn normalizing_shift(fraction: nat) -> nat
    decreases 0x100_0000 - fraction,
{
    if fraction == 0 || fraction >= 0x80_0000 {
        0
    } else {
        1 + normalizing_shift(2 * fraction)
    }
}

/// The double with the same value as the single `bits`. An infinity stays an
/// infinity and a NaN stays a NaN.
pub open spec fn widen_spec(bits: u32) -> u64 {
    let sign = single_sign_as_double(bits);
    let exp = single_exponent(bits);
    let fraction = single_fraction(bits);
    if exp == 0xff {
        if fraction == 0 {
            sign | 0x7ff0_0000_0000_0000
        } else {
            sign | 0x7ff8_0000_0000_0000 | ((fraction as u64) << 29)
        }
    } else if exp == 0 {
        if fraction == 0 {
            sign
        } else {
            let shift = normalizing_shift(fraction as nat);
            let lifted = ((fraction as u64) << (shift as u64)) & 0x7f_ffff;
            sign | (((897 - shift) as u64) << 52) | (lifted << 29)
        }
    } else {
        sign | (((exp + 896) as u64) << 52) | ((fraction as u64) << 29)
    }
}

/// Whether the double `bits` is finite.
pub fn is_finite_double(bits: u64) -> (out: bool)
    ensures
        out == double_is_finite(bits),
{
    (bits >> 52) & 0x7ff != 0x7ff
}

/// Rounds the double `bits` to the nearest single.
pub fn narrow_double(bits: u64) -> (out: u32)
    ensures
        out == narrow_spec(bits),
{
    let sign: u32 = ((bits >> 63) as u32) << 31;
    let exp: u64 = (bits >> 52) & 0x7ff;
    let fraction: u64 = bits & 0xf_ffff_ffff_ffff;
    assert(exp <= 0x7ff) by (bit_vector)
        requires
            exp == (bits >> 52) & 0x7ff,
    ;
    if exp == 0x7ff {
        if fraction == 0 {
            sign | 0x7f80_0000
        } else {
            sign | 0x7fc0_0000 | ((fraction >> 29) as u32)
        }
    } else if exp <= 862 {
        sign
    } else if exp >= 1151 {
        sign | 0x7f80_0000
    } else {
        let significand: u64 = fraction | 0x10_0000_0000_0000;
        let shift: u64 = if exp >= 897 {
            29
        } else {
            926 - exp
        };
        let above: u64 = if exp >= 897 {
            exp - 897
        } else {
            0
        };
        let kept: u64 = significand >> shift;
        assert((1u64 << shift) >= 1 && kept < 0x100_0000 && above << 23 <= 0x7e80_0000) by (bit_vector)
            requires
                29 <= shift <= 63,
                above <= 253,
                kept == significand >> shift,
                significand == fraction | 0x10_0000_0000_0000,
                fraction == bits & 0xf_ffff_ffff_ffff,
        ;
        let base: u64 = if exp >= 897 {
            above << 23
        } else {
            0
        };
        let rest: u64 = significand & ((1u64 << shift) - 1);
        let half: u64 = 1u64 << (shift - 1);
        let up: u64 = if rest > half || (rest == half && kept & 1 == 1) {
            1
        } else {
            0
        };
        sign | ((base + kept + up) as u32)
    }
}

/// Doubles the non-zero fraction of a subnormal single until its leading one
/// reaches bit 23, and counts the doublings.
fn normalize(fraction: u32) -> (out: (u32, u32))
    requires
        0 < fraction < 0x80_0000,
    ensures
        out.1 == normalizing_shift(fraction as nat),
        1 <= out.1 <= 23,
        out.0 as u64 == (fraction as u64) << (out.1 as u64),
        0x80_0000 <= out.0 < 0x100_0000,
{
    let mut lifted: u32 = fraction;
    let mut shift: u32 = 0;
    assert((fraction as u64) << 0u64 == fraction as u64) by (bit_vector);
    while lifted < 0x80_0000
        invariant
            0 < fraction < 0x80_0000,
            0 < lifted < 0x100_0000,
            shift <= 23,
            lifted as u64 == (fraction as u64) << (shift as u64),
            lifted < 0x80_0000 ==> shift < 23,
            normalizing_shift(fraction as nat) == shift + normalizing_shift(lifted as nat),
        decreases 0x100_0000 - lifted,
    {
        assert(((fraction as u64) << ((shift + 1) as u64)) == 2 * ((fraction as u64) << (
        shift as u64)) && ((fraction as u64) << ((shift + 1) as u64) < 0x80_0000 ==> shift + 1
            < 23)) by (bit_vector)
            requires
                shift < 23,
                0 < fraction < 0x80_0000,
                (fraction as u64) << (shift as u64) < 0x80_0000,
        ;
        lifted = 2 * lifted;
        shift = shift + 1;
    }
    (lifted, shift)
}

/// Converts the single `bits` to the double of the same value.
pub fn widen_single(bits: u32) -> (out: u64)
    ensures
        out == widen_spec(bits),
{
    let sign: u64 = ((bits >> 31) as u64) << 63;
    let exp: u32 = (bits >> 23) & 0xff;
    let fraction: u32 = bits & 0x7f_ffff;
    assert(exp <= 0xff && fraction < 0x80_0000) by (bit_vector)
        requires
            exp == (bits >> 23) & 0xff,
            fraction == bits & 0x7f_ffff,
    ;
    if exp == 0xff {
        if fraction == 0 {
            sign | 0x7ff0_0000_0000_0000
        } else {
            sign | 0x7ff8_0000_0000_0000 | ((fraction as u64) << 29)
        }
    } else if exp == 0 {
        if fraction == 0 {
            sign
        } else {
            let (lifted, shift) = normalize(fraction);
            let low: u64 = (lifted as u64) & 0x7f_ffff;
            sign | (((897 - shift) as u64) << 52) | (low << 29)
        }
    } else {
        sign | (((exp + 896) as u64) << 52) | ((fraction as u64) << 29)
    }
}

/// The exponent field that a double is put together with can be read back.
proof fn lemma_double_exponent(sign: u64, exp: u64, fraction: u64)
    requires
        sign == 0 || sign == 0x8000_0000_0000_0000,
        exp < 0x800,
        fraction < 0x10_0000_0000_0000,
    ensures
        double_exponent(sign | (exp << 52) | fraction) == exp,
        double_exponent(sign) == 0,
{
    assert(((sign | (exp << 52) | fraction) >> 52) & 0x7ff == exp && (sign >> 52) & 0x7ff == 0)
        by (bit_vector)
        requires
            sign == 0 || sign == 0x8000_0000_0000_0000,
            exp < 0x800,
            fraction < 0x10_0000_0000_0000,
    ;
}

/// A fraction of at least 2^(23-j) is normalized by at most j doublings.
proof fn lemma_normalizing_shift(fraction: nat, j: nat)
    requires
        1 <= j <= 23,
        vstd::arithmetic::power2::pow2((23 - j) as nat) <= fraction < 0x80_0000,
    ensures
        1 <= normalizing_shift(fraction) <= j,
    decreases j,
{
    vstd::arithmetic::power2::lemma2_to64();
    vstd::arithmetic::power2::lemma_pow2_pos((23 - j) as nat);
    if 2 * fraction < 0x80_0000 {
        if j == 1 {
            assert(vstd::arithmetic::power2::pow2(22) == 0x40_0000);
        } else {
            vstd::arithmetic::power2::lemma_pow2_unfold((23 - (j - 1)) as nat);
            lemma_normalizing_shift(2 * fraction, (j - 1) as nat);
        }
    } else {
        assert(normalizing_shift(2 * fraction) == 0);
    }
}

/// Widening keeps a finite number finite, and an infinity or a NaN what it is:
/// the double for a single is finite if and only if the single is.
pub proof fn law_widening_keeps_finiteness(bits: u32)
    ensures
        double_is_finite(widen_spec(bits)) == single_is_finite(bits),
{
    let sign = single_sign_as_double(bits);
    let exp = single_exponent(bits);
    let fraction = single_fraction(bits);
    assert((sign == 0 || sign == 0x8000_0000_0000_0000) && exp <= 0xff && fraction < 0x80_0000
        && ((fraction as u64) << 29) < 0x10_0000_0000_0000) by (bit_vector)
        requires
            sign == ((bits >> 31) as u64) << 63,
            exp == (bits >> 23) & 0xff,
            fraction == bits & 0x7f_ffff,
    ;
    if exp == 0xff {
        if fraction == 0 {
            assert(0x7ff0_0000_0000_0000u64 == 0x7ffu64 << 52) by (bit_vector);
            assert(sign | 0x7ff0_0000_0000_0000 == sign | (0x7ffu64 << 52) | 0) by (bit_vector);
            lemma_double_exponent(sign, 0x7ff, 0);
        } else {
            let low = 0x8_0000_0000_0000u64 | ((fraction as u64) << 29);
            assert(low < 0x10_0000_0000_0000 && sign | 0x7ff8_0000_0000_0000 | ((fraction as u64) << 29)
                == sign | (0x7ffu64 << 52) | low) by (bit_vector)
                requires
                    fraction < 0x80_0000,
                    low == 0x8_0000_0000_0000u64 | ((fraction as u64) << 29),
            ;
            lemma_double_exponent(sign, 0x7ff, low);
        }
    } else if exp == 0 {
        if fraction == 0 {
            lemma_double_exponent(sign, 0, 0);
        } else {
            vstd::arithmetic::power2::lemma2_to64();
            lemma_normalizing_shift(fraction as nat, 23);
            let shift = normalizing_shift(fraction as nat);
            let by: u64 = shift as u64;
            let lifted = ((fraction as u64) << by) & 0x7f_ffff;
            let field = (897 - shift) as u64;
            assert((lifted << 29) < 0x10_0000_0000_0000) by (bit_vector)
                requires
                    lifted == ((fraction as u64) << by) & 0x7f_ffff,
            ;
            lemma_double_exponent(sign, field, lifted << 29);
        }
    } else {
        lemma_double_exponent(sign, (exp + 896) as u64, (fraction as u64) << 29);
    }
}

} // verus!
