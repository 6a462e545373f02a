//! Fixed-point amplitude arithmetic.
//!
//! Every stage of the pipeline carries samples as `i64` fixed-point
//! amplitudes with `AMP_ONE` standing for full scale 1.0. This module
//! holds the arithmetic those stages share: saturating signed addition
//! (mixing), folds of sample sequences, and the conversions between the
//! container formats' integer widths and the canonical amplitude.

use vstd::prelude::*;
use vstd::arithmetic::power2::{
    pow2, lemma_pow2_unfold, lemma_pow2_strictly_increases, lemma_pow2_pos, lemma2_to64,
    lemma2_to64_rest,
};

verus! {

/// Clamp a mathematical integer into the `i64` range.
pub open spec fn sat_i64(v: int) -> i64 {
    if v > i64::MAX {
        i64::MAX
    } else if v < i64::MIN {
        i64::MIN
    } else {
        v as i64
    }
}

/// Saturating signed-amplitude addition, the mixing primitive.
pub open spec fn spec_sat_add(a: i64, b: i64) -> i64 {
    sat_i64(a + b)
}

/// Left fold of saturating addition over a sample sequence, started
/// from equilibrium (zero): the amplitude of a mixed frame.
pub open spec fn sat_fold(s: Seq<i64>) -> i64
    decreases s.len(),
{
    if s.len() == 0 {
        0i64
    } else {
        spec_sat_add(sat_fold(s.drop_last()), s.last())
    }
}

/// Saturating signed-amplitude addition.
pub fn sat_add(a: i64, b: i64) -> (r: i64)
    ensures
        r == spec_sat_add(a, b),
{
    match a.checked_add(b) {
        Some(v) => v,
        None => {
            if b > 0 {
                i64::MAX
            } else {
                i64::MIN
            }
        },
    }
}

/// Truncating division of an amplitude by a positive power of two,
/// rounding toward zero (the behaviour of a float-to-int cast).
pub open spec fn tdiv(a: int, d: int) -> int
    recommends d > 0,
{
    if a >= 0 {
        a / d
    } else {
        -((-a) / d)
    }
}

/// Divide an amplitude by a positive divisor, rounding toward zero.
pub fn div_toward_zero(a: i64, d: u64) -> (r: i64)
    requires
        1 <= d <= 0x8000_0000_0000_0000,
    ensures
        r == tdiv(a as int, d as int),
{
    if a >= 0 {
        let q: u64 = (a as u64) / d;
        assert(q == a as int / d as int);
        q as i64
    } else {
        // |a| <= 2^63 fits in u64 via unsigned negation
        let m: i128 = -(a as i128);
        assert(1 <= m <= 0x8000_0000_0000_0000);
        let mag: u64 = m as u64;
        let q: u64 = mag / d;
        assert(q == mag as int / d as int);
        if q >= 0x8000_0000_0000_0000 {
            // only reachable for a == i64::MIN and d == 1
            assert(q == 0x8000_0000_0000_0000) by {
                assert(mag as int / d as int <= mag as int / 1int);
            }
            i64::MIN
        } else {
            -(q as i64)
        }
    }
}

/// Division by a positive divisor stays under any multiple that
/// bounds the dividend.
pub proof fn lemma_div_bound(a: int, b: int, c: int)
    requires
        b >= 1,
        0 <= a,
        a <= c * b,
    ensures
        0 <= a / b <= c,
{
    vstd::arithmetic::div_mod::lemma_div_is_ordered(a, c * b, b);
    vstd::arithmetic::div_mod::lemma_div_multiples_vanish(c, b);
    assert(c * b == b * c) by (nonlinear_arith);
    vstd::arithmetic::div_mod::lemma_div_pos_is_pos(a, b);
}

/// Divide a wide accumulator by a positive divisor, rounding toward
/// zero.
pub fn div_toward_zero_i128(a: i128, d: u64) -> (r: i128)
    requires
        1 <= d,
        -0x4000_0000_0000_0000_0000_0000_0000_0000 < a
            < 0x4000_0000_0000_0000_0000_0000_0000_0000,
    ensures
        r == tdiv(a as int, d as int),
{
    if a >= 0 {
        let q: u128 = (a as u128) / (d as u128);
        assert(q == a as int / d as int);
        q as i128
    } else {
        let mag: u128 = (-a) as u128;
        let q: u128 = mag / (d as u128);
        assert(q == mag as int / d as int);
        assert(q <= mag) by {
            assert(mag as int <= mag as int * (d as int)) by (nonlinear_arith)
                requires d >= 1 && mag >= 0;
            lemma_div_bound(mag as int, d as int, mag as int);
        }
        -(q as i128)
    }
}

/// Amplitude of one 16-bit PCM sample: scaled so that full scale
/// (2^15) maps to `AMP_ONE` (2^32).
pub open spec fn amp_of_i16(s: i16) -> i64 {
    (s * 0x2_0000) as i64
}

/// Scale a 16-bit PCM sample to the canonical amplitude.
pub fn amp_from_i16(s: i16) -> (r: i64)
    ensures
        r == amp_of_i16(s),
{
    (s as i64) * 0x2_0000
}

/// Clamp a mathematical integer into the `i16` range.
pub open spec fn sat_i16(v: int) -> i16 {
    if v > i16::MAX {
        i16::MAX
    } else if v < i16::MIN {
        i16::MIN
    } else {
        v as i16
    }
}

/// The 16-bit signed sample nearest an amplitude: divide by the scale
/// (truncating toward zero, as a float-to-int cast does) and saturate.
pub open spec fn i16_of_amp(a: i64) -> i16 {
    sat_i16(tdiv(a as int, 0x2_0000))
}

/// Convert a canonical amplitude to a 16-bit signed output sample.
pub fn amp_to_i16(a: i64) -> (r: i16)
    ensures
        r == i16_of_amp(a),
{
    let q: i64 = div_toward_zero(a, 0x2_0000);
    if q > 32767 {
        32767
    } else if q < -32768 {
        -32768
    } else {
        q as i16
    }
}

/// Convert a canonical amplitude to a 16-bit unsigned output sample,
/// whose equilibrium is 2^15 rather than zero.
pub fn amp_to_u16(a: i64) -> (r: u16)
    ensures
        r == i16_of_amp(a) + 32768,
{
    let s: i16 = amp_to_i16(a);
    (s as i32 + 32768) as u16
}

/// Sign bit of an IEEE 754 single-precision bit pattern.
pub open spec fn f32_negative(bits: u32) -> bool {
    bits >= 0x8000_0000
}

/// Biased exponent field of an IEEE 754 single-precision bit pattern.
pub open spec fn f32_exponent(bits: u32) -> int {
    (bits as int % 0x8000_0000) / 0x80_0000
}

/// Mantissa field of an IEEE 754 single-precision bit pattern.
pub open spec fn f32_mantissa(bits: u32) -> int {
    bits as int % 0x80_0000
}

/// Magnitude, scaled by `AMP_ONE` = 2^32 and truncated toward zero, of
/// the number an IEEE 754 single-precision bit pattern encodes.
/// A normal number with exponent e and mantissa m has value
/// (2^23 + m) * 2^(e - 150); scaling by 2^32 shifts the exponent to
/// e - 118. Subnormals scale to less than one, hence truncate to zero.
/// NaN decodes as equilibrium, infinities as past-full-scale.
pub open spec fn f32_scaled_magnitude(bits: u32) -> int {
    let e = f32_exponent(bits);
    let m = f32_mantissa(bits);
    if e == 0 {
        0
    } else if e == 255 {
        if m == 0 {
            pow2(64) as int
        } else {
            0
        }
    } else {
        let sig = 0x80_0000 + m;
        if e >= 118 {
            sig * pow2((e - 118) as nat)
        } else {
            sig / pow2((118 - e) as nat) as int
        }
    }
}

/// The canonical amplitude of an IEEE 754 single-precision sample:
/// its value scaled by `AMP_ONE`, truncated toward zero and saturated.
pub open spec fn amp_of_f32_bits(bits: u32) -> i64 {
    if f32_negative(bits) {
        sat_i64(-f32_scaled_magnitude(bits))
    } else {
        sat_i64(f32_scaled_magnitude(bits))
    }
}

/// Compute 2^e for an exponent small enough that the power fits.
fn pow2_u64(e: u32) -> (r: u64)
    requires
        e < 64,
    ensures
        r == pow2(e as nat),
        r >= 1,
{
    let mut i: u32 = 0;
    let mut p: u64 = 1;
    proof {
        lemma2_to64();
        lemma_pow2_pos(0);
    }
    while i < e
        invariant
            i <= e < 64,
            p == pow2(i as nat),
        decreases e - i,
    {
        proof {
            lemma_pow2_unfold((i + 1) as nat);
            if (i as nat) < 63 {
                lemma_pow2_strictly_increases(i as nat, 63);
            }
            lemma2_to64();
            lemma2_to64_rest();
        }
        p = p * 2;
        i = i + 1;
    }
    proof {
        lemma_pow2_pos(e as nat);
    }
    p
}

/// Decode an IEEE 754 single-precision bit pattern into the canonical
/// fixed-point amplitude.
pub fn amp_from_f32_bits(bits: u32) -> (r: i64)
    ensures
        r == amp_of_f32_bits(bits),
{
    let e: u32 = (bits % 0x8000_0000) / 0x80_0000;
    let m: u32 = bits % 0x80_0000;
    let negative: bool = bits >= 0x8000_0000;
    let mag: u64 = if e == 0 {
        0
    } else if e == 255 {
        if m == 0 {
            proof {
                lemma2_to64();
                lemma2_to64_rest();
            }
            u64::MAX
        } else {
            0
        }
    } else {
        let sig: u64 = 0x80_0000 + (m as u64);
        if e >= 158 {
            // magnitude at least 2^23 * 2^40 = 2^63: past saturation
            proof {
                lemma2_to64();
                lemma2_to64_rest();
                if 40 < (e - 118) as nat {
                    lemma_pow2_strictly_increases(40, (e - 118) as nat);
                }
                assert(pow2((e - 118) as nat) >= pow2(40));
                assert(sig * pow2((e - 118) as nat) >= 0x80_0000 * pow2(40)) by (nonlinear_arith)
                    requires sig >= 0x80_0000 && pow2((e - 118) as nat) >= pow2(40) > 0;
            }
            u64::MAX
        } else if e >= 118 {
            let p: u64 = pow2_u64(e - 118);
            proof {
                lemma_pow2_strictly_increases((e - 118) as nat, 40);
                lemma2_to64();
                lemma2_to64_rest();
                assert(0 < p < pow2(40));
                assert(sig * p < 0x100_0000 * pow2(40)) by (nonlinear_arith)
                    requires sig < 0x100_0000 && 0 < p < pow2(40);
            }
            sig * p
        } else if e <= 94 {
            // shift of 24 or more: the significand is below 2^24
            proof {
                lemma2_to64();
                lemma2_to64_rest();
                if 24 < 118 - e {
                    lemma_pow2_strictly_increases(24, (118 - e) as nat);
                }
                assert(sig < 0x100_0000 <= pow2((118 - e) as nat));
                lemma_pow2_pos((118 - e) as nat);
                vstd::arithmetic::div_mod::lemma_basic_div(sig as int, pow2((118 - e) as nat) as int);
            }
            0
        } else {
            let p: u64 = pow2_u64(118 - e);
            sig / p
        }
    };
    // saturation bound: 2^63 - 1 = i64::MAX
    if negative {
        if mag >= 0x8000_0000_0000_0000 {
            i64::MIN
        } else {
            -(mag as i64)
        }
    } else {
        if mag >= 0x7FFF_FFFF_FFFF_FFFF {
            i64::MAX
        } else {
            mag as i64
        }
    }
}

} // verus!
