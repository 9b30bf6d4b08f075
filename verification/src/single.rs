//! Single-precision numbers, read from their bit patterns.
//!
//! The simulation keeps every real quantity as an IEEE 754 binary32 number.
//! The library carries such a number as the 32-bit word that encodes it and
//! never does arithmetic on it. The few questions it has to answer about one
//! (in which cell does a position lie, can a number serve as a divisor) are
//! answered from the word: one sign bit, eight exponent bits, 23 fraction bits.

use vstd::prelude::*;
use vstd::arithmetic::power2::*;
use vstd::bits::*;

verus! {

/// Whether the sign bit of `bits` is set.
pub open spec fn sign_bit(bits: u32) -> bool {
    bits >= 0x8000_0000
}

/// The eight-bit exponent field of `bits`.
pub open spec fn exponent_field(bits: u32) -> nat {
    ((bits / 0x80_0000) % 0x100) as nat
}

/// The 23-bit fraction field of `bits`.
pub open spec fn fraction_field(bits: u32) -> nat {
    (bits % 0x80_0000) as nat
}

/// Whether `bits` encodes no number at all.
pub open spec fn is_nan(bits: u32) -> bool {
    exponent_field(bits) == 255 && fraction_field(bits) != 0
}

/// Whether `bits` encodes plus or minus infinity.
pub open spec fn is_infinite(bits: u32) -> bool {
    exponent_field(bits) == 255 && fraction_field(bits) == 0
}

/// Whether `bits` encodes plus or minus zero.
pub open spec fn is_zero(bits: u32) -> bool {
    exponent_field(bits) == 0 && fraction_field(bits) == 0
}

/// The integer `m` of a finite number `m * 2^e`: the fraction field, with the
/// implicit leading one unless the number is subnormal.
pub open spec fn significand(bits: u32) -> nat {
    if exponent_field(bits) == 0 {
        fraction_field(bits)
    } else {
        0x80_0000 + fraction_field(bits)
    }
}

/// The exponent `e` of a finite number `m * 2^e`.
pub open spec fn scale(bits: u32) -> int {
    if exponent_field(bits) == 0 {
        -149
    } else {
        exponent_field(bits) - 150
    }
}

/// The largest integer that is not above the magnitude of a finite number.
pub open spec fn magnitude_floor(bits: u32) -> nat {
    if scale(bits) >= 0 {
        significand(bits) * pow2(scale(bits) as nat)
    } else {
        significand(bits) / pow2((-scale(bits)) as nat)
    }
}

/// The number rounded down to an integer and then brought into the range of
/// `u32`: nothing that is not a number gives 0, a number below zero gives 0,
/// and a number above the range gives the largest `u32`.
pub open spec fn floor_saturated(bits: u32) -> nat {
    if is_nan(bits) || sign_bit(bits) {
        0
    } else if is_infinite(bits) || magnitude_floor(bits) > u32::MAX {
        u32::MAX as nat
    } else {
        magnitude_floor(bits)
    }
}

/// Whether `bits` can divide: it encodes a number, finite and not zero.
pub open spec fn divides(bits: u32) -> bool {
    !is_nan(bits) && !is_infinite(bits) && !is_zero(bits)
}

proof fn lemma_fields(bits: u32)
    ensures
        exponent_field(bits) == (bits >> 23) & 0xff,
        fraction_field(bits) == bits & 0x7f_ffff,
        !sign_bit(bits) ==> (bits >> 23) & 0xff == bits >> 23,
        bits & 0x7f_ffff < 0x80_0000,
        (bits & 0x7f_ffff) | 0x80_0000 == 0x80_0000 + (bits & 0x7f_ffff),
        (bits >> 23) & 0xff < 0x100,
{
    assert((bits / 0x80_0000) % 0x100 == (bits >> 23) & 0xff) by (bit_vector);
    assert(bits % 0x80_0000 == bits & 0x7f_ffff) by (bit_vector);
    assert(bits < 0x8000_0000 ==> (bits >> 23) & 0xff == bits >> 23) by (bit_vector);
    assert(bits & 0x7f_ffff < 0x80_0000) by (bit_vector);
    assert((bits & 0x7f_ffff) | 0x80_0000 == 0x80_0000 + (bits & 0x7f_ffff)) by (bit_vector);
    assert((bits >> 23) & 0xff < 0x100) by (bit_vector);
}

/// Rounds the number that `bits` encodes down to an integer and converts the
/// result to `u32`, saturating at both ends of the range.
pub fn floor_to_u32(bits: u32) -> (r: u32)
    ensures
        r == floor_saturated(bits),
{
    proof {
        lemma_fields(bits);
        lemma2_to64();
    }
    if bits >= 0x8000_0000 {
        return 0;
    }
    let e: u32 = bits >> 23;
    let f: u32 = bits & 0x7f_ffff;
    if e == 255 {
        return if f != 0 { 0 } else { u32::MAX };
    }
    if e < 127 {
        proof {
            let down: nat = (-scale(bits)) as nat;
            assert(down >= 24);
            if down > 24 {
                lemma_pow2_strictly_increases(24, down);
            }
            lemma_basic_div_by(significand(bits) as int, pow2(down) as int);
        }
        return 0;
    }
    let m: u32 = f | 0x80_0000;
    if e >= 159 {
        proof {
            let up: nat = (e - 150) as nat;
            if up > 9 {
                lemma_pow2_strictly_increases(9, up);
            }
            lemma_product_at_least(m as int, pow2(up) as int, 0x80_0000, 0x200);
        }
        u32::MAX
    } else if e >= 150 {
        let up: u32 = e - 150;
        proof {
            if up < 8 {
                lemma_pow2_strictly_increases(up as nat, 8);
            }
            lemma_product_below(m as int, pow2(up as nat) as int, 0x100_0000, 0x100);
            lemma_u32_shl_is_mul(m, up);
        }
        m << up
    } else {
        let down: u32 = 150 - e;
        proof {
            lemma_u32_shr_is_div(m, down);
        }
        m >> down
    }
}

/// Whether the number that `bits` encodes can divide: it is a number, finite
/// and not zero.
pub fn is_divisor(bits: u32) -> (r: bool)
    ensures
        r == divides(bits),
{
    proof {
        lemma_fields(bits);
    }
    let e: u32 = (bits >> 23) & 0xff;
    let f: u32 = bits & 0x7f_ffff;
    e != 255 && !(e == 0 && f == 0)
}

proof fn lemma_basic_div_by(x: int, d: int)
    requires
        0 <= x < d,
    ensures
        x / d == 0,
{
    vstd::arithmetic::div_mod::lemma_basic_div(x, d);
}

proof fn lemma_product_at_least(a: int, b: int, low_a: int, low_b: int)
    requires
        0 <= low_a <= a,
        0 <= low_b <= b,
    ensures
        a * b >= low_a * low_b,
{
    assert(a * b >= low_a * low_b) by (nonlinear_arith)
        requires
            0 <= low_a <= a,
            0 <= low_b <= b,
    ;
}

proof fn lemma_product_below(a: int, b: int, top_a: int, top_b: int)
    requires
        0 <= a < top_a,
        0 <= b <= top_b,
        0 < top_b,
    ensures
        a * b < top_a * top_b,
{
    assert(a * b < top_a * top_b) by (nonlinear_arith)
        requires
            0 <= a < top_a,
            0 <= b <= top_b,
            0 < top_b,
    ;
}

} // verus!
