//! Single-precision numbers by their IEEE-754 encoding: one sign bit, eight
//! exponent bits, twenty-three fraction bits. Everything here is integer
//! arithmetic on the encoding.

use vstd::prelude::*;
use vstd::arithmetic::power2::{
    lemma2_to64,
    lemma_pow2_adds,
    lemma_pow2_pos,
    lemma_pow2_strictly_increases,
    lemma_pow2_unfold,
    pow2,
};

verus! {

/// The encoding of zero.
pub const ZERO: u32 = 0;

/// The encoding of one.
pub const ONE: u32 = 0x3F80_0000;

/// The encoding without its sign bit.
pub open spec fn magnitude_bits(bits: u32) -> int {
    if bits >= 0x8000_0000 {
        bits - 0x8000_0000
    } else {
        bits as int
    }
}

/// Whether the sign bit is set.
pub open spec fn is_negative(bits: u32) -> bool {
    bits >= 0x8000_0000
}

/// The biased exponent, from 0 to 255.
pub open spec fn exponent(bits: u32) -> int {
    magnitude_bits(bits) / 0x80_0000
}

/// The fraction bits.
pub open spec fn fraction(bits: u32) -> int {
    magnitude_bits(bits) % 0x80_0000
}

/// Whether the encoding is of no number.
pub open spec fn is_nan(bits: u32) -> bool {
    magnitude_bits(bits) > 0x7F80_0000
}

/// Whether the encoding is of anything but zero: a number other than zero, an
/// infinity, or no number at all.
pub open spec fn is_nonzero(bits: u32) -> bool {
    magnitude_bits(bits) != 0
}

/// The integer part of the encoded number, within the 32-bit signed range: the
/// number rounded toward zero, the nearest end of the range where it lies
/// beyond, and zero where the encoding is of no number.
///
/// A number with biased exponent `e` and fraction `f` is
/// `(2^23 + f) * 2^(e - 150)`; below `e = 127` it is less than one, and from
/// `e = 158` on it is at least `2^31`.
pub open spec fn truncated(bits: u32) -> int {
    let e = exponent(bits);
    let significand = 0x80_0000 + fraction(bits);
    let magnitude = if e < 127 {
        0
    } else if e < 150 {
        significand / (pow2((150 - e) as nat) as int)
    } else {
        significand * pow2((e - 150) as nat)
    };
    if is_nan(bits) {
        0
    } else if e >= 158 {
        if is_negative(bits) {
            i32::MIN as int
        } else {
            i32::MAX as int
        }
    } else if is_negative(bits) {
        -magnitude
    } else {
        magnitude
    }
}

/// The position of the highest set bit of `a`.
pub open spec fn floor_log2(a: nat) -> nat
    decreases a,
{
    if a <= 1 {
        0
    } else {
        1 + floor_log2(a / 2)
    }
}

/// `a / d` rounded to the nearest integer, a tie going to the even one.
pub open spec fn rounded_quotient(a: int, d: int) -> int {
    let q = a / d;
    let r = a % d;
    if 2 * r > d || (2 * r == d && q % 2 == 1) {
        q + 1
    } else {
        q
    }
}

/// The encoding of the single-precision number nearest to the integer `v`, a
/// tie going to the even significand.
///
/// With `e` the position of the highest bit of the magnitude, the significand
/// is the magnitude scaled to 24 bits, exactly where `e <= 23` and rounded
/// above that. A significand that rounds up to `2^24` carries into the
/// exponent, which the sum below does by itself.
pub open spec fn encoded_integer(v: int) -> u32
    recommends
        i32::MIN <= v <= i32::MAX,
{
    let a = if v < 0 {
        -v
    } else {
        v
    };
    let e = floor_log2(a as nat) as int;
    let significand = if e <= 23 {
        a * pow2((23 - e) as nat)
    } else {
        rounded_quotient(a, pow2((e - 23) as nat) as int)
    };
    let sign = if v < 0 {
        0x8000_0000int
    } else {
        0
    };
    if v == 0 {
        0
    } else {
        (sign + (e + 126) * 0x80_0000 + significand) as u32
    }
}

/// Whether two encodings are of the same number. Positive and negative zero are
/// the same number; an encoding of no number is the same as nothing.
pub open spec fn same_number(a: u32, b: u32) -> bool {
    !is_nan(a) && !is_nan(b) && (a == b || (!is_nonzero(a) && !is_nonzero(b)))
}

/// An integer that orders encodings of numbers as the numbers are ordered.
pub open spec fn order_key(bits: u32) -> int {
    if is_negative(bits) {
        -magnitude_bits(bits)
    } else {
        magnitude_bits(bits)
    }
}

/// The highest bit of `a` lies at `floor_log2(a)`.
pub proof fn lemma_floor_log2_bounds(a: nat)
    requires
        a >= 1,
    ensures
        pow2(floor_log2(a)) <= a < pow2(floor_log2(a) + 1),
    decreases a,
{
    lemma2_to64();
    if a > 1 {
        lemma_floor_log2_bounds(a / 2);
        lemma_pow2_unfold(floor_log2(a));
        lemma_pow2_unfold(floor_log2(a) + 1);
    }
}

/// Two to the power `k`.
fn power_of_two(k: u32) -> (p: u64)
    requires
        k <= 32,
    ensures
        p == pow2(k as nat),
{
    let mut p: u64 = 1;
    let mut i: u32 = 0;
    proof {
        lemma2_to64();
    }
    while i < k
        invariant
            i <= k <= 32,
            p == pow2(i as nat),
        decreases k - i,
    {
        proof {
            lemma2_to64();
            lemma_pow2_unfold((i + 1) as nat);
            if i + 1 < 32 {
                lemma_pow2_strictly_increases((i + 1) as nat, 32);
            }
        }
        p = p * 2;
        i = i + 1;
    }
    p
}

fn highest_bit(a: u64) -> (e: u32)
    requires
        1 <= a <= 0x8000_0000,
    ensures
        e == floor_log2(a as nat),
        e <= 31,
{
    let mut rest: u64 = a;
    let mut e: u32 = 0;
    proof {
        lemma_floor_log2_bounds(a as nat);
        lemma2_to64();
        if floor_log2(a as nat) > 31 {
            lemma_pow2_strictly_increases(31, floor_log2(a as nat));
        }
    }
    while rest > 1
        invariant
            rest >= 1,
            floor_log2(a as nat) == e + floor_log2(rest as nat),
            floor_log2(a as nat) <= 31,
        decreases rest,
    {
        rest = rest / 2;
        e = e + 1;
    }
    e
}

/// Whether the encoding is of anything but zero.
pub fn float_is_nonzero(bits: u32) -> (nonzero: bool)
    ensures
        nonzero == is_nonzero(bits),
{
    bits != 0 && bits != 0x8000_0000
}

/// Whether the encoding is of no number.
pub fn float_is_nan(bits: u32) -> (nan: bool)
    ensures
        nan == is_nan(bits),
{
    let magnitude: u32 = if bits >= 0x8000_0000 {
        bits - 0x8000_0000
    } else {
        bits
    };
    magnitude > 0x7F80_0000
}

/// Rounds the encoded number toward zero, to a 32-bit integer.
pub fn float_to_integer(bits: u32) -> (n: i32)
    ensures
        n == truncated(bits),
{
    let negative: bool = bits >= 0x8000_0000;
    let magnitude: u32 = if negative {
        bits - 0x8000_0000
    } else {
        bits
    };
    let e: u32 = magnitude / 0x80_0000;
    let significand: u64 = 0x80_0000 + (magnitude % 0x80_0000) as u64;
    if magnitude > 0x7F80_0000 {
        0
    } else if e >= 158 {
        if negative {
            i32::MIN
        } else {
            i32::MAX
        }
    } else if e < 127 {
        0
    } else {
        let whole: u64 = if e < 150 {
            let divisor: u64 = power_of_two(150 - e);
            proof {
                lemma_pow2_pos((150 - e) as nat);
                assert(significand / divisor <= significand) by (nonlinear_arith)
                    requires
                        divisor >= 1,
                ;
            }
            significand / divisor
        } else {
            let factor: u64 = power_of_two(e - 150);
            proof {
                lemma2_to64();
                if e < 157 {
                    lemma_pow2_strictly_increases((e - 150) as nat, 7);
                }
                assert(significand * factor <= 0xFF_FFFF * 0x80) by (nonlinear_arith)
                    requires
                        significand <= 0xFF_FFFF,
                        factor <= 0x80,
                ;
            }
            significand * factor
        };
        if negative {
            (-(whole as i64)) as i32
        } else {
            whole as i32
        }
    }
}

/// The encoding of the single-precision number nearest to `v`.
pub fn integer_to_float(v: i32) -> (bits: u32)
    ensures
        bits == encoded_integer(v as int),
{
    if v == 0 {
        return 0;
    }
    let wide: i64 = v as i64;
    let a: u64 = if wide < 0 {
        (-wide) as u64
    } else {
        wide as u64
    };
    let sign: u64 = if wide < 0 {
        0x8000_0000
    } else {
        0
    };
    let e: u32 = highest_bit(a);
    proof {
        lemma_floor_log2_bounds(a as nat);
        lemma2_to64();
    }
    let significand: u64 = if e <= 23 {
        let factor: u64 = power_of_two(23 - e);
        proof {
            lemma_pow2_adds((e + 1) as nat, (23 - e) as nat);
            assert(a * factor < pow2((e + 1) as nat) * factor) by (nonlinear_arith)
                requires
                    a < pow2((e + 1) as nat),
                    factor > 0,
            ;
        }
        a * factor
    } else {
        let divisor: u64 = power_of_two(e - 23);
        proof {
            lemma_pow2_adds((e - 23) as nat, 24);
            lemma_pow2_pos((e - 23) as nat);
            assert(a / divisor < 0x100_0000) by (nonlinear_arith)
                requires
                    a < divisor * 0x100_0000,
                    divisor > 0,
            ;
        }
        let q: u64 = a / divisor;
        let r: u64 = a % divisor;
        if 2 * r > divisor || (2 * r == divisor && q % 2 == 1) {
            q + 1
        } else {
            q
        }
    };
    assert((e + 126) * 0x80_0000 <= 157 * 0x80_0000) by (nonlinear_arith)
        requires
            e <= 31,
    ;
    (sign + (e as u64 + 126) * 0x80_0000 + significand) as u32
}

/// Whether two encodings are of the same number.
pub fn float_same_number(a: u32, b: u32) -> (same: bool)
    ensures
        same == same_number(a, b),
{
    !float_is_nan(a) && !float_is_nan(b) && (a == b || (!float_is_nonzero(a) && !float_is_nonzero(
        b,
    )))
}

/// An integer that orders encodings of numbers as the numbers are ordered.
pub fn float_order_key(bits: u32) -> (key: i64)
    ensures
        key == order_key(bits),
{
    if bits >= 0x8000_0000 {
        -((bits - 0x8000_0000) as i64)
    } else {
        bits as i64
    }
}

} // verus!
