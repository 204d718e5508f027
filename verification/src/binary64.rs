//! IEEE 754 binary64 numbers, read through their bit patterns.
//!
//! A number is held as the 64-bit word that encodes it: one sign bit, eleven
//! exponent bits, fifty-two fraction bits. The model below gives every word
//! that is not a NaN an exact integer value, in units of 2^-1074 (the
//! smallest positive binary64 number), so that ordering two numbers is
//! ordering two integers.

use vstd::prelude::*;
use vstd::arithmetic::power2::*;
use vstd::arithmetic::mul::*;

verus! {

/// The word whose only set bit is the sign bit: negative zero.
pub const SIGN_BIT: u64 = 0x8000_0000_0000_0000;

/// The word of positive infinity: every exponent bit set, no fraction bit.
pub const INFINITY: u64 = 0x7ff0_0000_0000_0000;

/// Two to the 52nd: the number of fraction values per exponent.
pub const FRACTION_SPAN: u64 = 0x10_0000_0000_0000;

/// Whether the sign bit of `bits` is set.
pub open spec fn negative(bits: u64) -> bool {
    bits >= SIGN_BIT
}

/// The word `bits` with its sign bit cleared.
pub open spec fn unsigned_part(bits: u64) -> u64 {
    (bits % SIGN_BIT) as u64
}

/// The biased exponent field of `bits`, from 0 to 2047.
pub open spec fn exponent(bits: u64) -> nat {
    ((bits / FRACTION_SPAN) % 2048) as nat
}

/// The fraction field of `bits`, below two to the 52nd.
pub open spec fn fraction(bits: u64) -> nat {
    (bits % FRACTION_SPAN) as nat
}

/// Whether `bits` encodes a NaN: all exponent bits set and some fraction bit.
pub open spec fn is_nan(bits: u64) -> bool {
    exponent(bits) == 2047 && fraction(bits) != 0
}

/// The absolute value that `bits` encodes, in units of 2^-1074.
///
/// Subnormal numbers (exponent field 0) are their fraction; normal numbers
/// carry the implicit leading bit and are scaled by their exponent. An
/// infinity gets the value that the same formula yields, which lies above
/// every finite magnitude. Of a NaN the result means nothing.
pub open spec fn magnitude(bits: u64) -> nat {
    if exponent(bits) == 0 {
        fraction(bits)
    } else {
        ((FRACTION_SPAN + fraction(bits)) * pow2((exponent(bits) - 1) as nat)) as nat
    }
}

/// The signed value that `bits` encodes, in units of 2^-1074. Both zeros
/// have the value 0.
pub open spec fn scaled(bits: u64) -> int {
    if negative(bits) {
        -(magnitude(bits) as int)
    } else {
        magnitude(bits) as int
    }
}

/// The whole number `n`, in units of 2^-1074.
pub open spec fn whole(n: int) -> int {
    n * pow2(1074)
}

/// Whether the number `a` is strictly greater than the number `b`. As in
/// IEEE 754, nothing is greater than a NaN and a NaN is greater than nothing.
pub open spec fn greater(a: u64, b: u64) -> bool {
    !is_nan(a) && !is_nan(b) && scaled(a) > scaled(b)
}

/// Whether the number `bits` is strictly greater than the whole number `n`.
pub open spec fn exceeds(bits: u64, n: int) -> bool {
    !is_nan(bits) && scaled(bits) > whole(n)
}

/// Clearing the sign bit leaves exponent and fraction, hence the magnitude,
/// as they were.
pub proof fn lemma_unsigned_part(bits: u64)
    ensures
        unsigned_part(bits) < SIGN_BIT,
        exponent(unsigned_part(bits)) == exponent(bits),
        fraction(unsigned_part(bits)) == fraction(bits),
        magnitude(unsigned_part(bits)) == magnitude(bits),
        is_nan(unsigned_part(bits)) == is_nan(bits),
{
    let low: u64 = unsigned_part(bits);
    if bits >= SIGN_BIT {
        assert(bits == low + SIGN_BIT);
        assert(bits / FRACTION_SPAN == low / FRACTION_SPAN + 2048);
    } else {
        assert(bits == low);
    }
}

/// A NaN is a word whose unsigned part lies above that of infinity.
pub proof fn lemma_nan_is_above_infinity(bits: u64)
    ensures
        is_nan(bits) <==> unsigned_part(bits) > INFINITY,
{
    lemma_unsigned_part(bits);
    let low: u64 = unsigned_part(bits);
    assert(low == (low / FRACTION_SPAN) * FRACTION_SPAN + low % FRACTION_SPAN);
    assert(low / FRACTION_SPAN < 2048);
}

/// Among words without a sign bit, a larger word encodes a larger magnitude.
pub proof fn lemma_magnitude_increases(x: u64, y: u64)
    requires
        x < y,
        y < SIGN_BIT,
    ensures
        magnitude(x) < magnitude(y),
{
    let ex: nat = exponent(x);
    let ey: nat = exponent(y);
    let fx: nat = fraction(x);
    let fy: nat = fraction(y);
    assert(x == (x / FRACTION_SPAN) * FRACTION_SPAN + x % FRACTION_SPAN);
    assert(y == (y / FRACTION_SPAN) * FRACTION_SPAN + y % FRACTION_SPAN);
    assert(x / FRACTION_SPAN < 2048 && y / FRACTION_SPAN < 2048);
    assert(x == ex * FRACTION_SPAN + fx);
    assert(y == ey * FRACTION_SPAN + fy);
    assert(ex <= ey);
    if ex == ey {
        assert(fx < fy);
        if ex > 0 {
            let p: nat = pow2((ex - 1) as nat);
            lemma_pow2_pos((ex - 1) as nat);
            lemma_mul_strict_inequality(
                (FRACTION_SPAN + fx) as int,
                (FRACTION_SPAN + fy) as int,
                p as int,
            );
        }
    } else {
        let q: nat = pow2((ey - 1) as nat);
        lemma_pow2_pos((ey - 1) as nat);
        // magnitude(y) is at least FRACTION_SPAN * q
        lemma_mul_inequality(FRACTION_SPAN as int, (FRACTION_SPAN + fy) as int, q as int);
        if ex == 0 {
            lemma_mul_inequality(1, q as int, FRACTION_SPAN as int);
            assert(FRACTION_SPAN * q == q * FRACTION_SPAN) by {
                lemma_mul_is_commutative(FRACTION_SPAN as int, q as int);
            }
        } else {
            let p: nat = pow2((ex - 1) as nat);
            lemma_pow2_pos((ex - 1) as nat);
            // magnitude(x) < 2 * FRACTION_SPAN * p == FRACTION_SPAN * pow2(ex)
            lemma_mul_strict_inequality(
                (FRACTION_SPAN + fx) as int,
                2 * FRACTION_SPAN,
                p as int,
            );
            lemma_pow2_unfold(ex);
            assert((2 * FRACTION_SPAN) * p == FRACTION_SPAN * pow2(ex)) by {
                lemma_mul_is_associative(FRACTION_SPAN as int, 2, p as int);
            }
            if ex < ey - 1 {
                lemma_pow2_strictly_increases(ex, (ey - 1) as nat);
            }
            assert(pow2(ex) <= q);
            lemma_mul_inequality(pow2(ex) as int, q as int, FRACTION_SPAN as int);
            lemma_mul_is_commutative(FRACTION_SPAN as int, q as int);
            lemma_mul_is_commutative(FRACTION_SPAN as int, pow2(ex) as int);
        }
    }
}

/// Among words without a sign bit, the order of the words is the order of
/// the magnitudes, and only the zero word has magnitude 0.
pub proof fn lemma_magnitude_order(x: u64, y: u64)
    requires
        x < SIGN_BIT,
        y < SIGN_BIT,
    ensures
        x < y <==> magnitude(x) < magnitude(y),
        x == y <==> magnitude(x) == magnitude(y),
        x == 0 <==> magnitude(x) == 0,
{
    if x < y {
        lemma_magnitude_increases(x, y);
    }
    if y < x {
        lemma_magnitude_increases(y, x);
    }
    if 0 < x {
        lemma_magnitude_increases(0, x);
    }
}

/// Compares two binary64 numbers, given as their words, as `>` compares
/// the numbers themselves.
pub fn gt(a: u64, b: u64) -> (result: bool)
    ensures
        result == greater(a, b),
{
    let low_a: u64 = a % SIGN_BIT;
    let low_b: u64 = b % SIGN_BIT;
    proof {
        lemma_unsigned_part(a);
        lemma_unsigned_part(b);
        lemma_nan_is_above_infinity(a);
        lemma_nan_is_above_infinity(b);
        lemma_magnitude_order(low_a, low_b);
        lemma_magnitude_order(low_b, low_a);
    }
    if low_a > INFINITY || low_b > INFINITY {
        false
    } else if a < SIGN_BIT {
        if b < SIGN_BIT {
            low_a > low_b
        } else {
            low_a != 0 || low_b != 0
        }
    } else {
        b >= SIGN_BIT && low_a < low_b
    }
}

} // verus!
