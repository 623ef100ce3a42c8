//! Numbers of the row model.
//!
//! A number is an IEEE 754 binary64 value, held by its encoding in a `u64`:
//! one sign bit, eleven exponent bits, fifty-two fraction bits. Nothing here
//! does arithmetic on such a value; the functions below compare two of them,
//! which the encoding allows with integers alone: apart from the sign, a
//! larger encoding is a larger value (see [`order_is_numeric`]).
use vstd::arithmetic::power2::{lemma_pow2_pos, lemma_pow2_strictly_increases, lemma_pow2_unfold, pow2};
use vstd::prelude::*;

verus! {

/// The encoding's sign bit.
pub const SIGN_BIT: u64 = 0x8000_0000_0000_0000u64;

/// The encoding of positive infinity; every larger magnitude is a NaN.
pub const INFINITY_BITS: u64 = 0x7ff0_0000_0000_0000u64;

/// The encoding without its sign bit.
pub open spec fn magnitude(bits: u64) -> int {
    if bits >= SIGN_BIT {
        bits - SIGN_BIT
    } else {
        bits as int
    }
}

/// Whether the encoding is one of a NaN.
pub open spec fn is_nan(bits: u64) -> bool {
    magnitude(bits) > INFINITY_BITS
}

/// The place of a number that is no NaN in the numeric order: two numbers
/// compare as their ranks do. Both zeros have rank 0.
pub open spec fn rank(bits: u64) -> int {
    if bits >= SIGN_BIT {
        -magnitude(bits)
    } else {
        magnitude(bits)
    }
}

/// Numeric equality: false where either side is a NaN, true of the two zeros.
pub open spec fn num_eq(a: u64, b: u64) -> bool {
    !is_nan(a) && !is_nan(b) && rank(a) == rank(b)
}

/// Numeric `<`: false where either side is a NaN.
pub open spec fn num_lt(a: u64, b: u64) -> bool {
    !is_nan(a) && !is_nan(b) && rank(a) < rank(b)
}

/// Numeric `<=`: false where either side is a NaN.
pub open spec fn num_le(a: u64, b: u64) -> bool {
    !is_nan(a) && !is_nan(b) && rank(a) <= rank(b)
}

/// The lesser of two numbers, where a NaN gives way to the other side and
/// equal numbers leave `a`.
pub open spec fn num_min(a: u64, b: u64) -> u64 {
    if is_nan(a) {
        b
    } else if is_nan(b) {
        a
    } else if rank(b) < rank(a) {
        b
    } else {
        a
    }
}

/// The greater of two numbers, where a NaN gives way to the other side and
/// equal numbers leave `a`.
pub open spec fn num_max(a: u64, b: u64) -> u64 {
    if is_nan(a) {
        b
    } else if is_nan(b) {
        a
    } else if rank(b) > rank(a) {
        b
    } else {
        a
    }
}

/// Tells whether `bits` encodes a NaN.
pub fn nan(bits: u64) -> (r: bool)
    ensures
        r == is_nan(bits),
{
    if bits >= SIGN_BIT {
        bits - SIGN_BIT > INFINITY_BITS
    } else {
        bits > INFINITY_BITS
    }
}

/// The rank of `bits`, moved up by `SIGN_BIT` so that it fits a `u64`.
fn shifted_rank(bits: u64) -> (r: u64)
    ensures
        r == rank(bits) + SIGN_BIT,
{
    if bits >= SIGN_BIT {
        SIGN_BIT - (bits - SIGN_BIT)
    } else {
        SIGN_BIT + bits
    }
}

/// Numeric equality of two encodings.
pub fn equal(a: u64, b: u64) -> (r: bool)
    ensures
        r == num_eq(a, b),
{
    !nan(a) && !nan(b) && shifted_rank(a) == shifted_rank(b)
}

/// Numeric `<` of two encodings.
pub fn less(a: u64, b: u64) -> (r: bool)
    ensures
        r == num_lt(a, b),
{
    !nan(a) && !nan(b) && shifted_rank(a) < shifted_rank(b)
}

/// Numeric `<=` of two encodings.
pub fn less_or_equal(a: u64, b: u64) -> (r: bool)
    ensures
        r == num_le(a, b),
{
    !nan(a) && !nan(b) && shifted_rank(a) <= shifted_rank(b)
}

/// The lesser of two encodings.
pub fn minimum(a: u64, b: u64) -> (r: u64)
    ensures
        r == num_min(a, b),
{
    if nan(a) {
        b
    } else if nan(b) {
        a
    } else if shifted_rank(b) < shifted_rank(a) {
        b
    } else {
        a
    }
}

/// The greater of two encodings.
pub fn maximum(a: u64, b: u64) -> (r: u64)
    ensures
        r == num_max(a, b),
{
    if nan(a) {
        b
    } else if nan(b) {
        a
    } else if shifted_rank(b) > shifted_rank(a) {
        b
    } else {
        a
    }
}

/// Numeric equality is symmetric, and `<` and `<=` order the numbers that
/// are no NaN: of two of them exactly one of `a < b`, `a == b`, `b < a` holds.
pub proof fn order_is_total(a: u64, b: u64)
    requires
        !is_nan(a),
        !is_nan(b),
    ensures
        num_eq(a, b) == num_eq(b, a),
        num_le(a, b) == (num_lt(a, b) || num_eq(a, b)),
        num_lt(a, b) || num_eq(a, b) || num_lt(b, a),
        !(num_lt(a, b) && num_lt(b, a)),
        !(num_lt(a, b) && num_eq(a, b)),
{
}

/// A NaN equals nothing, itself included, and is neither below nor above
/// anything.
pub proof fn nan_is_unordered(a: u64, b: u64)
    requires
        is_nan(a),
    ensures
        !num_eq(a, b),
        !num_eq(b, a),
        !num_lt(a, b),
        !num_lt(b, a),
        !num_le(a, b),
        !num_le(b, a),
{
}

/// The width of the fraction: two to the fifty-second.
pub const FRACTION_RANGE: u64 = 0x10_0000_0000_0000u64;

/// The exponent bits of an encoding.
pub open spec fn exponent(bits: u64) -> int {
    magnitude(bits) / (FRACTION_RANGE as int)
}

/// The fraction bits of an encoding.
pub open spec fn fraction(bits: u64) -> int {
    magnitude(bits) % (FRACTION_RANGE as int)
}

/// The absolute value that an encoding stands for, counted in units of
/// two to the minus 1074, the least positive number: a number with
/// exponent bits zero is its fraction, and any other number is its fraction
/// and the leading one, doubled once for every step of the exponent above
/// one. (Infinity counts as two to the 1024.)
pub open spec fn size(bits: u64) -> int {
    if exponent(bits) == 0 {
        fraction(bits)
    } else {
        (fraction(bits) + FRACTION_RANGE) * pow2((exponent(bits) - 1) as nat)
    }
}

/// The value that an encoding stands for, in units of two to the minus
/// 1074.
pub open spec fn value(bits: u64) -> int {
    if bits >= SIGN_BIT {
        -size(bits)
    } else {
        size(bits)
    }
}

/// A product of a lesser factor and a factor that is not greater is less.
proof fn product_is_less(a: int, p: int, b: int, q: int)
    requires
        0 <= a < b,
        0 < p <= q,
    ensures
        a * p < b * q,
{
    assert(a * p < b * p) by (nonlinear_arith)
        requires
            0 <= a < b,
            0 < p,
    ;
    assert(b * p <= b * q) by (nonlinear_arith)
        requires
            0 <= b,
            p <= q,
    ;
}

/// The greater encoding of two, signs aside, stands for the greater
/// absolute value.
proof fn size_grows_with_magnitude(a: u64, b: u64)
    requires
        magnitude(a) < magnitude(b),
    ensures
        0 <= size(a) < size(b),
{
    let two52 = FRACTION_RANGE as int;
    let (ea, fa) = (exponent(a), fraction(a));
    let (eb, fb) = (exponent(b), fraction(b));
    assert(magnitude(a) == ea * two52 + fa && 0 <= fa < two52 && 0 <= ea);
    assert(magnitude(b) == eb * two52 + fb && 0 <= fb < two52 && 0 <= eb);
    assert(ea <= eb);
    if ea == 0 {
        if eb > 0 {
            lemma_pow2_pos((eb - 1) as nat);
            product_is_less(fa, 1, fb + two52, pow2((eb - 1) as nat) as int);
        }
    } else {
        lemma_pow2_pos((ea - 1) as nat);
        let pa = pow2((ea - 1) as nat) as int;
        assert(0 <= size(a)) by (nonlinear_arith)
            requires
                size(a) == (fa + two52) * pa,
                0 <= fa,
                0 < two52,
                0 < pa,
        ;
        if ea == eb {
            product_is_less(fa + two52, pa, fb + two52, pa);
        } else {
            let pb = pow2((eb - 1) as nat) as int;
            lemma_pow2_unfold(ea as nat);
            assert(pow2(ea as nat) == 2 * pa);
            if ea < eb - 1 {
                lemma_pow2_strictly_increases(ea as nat, (eb - 1) as nat);
            }
            assert(2 * pa <= pb);
            // size(a) < 2 * 2^52 * pa <= 2^52 * pb <= size(b)
            assert((fa + two52) * pa < two52 * (2 * pa)) by (nonlinear_arith)
                requires
                    0 <= fa < two52,
                    0 < pa,
            ;
            assert(two52 * (2 * pa) <= (fb + two52) * pb) by (nonlinear_arith)
                requires
                    0 <= fb,
                    0 < two52,
                    0 < 2 * pa <= pb,
            ;
        }
    }
}

/// The order of the ranks is the order of the values: of two numbers that
/// are no NaN, one is below the other exactly when it stands for the lesser
/// value, and they are equal exactly when they stand for the same value.
pub proof fn order_is_numeric(a: u64, b: u64)
    requires
        !is_nan(a),
        !is_nan(b),
    ensures
        num_lt(a, b) <==> value(a) < value(b),
        num_eq(a, b) <==> value(a) == value(b),
        num_le(a, b) <==> value(a) <= value(b),
{
    if magnitude(a) < magnitude(b) {
        size_grows_with_magnitude(a, b);
    } else if magnitude(b) < magnitude(a) {
        size_grows_with_magnitude(b, a);
    } else {
        assert(size(a) == size(b));
    }
    assert(magnitude(a) == 0 ==> size(a) == 0);
    assert(magnitude(b) == 0 ==> size(b) == 0);
    if magnitude(a) > 0 {
        assert(0 < size(a)) by {
            if a >= SIGN_BIT {
                size_grows_with_magnitude(SIGN_BIT, a);
            } else {
                size_grows_with_magnitude(0, a);
            }
        }
    }
    if magnitude(b) > 0 {
        assert(0 < size(b)) by {
            if b >= SIGN_BIT {
                size_grows_with_magnitude(SIGN_BIT, b);
            } else {
                size_grows_with_magnitude(0, b);
            }
        }
    }
}

} // verus!
