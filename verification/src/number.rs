//! Numbers are IEEE-754 doubles, held by their 64 bits. What can be read
//! off the bits is decided here: whether a value is a number at all, how
//! two values compare, and negation. Sums, products, quotients and the
//! decimal form of a number are the embedder's to compute.

use vstd::prelude::*;

verus! {

/// The sign bit.
pub const SIGN: u64 = 0x8000_0000_0000_0000;

/// All bits but the sign.
pub const MAGNITUDE: u64 = 0x7FFF_FFFF_FFFF_FFFF;

/// The magnitude of infinity: every exponent bit set, no fraction bit.
pub const INFINITY: u64 = 0x7FF0_0000_0000_0000;

/// The bits without the sign.
pub open spec fn magnitude(bits: u64) -> u64 {
    bits & MAGNITUDE
}

pub open spec fn is_negative(bits: u64) -> bool {
    bits & SIGN != 0
}

/// Not a number: a magnitude beyond infinity.
pub open spec fn is_nan(bits: u64) -> bool {
    magnitude(bits) > INFINITY
}

/// Where a value that is a number lies on the number line, in units that
/// keep the order of the doubles. Both zeros lie at 0.
pub open spec fn rank(bits: u64) -> int {
    if is_negative(bits) {
        -(magnitude(bits) as int)
    } else {
        magnitude(bits) as int
    }
}

/// `a == b` on doubles: neither is NaN, and they lie at the same place.
pub open spec fn equal(a: u64, b: u64) -> bool {
    !is_nan(a) && !is_nan(b) && rank(a) == rank(b)
}

/// `a < b` on doubles.
pub open spec fn less(a: u64, b: u64) -> bool {
    !is_nan(a) && !is_nan(b) && rank(a) < rank(b)
}

/// `a <= b` on doubles.
pub open spec fn less_equal(a: u64, b: u64) -> bool {
    !is_nan(a) && !is_nan(b) && rank(a) <= rank(b)
}

/// `-a` on doubles: the sign bit flipped.
pub open spec fn negated(bits: u64) -> u64 {
    bits ^ SIGN
}

pub fn number_is_nan(bits: u64) -> (r: bool)
    ensures
        r == is_nan(bits),
{
    bits & MAGNITUDE > INFINITY
}

pub fn number_equal(a: u64, b: u64) -> (r: bool)
    ensures
        r == equal(a, b),
{
    let ma = a & MAGNITUDE;
    let mb = b & MAGNITUDE;
    if ma > INFINITY || mb > INFINITY {
        false
    } else if (a & SIGN != 0) == (b & SIGN != 0) {
        ma == mb
    } else {
        ma == 0 && mb == 0
    }
}

pub fn number_less(a: u64, b: u64) -> (r: bool)
    ensures
        r == less(a, b),
{
    let ma = a & MAGNITUDE;
    let mb = b & MAGNITUDE;
    let na = a & SIGN != 0;
    let nb = b & SIGN != 0;
    if ma > INFINITY || mb > INFINITY {
        false
    } else if na && nb {
        ma > mb
    } else if na {
        ma != 0 || mb != 0
    } else if nb {
        false
    } else {
        ma < mb
    }
}

pub fn number_less_equal(a: u64, b: u64) -> (r: bool)
    ensures
        r == less_equal(a, b),
{
    number_less(a, b) || number_equal(a, b)
}

pub fn number_negate(bits: u64) -> (r: u64)
    ensures
        r == negated(bits),
{
    bits ^ SIGN
}

/// Negation keeps the magnitude and flips the sign, so it mirrors the
/// number line and maps NaN to NaN.
pub proof fn negation_mirrors(bits: u64)
    ensures
        magnitude(negated(bits)) == magnitude(bits),
        is_negative(negated(bits)) == !is_negative(bits),
        is_nan(negated(bits)) == is_nan(bits),
        rank(negated(bits)) == -rank(bits),
        negated(negated(bits)) == bits,
{
    assert((bits ^ 0x8000_0000_0000_0000u64) & 0x7FFF_FFFF_FFFF_FFFFu64 == bits
        & 0x7FFF_FFFF_FFFF_FFFFu64) by (bit_vector);
    assert(((bits ^ 0x8000_0000_0000_0000u64) & 0x8000_0000_0000_0000u64 != 0) == !(bits
        & 0x8000_0000_0000_0000u64 != 0)) by (bit_vector);
    assert((bits ^ 0x8000_0000_0000_0000u64) ^ 0x8000_0000_0000_0000u64 == bits) by (bit_vector);
}

/// Equality of doubles is symmetric, and reflexive on every value but NaN.
pub proof fn equality_laws(a: u64, b: u64)
    ensures
        equal(a, b) == equal(b, a),
        equal(a, a) == !is_nan(a),
{
}

/// The order of doubles: `<` and `>` exclude each other and equality, and
/// nothing compares with NaN.
pub proof fn order_laws(a: u64, b: u64)
    ensures
        !(less(a, b) && less(b, a)),
        less_equal(a, b) == (less(a, b) || equal(a, b)),
        is_nan(a) || is_nan(b) ==> !less(a, b) && !less_equal(a, b) && !equal(a, b),
        !is_nan(a) && !is_nan(b) ==> less(a, b) || equal(a, b) || less(b, a),
{
}

} // verus!
