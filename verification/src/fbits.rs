//! The order of single-precision values, read off their bit patterns.
//!
//! A value's sign is its top bit and its size grows with the remaining bits, so
//! two values that are numbers compare as their ranks do: the remaining bits,
//! negated where the sign is set. Both zeros have rank zero.
use vstd::prelude::*;

verus! {

/// The bit that holds the sign.
pub const SIGN: u32 = 0x8000_0000;

/// Infinity; everything with larger remaining bits is no number.
pub const INFINITY: u32 = 0x7F80_0000;

/// Negative infinity.
pub const NEG_INFINITY: u32 = 0xFF80_0000;

/// One.
pub const ONE: u32 = 0x3F80_0000;

/// The bits without the sign.
pub open spec fn magnitude(b: u32) -> int {
    if b >= SIGN {
        b - SIGN
    } else {
        b as int
    }
}

/// The pattern stands for no number.
pub open spec fn is_nan(b: u32) -> bool {
    magnitude(b) > INFINITY
}

/// Where a number stands among the others.
pub open spec fn rank(b: u32) -> int {
    if b >= SIGN {
        -magnitude(b)
    } else {
        magnitude(b)
    }
}

/// `a < b`; false where either is no number.
pub open spec fn below(a: u32, b: u32) -> bool {
    !is_nan(a) && !is_nan(b) && rank(a) < rank(b)
}

/// `a >= b`; false where either is no number.
pub open spec fn reaches(a: u32, b: u32) -> bool {
    !is_nan(a) && !is_nan(b) && rank(a) >= rank(b)
}

/// The value is one of the two zeros.
pub open spec fn is_zero(b: u32) -> bool {
    b == 0 || b == SIGN
}

/// Whether the pattern stands for no number.
pub fn nan(b: u32) -> (r: bool)
    ensures
        r == is_nan(b),
{
    if b >= SIGN {
        b - SIGN > INFINITY
    } else {
        b > INFINITY
    }
}

/// Where a number stands among the others.
pub fn rank_of(b: u32) -> (r: i64)
    ensures
        r == rank(b),
{
    if b >= SIGN {
        -((b - SIGN) as i64)
    } else {
        b as i64
    }
}

/// Whether `a < b`.
pub fn less(a: u32, b: u32) -> (r: bool)
    ensures
        r == below(a, b),
{
    !nan(a) && !nan(b) && rank_of(a) < rank_of(b)
}

/// Whether `a >= b`.
pub fn at_least(a: u32, b: u32) -> (r: bool)
    ensures
        r == reaches(a, b),
{
    !nan(a) && !nan(b) && rank_of(a) >= rank_of(b)
}

/// Whether the value is one of the two zeros.
pub fn zero(b: u32) -> (r: bool)
    ensures
        r == is_zero(b),
{
    b == 0 || b == SIGN
}

/// Among numbers exactly one of `a < b` and `a >= b` holds.
pub proof fn law_order_is_total(a: u32, b: u32)
    requires
        !is_nan(a),
        !is_nan(b),
    ensures
        below(a, b) != reaches(a, b),
{
}

/// Two numbers of the same rank are the same pattern, but for the two zeros.
pub proof fn law_rank_identifies(a: u32, b: u32)
    requires
        rank(a) == rank(b),
    ensures
        a == b || (is_zero(a) && is_zero(b)),
{
}

/// What stands for no number: the patterns above infinity, of either sign.
pub proof fn law_no_number_bits(b: u32)
    ensures
        is_nan(b) == (0x7F80_0000 < b < 0x8000_0000 || 0xFF80_0000 < b),
{
}

/// The order of numbers in their bits: of two without the sign the larger pattern
/// is above, of two with it the smaller, one with the sign is below one without
/// unless both are zero, and what is no number is neither below nor above.
pub proof fn law_below_in_bits(a: u32, b: u32)
    ensures
        a <= 0x7F80_0000 && b <= 0x7F80_0000 ==> below(a, b) == (a < b),
        0x8000_0000 <= a <= 0xFF80_0000 && 0x8000_0000 <= b <= 0xFF80_0000 ==> below(a, b) == (a
            > b),
        0x8000_0000 <= a <= 0xFF80_0000 && b <= 0x7F80_0000 ==> below(a, b) == !(a == 0x8000_0000
            && b == 0),
        a <= 0x7F80_0000 && 0x8000_0000 <= b ==> !below(a, b),
        0x7F80_0000 < a < 0x8000_0000 || 0xFF80_0000 < a ==> !below(a, b) && !below(b, a),
{
}

/// One number reaches another where it is not below it; what is no number reaches
/// nothing and is reached by nothing.
pub proof fn law_reaches_in_bits(a: u32, b: u32)
    ensures
        a <= 0x7F80_0000 && b <= 0x7F80_0000 ==> reaches(a, b) == (a >= b),
        0x8000_0000 <= a <= 0xFF80_0000 && 0x8000_0000 <= b <= 0xFF80_0000 ==> reaches(a, b) == (a
            <= b),
        0x8000_0000 <= a <= 0xFF80_0000 && b <= 0x7F80_0000 ==> reaches(a, b) == (a == 0x8000_0000
            && b == 0),
        a <= 0x7F80_0000 && 0x8000_0000 <= b <= 0xFF80_0000 ==> reaches(a, b),
        0x7F80_0000 < a < 0x8000_0000 || 0xFF80_0000 < a ==> !reaches(a, b) && !reaches(b, a),
{
}

/// The zeros are the two patterns that no bit but the sign tells apart.
pub proof fn law_zero_bits(b: u32)
    ensures
        is_zero(b) == (b == 0 || b == 0x8000_0000),
{
}

} // verus!
