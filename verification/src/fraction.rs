//! Fractions as the bits of their IEEE 754 form.
//!
//! Comparing two fractions takes no arithmetic: within a sign the bits, read as an integer, are in
//! the fractions' order. Losses, norms and ratios reach the rules of this crate as such bits.
use vstd::prelude::*;

verus! {

/// The bits of a single start with its sign: this is the weight of that bit.
pub const SIGN: u32 = 0x8000_0000;

/// The bits of infinity in single precision. What lies above, up to the sign, is no number.
pub const INFINITE: u32 = 0x7F80_0000;

/// The bits of the largest finite single.
pub const LARGEST: u32 = 0x7F7F_FFFF;

/// The weight of the sign bit of a double.
pub const WIDE_SIGN: u64 = 0x8000_0000_0000_0000;

/// The bits of infinity in double precision.
pub const WIDE_INFINITE: u64 = 0x7FF0_0000_0000_0000;

/// The single without its sign.
pub open spec fn magnitude(b: u32) -> int {
    if b < SIGN {
        b as int
    } else {
        b - SIGN
    }
}

/// The single is no number.
pub open spec fn is_nan(b: u32) -> bool {
    magnitude(b) > INFINITE
}

/// The single is a number other than an infinity.
pub open spec fn is_finite(b: u32) -> bool {
    magnitude(b) < INFINITE
}

/// Where the single stands among all singles; both zeros stand at zero.
pub open spec fn rank(b: u32) -> int {
    if b < SIGN {
        b as int
    } else {
        SIGN - b
    }
}

/// `a < b`, as fractions; false where either is no number.
pub open spec fn is_below(a: u32, b: u32) -> bool {
    !is_nan(a) && !is_nan(b) && rank(a) < rank(b)
}

/// `a == b`, as fractions; false where either is no number.
pub open spec fn is_equal(a: u32, b: u32) -> bool {
    !is_nan(a) && !is_nan(b) && rank(a) == rank(b)
}

/// The double is zero, with either sign.
pub open spec fn is_wide_zero(b: u64) -> bool {
    b == 0 || b == WIDE_SIGN
}

/// The double is a number above zero.
pub open spec fn is_wide_positive(b: u64) -> bool {
    0 < b <= WIDE_INFINITE
}

/// Whether the single is no number.
pub fn nan(b: u32) -> (r: bool)
    ensures
        r == is_nan(b),
{
    (INFINITE < b && b < SIGN) || (b >= SIGN && b - SIGN > INFINITE)
}

/// Whether the single is a number other than an infinity.
pub fn finite(b: u32) -> (r: bool)
    ensures
        r == is_finite(b),
{
    b < INFINITE || (b >= SIGN && b - SIGN < INFINITE)
}

/// Whether `a < b`, as fractions.
pub fn below(a: u32, b: u32) -> (r: bool)
    ensures
        r == is_below(a, b),
{
    if nan(a) || nan(b) {
        false
    } else if a < SIGN {
        b < SIGN && a < b
    } else if b < SIGN {
        a > SIGN || b > 0
    } else {
        a > b
    }
}

/// Whether `a == b`, as fractions.
pub fn equal(a: u32, b: u32) -> (r: bool)
    ensures
        r == is_equal(a, b),
{
    !nan(a) && !nan(b) && (a == b || (a == 0 && b == SIGN) || (a == SIGN && b == 0))
}

/// Whether the double is zero.
pub fn wide_zero(b: u64) -> (r: bool)
    ensures
        r == is_wide_zero(b),
{
    b == 0 || b == WIDE_SIGN
}

/// Whether the double is a number above zero.
pub fn wide_positive(b: u64) -> (r: bool)
    ensures
        r == is_wide_positive(b),
{
    0 < b && b <= WIDE_INFINITE
}

/// Comparing is a strict order on the numbers: two numbers are equal or one is below the other, and
/// what is below something below a third is below that third.
pub proof fn law_comparison_orders_numbers(a: u32, b: u32, c: u32)
    ensures
        !is_nan(a) && !is_nan(b) ==> (is_below(a, b) || is_below(b, a) || is_equal(a, b)),
        !(is_below(a, b) && is_below(b, a)),
        is_below(a, b) && is_below(b, c) ==> is_below(a, c),
        is_nan(a) ==> !is_below(a, b) && !is_below(b, a) && !is_equal(a, a),
{
}

/// How bits are ordered: among the numbers from zero to infinity as the bits are, among those below zero
/// the other way round, and all of these below all of those; the two zeros are equal, and nothing else
/// is that has other bits.
pub proof fn law_bits_are_ordered_within_a_sign(a: u32, b: u32)
    ensures
        a <= 0x7F80_0000 && b <= 0x7F80_0000 ==> (is_below(a, b) <==> a < b),
        0x8000_0000 <= a <= 0xFF80_0000 && 0x8000_0000 <= b <= 0xFF80_0000 ==> (is_below(a, b) <==> a
            > b),
        0x8000_0000 <= a <= 0xFF80_0000 && b <= 0x7F80_0000 ==> (is_below(a, b) <==> a > 0x8000_0000
            || b > 0) && !is_below(b, a),
        is_nan(a) <==> 0x7F80_0000 < a < 0x8000_0000 || a > 0xFF80_0000,
        is_finite(a) <==> a < 0x7F80_0000 || 0x8000_0000 <= a < 0xFF80_0000,
        is_equal(a, b) <==> !is_nan(a) && (a == b || (a == 0 && b == 0x8000_0000) || (a == 0x8000_0000
            && b == 0)),
{
}

/// A double is zero, above zero, or neither: below zero or no number.
pub proof fn law_wide_signs(b: u64)
    ensures
        is_wide_zero(b) <==> b == 0 || b == 0x8000_0000_0000_0000,
        is_wide_positive(b) <==> 0 < b <= 0x7FF0_0000_0000_0000,
{
}

} // verus!
