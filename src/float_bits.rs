//! IEEE 754 ordering of double-precision values held as bit patterns.
use vstd::prelude::*;

verus! {

/// The bits of the magnitude: everything but the sign.
pub const MAGNITUDE_MASK: u64 = 0x7fff_ffff_ffff_ffff;

/// The bits of the exponent field.
pub const EXPONENT_MASK: u64 = 0x7ff0_0000_0000_0000;

/// The bits of the fraction field.
pub const FRACTION_MASK: u64 = 0x000f_ffff_ffff_ffff;

/// A value is NaN when its exponent field is all ones and its fraction is not zero.
pub open spec fn is_nan(x: u64) -> bool {
    x & EXPONENT_MASK == EXPONENT_MASK && x & FRACTION_MASK != 0
}

/// The position of a value that is not NaN on the number line: for IEEE 754
/// values the magnitude bits grow with the magnitude, so the signed magnitude
/// orders the values as the reals they denote (both zeros share position 0,
/// the infinities come last and first).
pub open spec fn order_key(x: u64) -> int {
    if x & MAGNITUDE_MASK == x {
        (x & MAGNITUDE_MASK) as int
    } else {
        -((x & MAGNITUDE_MASK) as int)
    }
}

/// `a < b` on the values that the bit patterns denote.
pub open spec fn float_lt(a: u64, b: u64) -> bool {
    !is_nan(a) && !is_nan(b) && order_key(a) < order_key(b)
}

/// Whether the value is NaN, as `f64::is_nan`.
pub fn bits_is_nan(x: u64) -> (r: bool)
    ensures
        r == is_nan(x),
{
    x & EXPONENT_MASK == EXPONENT_MASK && x & FRACTION_MASK != 0
}

/// `a < b` on the values, as the `<` of `f64`: false when either is NaN, and
/// false between the two zeros.
pub fn bits_lt(a: u64, b: u64) -> (r: bool)
    ensures
        r == float_lt(a, b),
{
    if bits_is_nan(a) || bits_is_nan(b) {
        return false;
    }
    let ma = a & MAGNITUDE_MASK;
    let mb = b & MAGNITUDE_MASK;
    let a_positive = ma == a;
    let b_positive = mb == b;
    if a_positive && b_positive {
        ma < mb
    } else if a_positive {
        false
    } else if b_positive {
        ma != 0 || mb != 0
    } else {
        mb < ma
    }
}

} // verus!
