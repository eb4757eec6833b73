use vstd::prelude::*;

verus! {

/// How two floating-point values compare.
#[derive(Debug, Clone, Copy, PartialEq, Eq, Structural)]
pub enum FloatOrdering {
    Less,
    Equal,
    Greater,
    /// One of them is NaN.
    Unordered,
}

/// The `int` that `fcmpl` and `fcmpg` push for ordering `o`: -1, 0 or 1 for
/// less, equal or greater; nothing for an unordered pair.
pub open spec fn spec_compare_result(o: FloatOrdering) -> Option<i32> {
    match o {
        FloatOrdering::Less => Some(-1i32),
        FloatOrdering::Equal => Some(0i32),
        FloatOrdering::Greater => Some(1i32),
        FloatOrdering::Unordered => None,
    }
}

/// The `int` that `fcmpl` and `fcmpg` push for ordering `o`.
pub fn compare_result(o: FloatOrdering) -> (r: Option<i32>)
    ensures
        r == spec_compare_result(o),
{
    match o {
        FloatOrdering::Less => Some(-1),
        FloatOrdering::Equal => Some(0),
        FloatOrdering::Greater => Some(1),
        FloatOrdering::Unordered => None,
    }
}

/// Whether the `float` with IEEE 754 bits `x` is negative-signed (its
/// sign bit is set).
pub open spec fn float_sign(x: u32) -> bool {
    x >= 0x8000_0000
}

/// The bits of the `float` `x` without its sign bit: exponent and
/// fraction.
pub open spec fn float_magnitude(x: u32) -> int {
    if float_sign(x) {
        x - 0x8000_0000
    } else {
        x as int
    }
}

/// Whether the `float` with bits `x` is NaN: all exponent bits set and a
/// fraction that is not zero.
pub open spec fn float_is_nan(x: u32) -> bool {
    float_magnitude(x) > 0x7f80_0000
}

/// Where the non-NaN `float` with bits `x` lies on the number line, as an
/// integer that orders as the values do: the magnitude, negated for a
/// negative sign, so that both zeros lie at 0.
pub open spec fn float_key(x: u32) -> int {
    if float_sign(x) {
        -float_magnitude(x)
    } else {
        float_magnitude(x)
    }
}

/// How the `float`s with bits `a` and `b` compare under IEEE 754:
/// unordered where either is NaN, and otherwise as their values do.
pub open spec fn float_order(a: u32, b: u32) -> FloatOrdering {
    if float_is_nan(a) || float_is_nan(b) {
        FloatOrdering::Unordered
    } else if float_key(a) < float_key(b) {
        FloatOrdering::Less
    } else if float_key(a) == float_key(b) {
        FloatOrdering::Equal
    } else {
        FloatOrdering::Greater
    }
}

/// How the `float`s with bits `a` and `b` compare, worked out from their
/// bits.
pub fn compare_float_bits(a: u32, b: u32) -> (r: FloatOrdering)
    ensures
        r == float_order(a, b),
{
    let ma: u32 = if a >= 0x8000_0000 { a - 0x8000_0000 } else { a };
    let mb: u32 = if b >= 0x8000_0000 { b - 0x8000_0000 } else { b };
    if ma > 0x7f80_0000 || mb > 0x7f80_0000 {
        return FloatOrdering::Unordered;
    }
    let ka: i64 = if a >= 0x8000_0000 { -(ma as i64) } else { ma as i64 };
    let kb: i64 = if b >= 0x8000_0000 { -(mb as i64) } else { mb as i64 };
    if ka < kb {
        FloatOrdering::Less
    } else if ka == kb {
        FloatOrdering::Equal
    } else {
        FloatOrdering::Greater
    }
}

/// Comparing two `float`s the other way round gives the opposite answer:
/// less becomes greater and greater less, while equal and unordered stay.
pub proof fn lemma_float_order_swap(a: u32, b: u32)
    ensures
        float_order(a, b) == FloatOrdering::Less <==> float_order(b, a) == FloatOrdering::Greater,
        float_order(a, b) == FloatOrdering::Equal <==> float_order(b, a) == FloatOrdering::Equal,
        float_order(a, b) == FloatOrdering::Unordered <==> float_order(b, a) == FloatOrdering::Unordered,
{
}

/// Non-negative `float`s that are not NaN (sign bit clear, bits at most
/// those of infinity) order as their bits do as unsigned integers, and
/// non-positive ones the other way round.
pub proof fn lemma_float_order_bits(a: u32, b: u32)
    ensures
        a <= 0x7f80_0000 && b <= 0x7f80_0000 ==> (float_order(a, b) == FloatOrdering::Less <==> a < b)
            && (float_order(a, b) == FloatOrdering::Greater <==> a > b) && (float_order(a, b)
            == FloatOrdering::Equal <==> a == b),
        0x8000_0000 <= a <= 0xff80_0000 && 0x8000_0000 <= b <= 0xff80_0000 ==> (float_order(a, b)
            == FloatOrdering::Less <==> a > b) && (float_order(a, b) == FloatOrdering::Greater <==> a < b),
{
}

/// Both zeros (bits 0 and `0x8000_0000`) are equal, and NaN (any bits with
/// all exponent bits set and a fraction) is unordered with every `float`.
pub proof fn lemma_float_order_zero_nan(x: u32)
    ensures
        float_order(0, 0x8000_0000) == FloatOrdering::Equal,
        x > 0x7f80_0000 && x < 0x8000_0000 ==> float_order(x, x) == FloatOrdering::Unordered,
        x > 0xff80_0000 ==> float_order(0, x) == FloatOrdering::Unordered,
{
}

/// The floating-point arithmetic that the `float` instructions need, on raw
/// IEEE 754 bits. The library does no floating-point arithmetic itself: the
/// program that runs the virtual machine supplies it.
pub trait FloatArithmetic {
    /// The bits of the product of two `float`s.
    fn float_mul(&self, a: u32, b: u32) -> u32;

    /// How two `float`s compare.
    fn float_compare(&self, a: u32, b: u32) -> FloatOrdering;

    /// The bits of the `float` nearest to `i`.
    fn int_to_float(&self, i: i32) -> u32;

    /// A `float` converted to `int` as Java does (`NaN` gives 0, values out
    /// of range saturate).
    fn float_to_int(&self, f: u32) -> i32;
}

} // verus!
