//! Fixed-point arithmetic shared by the whole simulation.
//!
//! Every length is a whole number of thousandths of a world unit, every
//! duration a whole number of milliseconds, and every speed a whole number of
//! thousandths of a world unit per second. Stored scalars are `i32`;
//! intermediate results are computed exactly in wider integers and brought
//! back with [`saturate`], so no operation can overflow.
use vstd::prelude::*;

verus! {

/// Thousandths per world unit, and milliseconds per second.
pub const UNIT: i32 = 1000;

/// The nearest value to `v` that an `i32` can hold.
pub open spec fn clamp(v: int) -> int {
    if v < i32::MIN {
        i32::MIN as int
    } else if v > i32::MAX {
        i32::MAX as int
    } else {
        v
    }
}

/// The quotient `a / b` rounded toward zero, for a positive divisor.
pub open spec fn div_toward_zero(a: int, b: int) -> int
    recommends
        b > 0,
{
    if a >= 0 {
        a / b
    } else {
        -((-a) / b)
    }
}

/// The quotient `a / b` rounded to the nearest whole number, a half away
/// from zero, for a positive divisor.
pub open spec fn div_to_nearest(a: int, b: int) -> int
    recommends
        b > 0,
{
    if a >= 0 {
        (a + b / 2) / b
    } else {
        -((-a + b / 2) / b)
    }
}

/// The absolute value of `v`.
pub open spec fn magnitude(v: int) -> int {
    if v >= 0 {
        v
    } else {
        -v
    }
}

/// A product is no larger than the product of bounds on its factors.
pub proof fn lemma_product_bound(a: int, b: int, bound_a: int, bound_b: int)
    by (nonlinear_arith)
    requires
        -bound_a <= a <= bound_a,
        -bound_b <= b <= bound_b,
    ensures
        -(bound_a * bound_b) <= a * b <= bound_a * bound_b,
{
}

/// A quotient rounded toward zero is no larger than its dividend.
pub proof fn lemma_quotient_bound(dividend: int, divisor: int, bound: int)
    by (nonlinear_arith)
    requires
        divisor > 0,
        -bound <= dividend <= bound,
    ensures
        -bound <= div_toward_zero(dividend, divisor) <= bound,
{
}

/// A quotient rounded to nearest is no larger than its dividend, and has
/// the dividend's sign.
pub proof fn lemma_nearest_quotient(dividend: int, divisor: int, bound: int)
    by (nonlinear_arith)
    requires
        divisor > 0,
        -bound <= dividend <= bound,
    ensures
        -bound <= div_to_nearest(dividend, divisor) <= bound,
        dividend >= 0 ==> div_to_nearest(dividend, divisor) >= 0,
        dividend <= 0 ==> div_to_nearest(dividend, divisor) <= 0,
{
}

/// A quotient rounded to nearest is within half the divisor of the exact
/// quotient.
pub proof fn lemma_nearest_is_close(dividend: int, divisor: int)
    by (nonlinear_arith)
    requires
        divisor > 0,
    ensures
        -(divisor / 2) <= div_to_nearest(dividend, divisor) * divisor - dividend <= divisor / 2,
{
    let half = divisor / 2;
    assert(0 <= half && 2 * half <= divisor && divisor <= 2 * half + 1);
    if dividend >= 0 {
        let shifted = dividend + half;
        assert(shifted == divisor * (shifted / divisor) + shifted % divisor);
        assert(0 <= shifted % divisor < divisor);
    } else {
        let shifted = -dividend + half;
        assert(shifted == divisor * (shifted / divisor) + shifted % divisor);
        assert(0 <= shifted % divisor < divisor);
    }
}

/// A multiple of the divisor divides exactly, also when rounded to nearest.
pub proof fn lemma_nearest_is_exact(factor: int, divisor: int)
    by (nonlinear_arith)
    requires
        divisor > 0,
    ensures
        div_to_nearest(factor * divisor, divisor) == factor,
{
    let half = divisor / 2;
    assert(0 <= half < divisor);
    if factor >= 0 {
        assert((factor * divisor + half) / divisor == factor);
    } else {
        assert(factor * divisor < 0);
        assert(-(factor * divisor) == (-factor) * divisor);
        assert(((-factor) * divisor + half) / divisor == -factor);
    }
}

/// Brings a 64-bit intermediate result back into the stored range.
pub fn saturate(v: i64) -> (r: i32)
    ensures
        r == clamp(v as int),
{
    if v < i32::MIN as i64 {
        i32::MIN
    } else if v > i32::MAX as i64 {
        i32::MAX
    } else {
        v as i32
    }
}

/// Brings a 128-bit intermediate result back into the stored range.
pub fn saturate_wide(v: i128) -> (r: i32)
    ensures
        r == clamp(v as int),
{
    if v < i32::MIN as i128 {
        i32::MIN
    } else if v > i32::MAX as i128 {
        i32::MAX
    } else {
        v as i32
    }
}

/// The saturating sum of two stored scalars.
pub fn add_saturating(a: i32, b: i32) -> (r: i32)
    ensures
        r == clamp(a + b),
{
    saturate(a as i64 + b as i64)
}

/// The saturating difference of two stored scalars.
pub fn sub_saturating(a: i32, b: i32) -> (r: i32)
    ensures
        r == clamp(a - b),
{
    saturate(a as i64 - b as i64)
}

/// `value * numerator / denominator`, rounded toward zero and saturated.
/// The product is formed exactly before it is divided.
pub fn scale_by_ratio(value: i32, numerator: i64, denominator: i64) -> (r: i32)
    requires
        denominator > 0,
    ensures
        r == clamp(div_toward_zero(value * numerator, denominator as int)),
{
    proof {
        lemma_product_bound(value as int, numerator as int, 0x8000_0000, 0x8000_0000_0000_0000);
    }
    let product: i128 = value as i128 * numerator as i128;
    saturate_wide(product / denominator as i128)
}

/// `value * numerator / denominator`, rounded to nearest and saturated.
/// The product is formed exactly before it is divided.
pub fn scale_to_nearest(value: i32, numerator: i64, denominator: i64) -> (r: i32)
    requires
        denominator > 0,
    ensures
        r == clamp(div_to_nearest(value * numerator, denominator as int)),
{
    proof {
        lemma_product_bound(value as int, numerator as int, 0x8000_0000, 0x8000_0000_0000_0000);
    }
    let product: i128 = value as i128 * numerator as i128;
    let divisor: i128 = denominator as i128;
    let half: i128 = divisor / 2;
    if product >= 0 {
        saturate_wide((product + half) / divisor)
    } else {
        saturate_wide(-((-product + half) / divisor))
    }
}

/// The number of whole world units in `v`, rounded toward negative infinity.
pub fn floor_to_units(v: i32) -> (r: i32)
    ensures
        r == v as int / UNIT as int,
{
    let wide: i64 = v as i64;
    if wide >= 0 {
        (wide / 1000) as i32
    } else {
        let up: i64 = (999 - wide) / 1000;
        (0 - up) as i32
    }
}

/// `root` is the whole part of the square root of `value`.
pub open spec fn is_floor_sqrt(value: int, root: int) -> bool {
    &&& 0 <= root
    &&& root * root <= value
    &&& value < (root + 1) * (root + 1)
}

/// The whole part of the square root of a non-negative `value`.
pub open spec fn floor_sqrt(value: int) -> int {
    choose|root: int| is_floor_sqrt(value, root)
}

/// At most one integer is the whole part of a square root.
pub proof fn lemma_floor_sqrt_is_unique(value: int, first: int, second: int)
    by (nonlinear_arith)
    requires
        is_floor_sqrt(value, first),
        is_floor_sqrt(value, second),
    ensures
        first == second,
{
    if first < second {
        assert((first + 1) * (first + 1) <= second * second);
    } else if second < first {
        assert((second + 1) * (second + 1) <= first * first);
    }
}

/// The whole part of the square root of `value`, found by bisection.
pub fn isqrt(value: u128) -> (root: u64)
    ensures
        root == floor_sqrt(value as int),
        is_floor_sqrt(value as int, root as int),
{
    let mut low: u128 = 0;
    let mut high: u128 = 0x1_0000_0000_0000_0000;
    assert(0x1_0000_0000_0000_0000 * 0x1_0000_0000_0000_0000
        == 0x1_0000_0000_0000_0000_0000_0000_0000_0000int);
    while high - low > 1
        invariant
            low < high <= 0x1_0000_0000_0000_0000,
            low * low <= value,
            value < high * high,
        decreases high - low,
    {
        let middle: u128 = low + (high - low) / 2;
        assert(middle * middle <= 0xffff_ffff_ffff_ffff * 0xffff_ffff_ffff_ffff)
            by (nonlinear_arith)
            requires
                0 <= middle <= 0xffff_ffff_ffff_ffff,
        ;
        if middle * middle <= value {
            low = middle;
        } else {
            high = middle;
        }
    }
    proof {
        assert(is_floor_sqrt(value as int, low as int));
        lemma_floor_sqrt_is_unique(value as int, low as int, floor_sqrt(value as int));
    }
    low as u64
}

} // verus!
