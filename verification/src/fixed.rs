//! Fixed-point arithmetic: the engine computes in whole millionths of a
//! world unit, and every quotient is rounded towards minus infinity.

use vstd::prelude::*;
use vstd::arithmetic::div_mod::lemma_div_is_ordered;

verus! {

/// One world unit in fixed-point representation: every coordinate and every
/// distance of the engine is a whole number of millionths of a world unit.
pub const UNIT: i64 = 1_000_000;

/// Largest size of a coordinate or a coordinate difference that the
/// engine's arithmetic accepts, in fixed-point units.
pub const MAX_COORD: i64 = 1_099_511_627_776;

/// Largest size of a distance that can be scaled by a cosine.
pub const MAX_DISTANCE: i64 = 9_000_000_000_000;

/// `a * num / den`, rounded towards minus infinity, for a divisor of either
/// sign.
pub open spec fn scaled(a: int, num: int, den: int) -> int {
    if den > 0 {
        (a * num) / den
    } else {
        (-(a * num)) / (-den)
    }
}

/// `x / d` rounded up, for a positive `d`.
pub open spec fn ceil_div(x: int, d: int) -> int {
    -((-x) / d)
}

/// `n / d` rounded towards zero, for a positive `d`.
pub open spec fn toward_zero(n: int, d: int) -> int {
    if n >= 0 {
        n / d
    } else {
        -((-n) / d)
    }
}

/// Size of a number.
pub open spec fn magnitude(x: int) -> int {
    if x < 0 {
        -x
    } else {
        x
    }
}

/// Quotient of `n` by a positive `d`, rounded towards minus infinity.
pub fn floor_div(n: i64, d: i64) -> (q: i64)
    requires
        d > 0,
    ensures
        q == n as int / d as int,
{
    proof {
        lemma_floor_div_bounds(n as int, d as int);
    }
    match n.checked_div_euclid(d) {
        Some(q) => q,
        None => 0,
    }
}

/// Quotient of `n` by a positive `d`, rounded towards minus infinity, for
/// dividends that do not fit 64 bits.
pub fn floor_div_wide(n: i128, d: i128) -> (q: i128)
    requires
        d > 0,
    ensures
        q == n as int / d as int,
{
    proof {
        lemma_floor_div_bounds(n as int, d as int);
    }
    match n.checked_div_euclid(d) {
        Some(q) => q,
        None => 0,
    }
}

/// `a * num / den` rounded towards minus infinity.
pub fn scale(a: i64, num: i64, den: i64) -> (r: i64)
    requires
        -MAX_COORD <= a <= MAX_COORD,
        -UNIT <= num <= UNIT,
        -UNIT <= den <= UNIT,
        den != 0,
    ensures
        r == scaled(a as int, num as int, den as int),
        -MAX_COORD * UNIT <= r <= MAX_COORD * UNIT,
{
    proof {
        lemma_mul_bound(a as int, num as int, MAX_COORD as int, UNIT as int);
    }
    let product: i64 = a * num;
    if den > 0 {
        proof {
            lemma_floor_div_bounds(product as int, den as int);
        }
        floor_div(product, den)
    } else {
        proof {
            lemma_floor_div_bounds(-product as int, -den as int);
        }
        floor_div(-product, -den)
    }
}

/// A quotient by a positive divisor lies between the dividend and its negation.
pub proof fn lemma_floor_div_bounds(n: int, d: int)
    requires
        d > 0,
    ensures
        n >= 0 ==> 0 <= n / d <= n,
        n < 0 ==> n <= n / d < 0,
        d * (n / d) <= n < d * (n / d) + d,
{
    assert(n >= 0 ==> 0 <= n / d <= n) by (nonlinear_arith)
        requires
            d > 0,
    ;
    assert(n < 0 ==> n <= n / d < 0) by (nonlinear_arith)
        requires
            d > 0,
    ;
    assert(d * (n / d) <= n < d * (n / d) + d) by (nonlinear_arith)
        requires
            d > 0,
    ;
}

/// A quotient rounded towards zero is less than one off the exact quotient,
/// on the side of zero.
pub proof fn lemma_toward_zero_bounds(n: int, d: int)
    requires
        d > 0,
    ensures
        n >= 0 ==> d * toward_zero(n, d) <= n < d * toward_zero(n, d) + d,
        n < 0 ==> d * toward_zero(n, d) - d < n <= d * toward_zero(n, d),
        n >= 0 ==> 0 <= toward_zero(n, d) <= n,
        n < 0 ==> n <= toward_zero(n, d) <= 0,
{
    lemma_floor_div_bounds(n, d);
    lemma_floor_div_bounds(-n, d);
    let q = (-n) / d;
    assert(d * (-q) == -(d * q)) by (nonlinear_arith);
}

/// A product is bounded by the product of the bounds of its factors.
pub proof fn lemma_mul_bound(a: int, b: int, la: int, lb: int)
    by (nonlinear_arith)
    requires
        -la <= a <= la,
        -lb <= b <= lb,
    ensures
        -(la * lb) <= a * b <= la * lb,
{
}

/// A quotient rounded down reaches `n` exactly when the dividend reaches
/// `n` times the divisor.
pub proof fn lemma_floor_div_reaches(x: int, d: int, n: int)
    requires
        d > 0,
    ensures
        x / d >= n <==> x >= n * d,
{
    lemma_floor_div_bounds(x, d);
    let q = x / d;
    assert(q >= n ==> d * q >= n * d) by (nonlinear_arith)
        requires
            d > 0,
    ;
    assert(q < n ==> d * q + d <= n * d) by (nonlinear_arith)
        requires
            d > 0,
    ;
}

/// Rounding up is never less than rounding down, and a quotient rounded up
/// stays within `n` exactly when the dividend stays within `n` times the
/// divisor.
pub proof fn lemma_ceil_div_within(x: int, d: int, n: int)
    requires
        d > 0,
    ensures
        x / d <= ceil_div(x, d),
        ceil_div(x, d) <= n <==> x <= n * d,
        x >= 0 ==> x / d >= 0,
{
    lemma_floor_div_reaches(-x, d, -n);
    assert((-n) * d == -(n * d)) by (nonlinear_arith);
    lemma_floor_div_bounds(x, d);
    lemma_floor_div_bounds(-x, d);
    let q = x / d;
    let r = (-x) / d;
    assert(q + r <= 0) by (nonlinear_arith)
        requires
            d > 0,
            d * q <= x,
            d * r <= -x,
    ;
}

/// Rounding up follows the order of the dividends.
pub proof fn lemma_ceil_div_is_ordered(x: int, y: int, d: int)
    requires
        x <= y,
        d > 0,
    ensures
        ceil_div(x, d) <= ceil_div(y, d),
{
    lemma_div_is_ordered(-y, -x, d);
}

/// Scaling keeps a value between zero and a bound between zero and the
/// scaled bound.
pub proof fn lemma_scaled_between(a: int, b: int, num: int, den: int)
    requires
        den != 0,
        0 <= a <= b || b <= a <= 0,
    ensures
        0 <= scaled(a, num, den) <= scaled(b, num, den) || scaled(b, num, den) <= scaled(
            a,
            num,
            den,
        ) <= 0,
{
    let d = if den > 0 {
        den
    } else {
        -den
    };
    let fa = if den > 0 {
        a * num
    } else {
        -(a * num)
    };
    let fb = if den > 0 {
        b * num
    } else {
        -(b * num)
    };
    assert(0 <= a * num <= b * num || b * num <= a * num <= 0) by (nonlinear_arith)
        requires
            0 <= a <= b || b <= a <= 0,
    ;
    assert(0int / d == 0) by (nonlinear_arith)
        requires
            d > 0,
    ;
    if 0 <= fa <= fb {
        lemma_div_is_ordered(0, fa, d);
        lemma_div_is_ordered(fa, fb, d);
    } else {
        lemma_div_is_ordered(fb, fa, d);
        lemma_div_is_ordered(fa, 0, d);
    }
}

/// A scaled value by sizes and signs: the quotient of the sizes, rounded
/// down where the signs give a positive value and rounded up, then
/// negated, where they give a negative one.
pub proof fn lemma_scaled_by_signs(a: int, num: int, den: int)
    requires
        den != 0,
    ensures
        magnitude(a) * magnitude(num) >= 0,
        ((a >= 0) == ((num >= 0) == (den > 0))) ==> scaled(a, num, den) == (magnitude(a)
            * magnitude(num)) / magnitude(den),
        ((a >= 0) != ((num >= 0) == (den > 0))) ==> scaled(a, num, den) == -ceil_div(
            magnitude(a) * magnitude(num),
            magnitude(den),
        ),
{
    let m = magnitude(a) * magnitude(num);
    assert(m >= 0) by (nonlinear_arith)
        requires
            m == magnitude(a) * magnitude(num),
            magnitude(a) >= 0,
            magnitude(num) >= 0,
    ;
    assert(a * num == m || a * num == -m) by (nonlinear_arith)
        requires
            m == magnitude(a) * magnitude(num),
            magnitude(a) == a || magnitude(a) == -a,
            magnitude(num) == num || magnitude(num) == -num,
    ;
    assert(((a >= 0) == (num >= 0)) ==> a * num == m) by (nonlinear_arith)
        requires
            m == magnitude(a) * magnitude(num),
            a >= 0 ==> magnitude(a) == a,
            a < 0 ==> magnitude(a) == -a,
            num >= 0 ==> magnitude(num) == num,
            num < 0 ==> magnitude(num) == -num,
    ;
    assert(((a >= 0) != (num >= 0)) ==> a * num == -m) by (nonlinear_arith)
        requires
            m == magnitude(a) * magnitude(num),
            a >= 0 ==> magnitude(a) == a,
            a < 0 ==> magnitude(a) == -a,
            num >= 0 ==> magnitude(num) == num,
            num < 0 ==> magnitude(num) == -num,
    ;
}

} // verus!
