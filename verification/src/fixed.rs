//! Fixed point numbers.
//!
//! Every length, coordinate, scale factor and colour component is an `i64`
//! that counts millionths: `UNIT` stands for one logical point, for the scale
//! factor one or for full intensity. Sums are clamped to the range of the
//! type, products and quotients are rounded once, from their exact value.

use vstd::prelude::*;

verus! {

/// One, as a fixed point number.
pub const UNIT: i64 = 1_000_000;

/// One half, as a fixed point number.
pub const HALF: i64 = 500_000;

/// The square of `UNIT`: what a product of two fixed point numbers is divided
/// by to give a whole number.
pub const UNIT_SQUARED: i128 = 1_000_000_000_000;

/// The largest magnitude of a fixed point number.
pub const MAX_FIXED: i64 = 0x7fff_ffff_ffff_ffff;

/// The value nearest to `v` among those of magnitude at most `MAX_FIXED`.
pub open spec fn clamped(v: int) -> i64 {
    if v > MAX_FIXED {
        MAX_FIXED
    } else if v < -MAX_FIXED {
        (-MAX_FIXED) as i64
    } else {
        v as i64
    }
}

/// `n / d` rounded to the nearest integer, halves away from zero.
pub open spec fn nearest(n: int, d: int) -> int
    recommends
        d > 0,
{
    let m = if n < 0 {
        -n
    } else {
        n
    };
    let q = if 2 * (m % d) >= d {
        m / d + 1
    } else {
        m / d
    };
    if n < 0 {
        -q
    } else {
        q
    }
}

/// The product of two fixed point numbers.
pub open spec fn product(a: i64, b: i64) -> i64 {
    clamped(nearest(a * b, UNIT as int))
}

/// The quotient of two fixed point numbers.
pub open spec fn quotient(a: i64, b: i64) -> i64
    recommends
        b != 0,
{
    if b < 0 {
        clamped(nearest(-(a * UNIT), -b))
    } else {
        clamped(nearest(a * UNIT, b as int))
    }
}

/// `v` between `lo` and `hi`.
pub open spec fn limited(v: i64, lo: i64, hi: i64) -> i64 {
    if v < lo {
        lo
    } else if v > hi {
        hi
    } else {
        v
    }
}

/// How many whole pixels a length spans at a scale factor, as a `u32`: the
/// nearest integer, or the nearest end of the range of the type.
pub open spec fn pixel_count(len: i64, scale: i64) -> u32 {
    let n = nearest(len * scale, UNIT_SQUARED as int);
    if n < 0 {
        0
    } else if n > u32::MAX {
        u32::MAX
    } else {
        n as u32
    }
}

/// The whole number of pixels nearest to a length at a scale factor.
pub open spec fn pixel_offset(len: i64, scale: i64) -> i64 {
    clamped(nearest(len * scale, UNIT_SQUARED as int))
}

pub open spec fn smaller(a: int, b: int) -> int {
    if b < a {
        b
    } else {
        a
    }
}

pub open spec fn larger(a: int, b: int) -> int {
    if b > a {
        b
    } else {
        a
    }
}

/// `r` is the square root of `n`, rounded down.
pub open spec fn is_root(r: int, n: int) -> bool {
    0 <= r && r * r <= n < (r + 1) * (r + 1)
}

/// The square root of `n`, rounded down.
pub open spec fn root(n: int) -> int {
    choose|r: int| is_root(r, n)
}

/// A number has one square root that is rounded down.
pub proof fn law_root_is_unique(r: int, n: int)
    requires
        is_root(r, n),
    ensures
        root(n) == r,
{
    let q = root(n);
    assert(is_root(q, n));
    assert(q == r) by (nonlinear_arith)
        requires
            0 <= r,
            0 <= q,
            r * r <= n < (r + 1) * (r + 1),
            q * q <= n < (q + 1) * (q + 1),
    ;
}

/// A rounded quotient is off by at most one half.
pub proof fn law_rounding_error(n: int, d: int)
    requires
        d > 0,
    ensures
        -d <= 2 * (nearest(n, d) * d - n) <= d,
{
    let m = if n < 0 {
        -n
    } else {
        n
    };
    let q = m / d;
    let e = m % d;
    assert(m == q * d + e && 0 <= e < d) by (nonlinear_arith)
        requires
            d > 0,
            q == m / d,
            e == m % d,
    ;
    assert((q + 1) * d == q * d + d) by (nonlinear_arith);
    assert((-q) * d == -(q * d)) by (nonlinear_arith);
    assert((-(q + 1)) * d == -(q * d) - d) by (nonlinear_arith);
}

/// An integer that is less than one half away from a quotient is the rounded
/// quotient.
pub proof fn law_rounding_is_unique(n: int, d: int, q: int)
    requires
        d > 0,
        -d < 2 * (q * d - n) < d,
    ensures
        nearest(n, d) == q,
{
    law_rounding_error(n, d);
    let r = nearest(n, d);
    assert(r == q) by (nonlinear_arith)
        requires
            d > 0,
            -d < 2 * (q * d - n) < d,
            -d <= 2 * (r * d - n) <= d,
    ;
}

/// The nearest fixed point number to a wide value.
pub fn clamp_wide(v: i128) -> (r: i64)
    ensures
        r == clamped(v as int),
{
    if v > MAX_FIXED as i128 {
        MAX_FIXED
    } else if v < -(MAX_FIXED as i128) {
        -MAX_FIXED
    } else {
        v as i64
    }
}

/// `a + b`, clamped.
pub fn plus(a: i64, b: i64) -> (r: i64)
    ensures
        r == clamped(a + b),
{
    clamp_wide(a as i128 + b as i128)
}

/// `a - b`, clamped.
pub fn minus(a: i64, b: i64) -> (r: i64)
    ensures
        r == clamped(a - b),
{
    clamp_wide(a as i128 - b as i128)
}

pub fn smaller_of(a: i64, b: i64) -> (r: i64)
    ensures
        r == smaller(a as int, b as int),
{
    if b < a {
        b
    } else {
        a
    }
}

pub fn larger_of(a: i64, b: i64) -> (r: i64)
    ensures
        r == larger(a as int, b as int),
{
    if b > a {
        b
    } else {
        a
    }
}

/// `v` moved to the nearest end of `lo ..= hi` when it lies outside.
pub fn limit(v: i64, lo: i64, hi: i64) -> (r: i64)
    ensures
        r == limited(v, lo, hi),
{
    if v < lo {
        lo
    } else if v > hi {
        hi
    } else {
        v
    }
}

proof fn lemma_product_bound(a: int, b: int)
    by (nonlinear_arith)
    requires
        -0x8000_0000_0000_0000 <= a <= 0x7fff_ffff_ffff_ffff,
        -0x8000_0000_0000_0000 <= b <= 0x7fff_ffff_ffff_ffff,
    ensures
        -0x4000_0000_0000_0000_0000_0000_0000_0000 <= a * b
            <= 0x4000_0000_0000_0000_0000_0000_0000_0000,
{
}

/// The exact product of two 64 bit numbers.
pub fn wide_product(a: i64, b: i64) -> (r: i128)
    ensures
        r == a * b,
        -0x4000_0000_0000_0000_0000_0000_0000_0000 <= r
            <= 0x4000_0000_0000_0000_0000_0000_0000_0000,
{
    proof {
        lemma_product_bound(a as int, b as int);
    }
    a as i128 * b as i128
}

/// `n / d` rounded to the nearest integer, halves away from zero.
pub fn nearest_quotient(n: i128, d: i128) -> (r: i128)
    requires
        d > 0,
        n > i128::MIN,
    ensures
        r == nearest(n as int, d as int),
        n >= 0 ==> 0 <= r <= n,
        n < 0 ==> n <= r <= 0,
{
    let m: i128 = if n < 0 {
        -n
    } else {
        n
    };
    let whole: i128 = m / d;
    let rest: i128 = m % d;
    proof {
        assert(0 <= rest < d && 0 <= whole <= m) by (nonlinear_arith)
            requires
                m >= 0,
                d > 0,
                rest == m % d,
                whole == m / d,
        ;
        assert(d >= 2 ==> whole < m || m == 0) by (nonlinear_arith)
            requires
                m >= 0,
                d > 0,
                whole == m / d,
        ;
    }
    let q: i128 = if rest >= d - rest {
        proof {
            assert(whole + 1 <= m) by (nonlinear_arith)
                requires
                    m >= 0,
                    d >= 2,
                    rest >= 1,
                    whole == m / d,
                    rest == m % d,
            ;
        }
        whole + 1
    } else {
        whole
    };
    if n < 0 {
        -q
    } else {
        q
    }
}

/// The product of two fixed point numbers, rounded once.
pub fn product_of(a: i64, b: i64) -> (r: i64)
    ensures
        r == product(a, b),
{
    clamp_wide(nearest_quotient(wide_product(a, b), UNIT as i128))
}

/// The quotient of two fixed point numbers, rounded once.
pub fn quotient_of(a: i64, b: i64) -> (r: i64)
    requires
        b != 0,
    ensures
        r == quotient(a, b),
{
    let n: i128 = wide_product(a, UNIT);
    if b < 0 {
        clamp_wide(nearest_quotient(-n, -(b as i128)))
    } else {
        clamp_wide(nearest_quotient(n, b as i128))
    }
}

/// Half of a fixed point number, rounded.
pub open spec fn halved(a: i64) -> i64 {
    nearest(a as int, 2) as i64
}

/// Half of a fixed point number, rounded.
pub fn half_of(a: i64) -> (r: i64)
    ensures
        r == halved(a),
        a >= 0 ==> 0 <= r <= a,
{
    nearest_quotient(a as i128, 2) as i64
}

/// The number of pixels that a length spans at a scale factor.
pub fn pixels(len: i64, scale: i64) -> (r: u32)
    ensures
        r == pixel_count(len, scale),
{
    let n: i128 = nearest_quotient(wide_product(len, scale), UNIT_SQUARED);
    if n < 0 {
        0
    } else if n > u32::MAX as i128 {
        u32::MAX
    } else {
        n as u32
    }
}

/// The position in pixels of a length at a scale factor.
pub fn pixels_from(len: i64, scale: i64) -> (r: i64)
    ensures
        r == pixel_offset(len, scale),
{
    clamp_wide(nearest_quotient(wide_product(len, scale), UNIT_SQUARED))
}

/// A quotient that lies halfway between two integers is rounded to the one that
/// is farther from zero.
pub proof fn law_halves_round_away_from_zero(n: int, d: int, q: int)
    requires
        d > 0,
        q >= 0,
        2 * n == (2 * q + 1) * d,
    ensures
        nearest(n, d) == q + 1,
        nearest(-n, d) == -(q + 1),
{
    law_rounding_error(n, d);
    let r = n / d;
    let e = n % d;
    assert(n > 0 && r == q && 2 * e == d) by (nonlinear_arith)
        requires
            d > 0,
            q >= 0,
            2 * n == (2 * q + 1) * d,
            r == n / d,
            e == n % d,
    ;
}

/// Clamping changes nothing but what does not fit, which becomes the nearer end.
pub proof fn law_clamping(v: int)
    ensures
        -0x7fff_ffff_ffff_ffff <= v <= 0x7fff_ffff_ffff_ffff ==> clamped(v) == v,
        v > 0x7fff_ffff_ffff_ffff ==> clamped(v) == 0x7fff_ffff_ffff_ffff,
        v < -0x7fff_ffff_ffff_ffff ==> clamped(v) == -0x7fff_ffff_ffff_ffff,
{
}

/// The product of two fixed point numbers is off by at most half a millionth.
pub proof fn law_products_are_rounded(a: i64, b: i64)
    requires
        -9_000_000_000_000_000_000_000_000 <= a * b <= 9_000_000_000_000_000_000_000_000,
    ensures
        -1_000_000 <= 2 * (product(a, b) * 1_000_000 - a * b) <= 1_000_000,
{
    law_rounding_error(a * b, UNIT as int);
}

/// The quotient of two fixed point numbers is off by at most half a millionth.
pub proof fn law_quotients_are_rounded(a: i64, b: i64)
    requires
        b > 0 ==> -9_000_000_000_000 * b <= a <= 9_000_000_000_000 * b,
        b < 0 ==> 9_000_000_000_000 * b <= a <= -9_000_000_000_000 * b,
        b != 0,
    ensures
        b > 0 ==> -b <= 2 * (quotient(a, b) * b - a * 1_000_000) <= b,
        b < 0 ==> b <= 2 * (quotient(a, b) * b - a * 1_000_000) <= -b,
{
    let n = if b < 0 {
        -(a * UNIT)
    } else {
        a * UNIT
    };
    let d = if b < 0 {
        -b
    } else {
        b as int
    };
    law_rounding_error(n, d);
    let q = nearest(n, d);
    assert(-9_000_000_000_000_000_001 <= q <= 9_000_000_000_000_000_001) by (nonlinear_arith)
        requires
            d >= 1,
            -d <= 2 * (q * d - n) <= d,
            -9_000_000_000_000_000_000 * d <= n <= 9_000_000_000_000_000_000 * d,
    ;
    if b < 0 {
        assert(q * d == -(q * b)) by (nonlinear_arith)
            requires
                d == -b,
        ;
    }
}

/// Limiting keeps what lies between the limits and moves anything else to the
/// nearer limit.
pub proof fn law_limiting(v: i64, lo: i64, hi: i64)
    requires
        lo <= hi,
    ensures
        lo <= limited(v, lo, hi) <= hi,
        lo <= v <= hi ==> limited(v, lo, hi) == v,
        v < lo ==> limited(v, lo, hi) == lo,
        v > hi ==> limited(v, lo, hi) == hi,
{
}

/// Two halves make the whole, up to one.
pub proof fn law_halving(a: i64)
    ensures
        -1 <= 2 * halved(a) - a <= 1,
        a % 2 == 0 ==> 2 * halved(a) == a,
{
    law_rounding_error(a as int, 2);
}

/// Pixels are counted to the nearest one: a length of so many points has so many
/// times the scale factor pixels. What is negative has none.
pub proof fn law_pixels_are_counted_to_the_nearest(len: i64, scale: i64)
    ensures
        0 <= len * scale <= 0xffff_ffff * 1_000_000_000_000 ==> -1_000_000_000_000 <= 2 * (
        pixel_count(len, scale) * 1_000_000_000_000 - len * scale) <= 1_000_000_000_000,
        len * scale <= 0 ==> pixel_count(len, scale) == 0,
        len * scale > 0xffff_ffff * 1_000_000_000_000 ==> pixel_count(len, scale) == u32::MAX,
        -9_000_000_000_000_000_000 * 1_000_000_000_000 <= len * scale
            <= 9_000_000_000_000_000_000 * 1_000_000_000_000 ==> -1_000_000_000_000 <= 2 * (
        pixel_offset(len, scale) * 1_000_000_000_000 - len * scale) <= 1_000_000_000_000,
{
    law_rounding_error(len * scale, UNIT_SQUARED as int);
}

/// The smaller and the larger of two numbers are those two numbers.
pub proof fn law_smaller_and_larger(a: int, b: int)
    ensures
        smaller(a, b) <= a && smaller(a, b) <= b,
        larger(a, b) >= a && larger(a, b) >= b,
        smaller(a, b) + larger(a, b) == a + b,
        smaller(a, b) == a || smaller(a, b) == b,
{
}

} // verus!
