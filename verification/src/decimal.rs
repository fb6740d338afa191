//! Numbers in decimal notation.

use vstd::prelude::*;

verus! {

/// The digit of a number below ten.
pub open spec fn digit(d: nat) -> char {
    (48 + d) as char
}

/// A number in decimal notation, without leading zeros.
pub open spec fn decimal(n: nat) -> Seq<char>
    decreases n,
{
    if n < 10 {
        seq![digit(n)]
    } else {
        decimal(n / 10).push(digit(n % 10))
    }
}

fn digit_text(d: u64) -> (r: &'static str)
    requires
        d < 10,
    ensures
        r@ == seq![digit(d as nat)],
{
    proof {
        reveal_strlit("0");
        reveal_strlit("1");
        reveal_strlit("2");
        reveal_strlit("3");
        reveal_strlit("4");
        reveal_strlit("5");
        reveal_strlit("6");
        reveal_strlit("7");
        reveal_strlit("8");
        reveal_strlit("9");
    }
    let r: &'static str = match d {
        0 => "0",
        1 => "1",
        2 => "2",
        3 => "3",
        4 => "4",
        5 => "5",
        6 => "6",
        7 => "7",
        8 => "8",
        _ => "9",
    };
    proof {
        assert(r@ =~= seq![digit(d as nat)]);
    }
    r
}

/// Appends a number in decimal notation.
pub fn append_decimal(out: &mut String, n: u64)
    ensures
        final(out)@ == old(out)@ + decimal(n as nat),
    decreases n,
{
    if n >= 10 {
        append_decimal(out, n / 10);
    }
    out.append(digit_text(n % 10));
    proof {
        assert(out@ =~= old(out)@ + decimal(n as nat));
    }
}

/// `n / d` rounded to the nearest integer, halves to the even one.
pub open spec fn nearest_even(n: nat, d: nat) -> nat
    recommends
        d > 0,
{
    if 2 * (n % d) > d || (2 * (n % d) == d && n / d % 2 == 1) {
        n / d + 1
    } else {
        n / d
    }
}

/// A number of millionths with this many binary digits before the point fills
/// the 53 digits of a number of double precision: `2^52` times a million.
pub const DOUBLE_FULL: u128 = 4_503_599_627_370_496_000_000;

/// A number of millionths, doubled until it fills a number of double precision,
/// together with `one`, which is doubled as often.
pub open spec fn filled(v: nat, one: nat) -> (nat, nat)
    decreases 2 * DOUBLE_FULL - v,
{
    if v == 0 || v >= DOUBLE_FULL {
        (v, one)
    } else {
        filled(2 * v, 2 * one)
    }
}

/// A number of millionths in hundredths, rounded as it is where numbers of double
/// precision are printed: to the nearest such number, and from there to the
/// nearest hundredth, halves to the even one both times.
pub open spec fn hundredths(v: nat) -> nat {
    let (digits, one) = filled(v, 1);
    nearest_even(100 * nearest_even(digits, 1_000_000), one)
}

fn nearest_even_of(n: u128, d: u128) -> (r: u128)
    requires
        d > 0,
        d <= 0x7fff_ffff_ffff_ffff_ffff_ffff_ffff_ffff,
        n < u128::MAX,
    ensures
        r == nearest_even(n as nat, d as nat),
        r <= n / d + 1,
{
    let whole: u128 = n / d;
    let rest: u128 = n % d;
    proof {
        assert(0 <= rest < d && whole <= n) by (nonlinear_arith)
            requires
                d > 0,
                rest == n % d,
                whole == n / d,
        ;
    }
    if 2 * rest > d || (2 * rest == d && whole % 2 == 1) {
        whole + 1
    } else {
        whole
    }
}

/// A number of millionths in hundredths, rounded as a number of double precision
/// is.
pub fn hundredths_of(v: u64) -> (r: u64)
    ensures
        r == hundredths(v as nat),
{
    let mut digits: u128 = v as u128;
    let mut one: u128 = 1;
    while digits != 0 && digits < DOUBLE_FULL
        invariant
            filled(digits as nat, one as nat) == filled(v as nat, 1),
            digits < 2 * DOUBLE_FULL,
            1 <= one,
            digits == 0 ==> one == 1,
            digits > 0 ==> one <= digits,
        decreases 2 * DOUBLE_FULL - digits,
    {
        digits = 2 * digits;
        one = 2 * one;
    }
    let near: u128 = nearest_even_of(digits, 1_000_000);
    proof {
        assert(100 * near / one as int <= 100 * near) by (nonlinear_arith)
            requires
                one >= 1,
                near >= 0,
        ;
    }
    nearest_even_of(100 * near, one) as u64
}

/// Only digits occur in decimal notation.
pub proof fn law_decimal_has_only_digits(n: nat, i: int)
    requires
        0 <= i < decimal(n).len(),
    ensures
        '0' <= decimal(n)[i] <= '9',
    decreases n,
{
    if n >= 10 && i < decimal(n).len() - 1 {
        law_decimal_has_only_digits(n / 10, i);
    }
}

proof fn lemma_decimal_is_not_empty(n: nat)
    ensures
        decimal(n).len() >= 1,
        n >= 10 ==> decimal(n).len() >= 2,
    decreases n,
{
    if n >= 10 {
        lemma_decimal_is_not_empty(n / 10);
    }
}

/// Different numbers have different decimal notations.
pub proof fn law_decimal_is_injective(m: nat, n: nat)
    requires
        decimal(m) == decimal(n),
    ensures
        m == n,
    decreases m,
{
    lemma_decimal_is_not_empty(m);
    lemma_decimal_is_not_empty(n);
    assert(decimal(m).last() == digit(m % 10));
    assert(decimal(n).last() == digit(n % 10));
    assert(m % 10 == n % 10);
    if m >= 10 {
        assert(n >= 10);
        assert(decimal(m).drop_last() =~= decimal(m / 10));
        assert(decimal(n).drop_last() =~= decimal(n / 10));
        law_decimal_is_injective(m / 10, n / 10);
    } else {
        assert(n < 10);
    }
}

/// The number that digits say.
pub open spec fn said(s: Seq<char>) -> int
    decreases s.len(),
{
    if s.len() == 0 {
        0
    } else {
        10 * said(s.drop_last()) + (s.last() as int - '0' as int)
    }
}

/// The digits of a number say the number, and the first of them is no zero, unless the
/// number is zero.
pub proof fn law_decimal_says_the_number(n: nat)
    ensures
        said(decimal(n)) == n,
        n > 0 ==> decimal(n)[0] != '0',
        n == 0 ==> decimal(n).len() == 1,
    decreases n,
{
    let s = decimal(n);
    if n < 10 {
        assert(s.drop_last() =~= Seq::empty());
        assert(said(s.drop_last()) == 0);
        assert(s.last() as int == 48 + n);
    } else {
        law_decimal_says_the_number(n / 10);
        assert(s.drop_last() =~= decimal(n / 10));
        assert(s.last() as int == 48 + n % 10);
    }
}

/// A quotient is rounded to the nearest integer, and to the even one of two that are as
/// near.
pub proof fn law_halves_round_to_even(n: nat, d: nat)
    requires
        d > 0,
    ensures
        -(d as int) <= 2 * (nearest_even(n, d) * d - n) <= d,
        (2 * (nearest_even(n, d) * d - n) == d || 2 * (nearest_even(n, d) * d - n) == -(d as int))
            ==> nearest_even(n, d) % 2 == 0,
{
    let q = n / d;
    let e = n % d;
    assert(n == q * d + e && 0 <= e < d) by (nonlinear_arith)
        requires
            d > 0,
            q == n / d,
            e == n % d,
    ;
    assert((q + 1) * d == q * d + d) by (nonlinear_arith);
}

proof fn lemma_filled(v: nat, one: nat) -> (f: nat)
    requires
        0 < v,
        v < 2 * DOUBLE_FULL,
    ensures
        f >= 1,
        filled(v, one).0 == v * f,
        filled(v, one).1 == one * f,
        v * f >= DOUBLE_FULL,
    decreases 2 * DOUBLE_FULL - v,
{
    if v >= DOUBLE_FULL {
        assert(v * 1 == v && one * 1 == one) by (nonlinear_arith);
        1
    } else {
        let f = lemma_filled(2 * v, 2 * one);
        assert((2 * v) * f == v * (2 * f) && (2 * one) * f == one * (2 * f)) by (nonlinear_arith);
        2 * f
    }
}

/// A number of millionths is printed to the nearest hundredth.
pub proof fn law_hundredths_are_the_nearest(v: nat)
    requires
        v <= 1_000_000_000_000_000,
    ensures
        -10_000 <= 2 * (hundredths(v) * 10_000 - v) <= 10_000,
{
    let (digits, one) = filled(v, 1);
    if v == 0 {
        assert(nearest_even(0, 1_000_000) == 0);
        assert(nearest_even(0, 1) == 0);
    } else {
        let f = lemma_filled(v, 1);
        assert(1 * f == f) by (nonlinear_arith);
        assert(f > 1_000_000) by (nonlinear_arith)
            requires
                v * f >= 4_503_599_627_370_496_000_000,
                0 < v <= 1_000_000_000_000_000,
        ;
        let r = nearest_even(digits, 1_000_000);
        let q = nearest_even(100 * r, one);
        law_halves_round_to_even(digits, 1_000_000);
        law_halves_round_to_even(100 * r, one);
        let gap = 2 * (q * 10_000 - v);
        let a = q * one;
        assert(gap * f == 20_000 * a - 2 * (v * f)) by (nonlinear_arith)
            requires
                gap == 2 * (q * 10_000 - v),
                a == q * one,
                one == f,
        ;
        assert(-10_000 <= gap <= 10_000) by (nonlinear_arith)
            requires
                -(10_000 * f + 1_000_000) <= gap * f <= 10_000 * f + 1_000_000,
                f > 1_000_000,
        ;
    }
}

} // verus!
