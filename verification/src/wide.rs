//! Comparison of products that need more than 128 bits.

use vstd::prelude::*;

verus! {

/// `2^64`.
const LIMB: u128 = 0x1_0000_0000_0000_0000;

/// A 256 bit number: `high * 2^128 + low`.
struct Wide {
    high: u128,
    low: u128,
}

impl Wide {
    spec fn value(self) -> int {
        self.high * 0x1_0000_0000_0000_0000_0000_0000_0000_0000int + self.low
    }
}

proof fn lemma_limb_product(a: int, b: int)
    by (nonlinear_arith)
    requires
        0 <= a < 0x1_0000_0000_0000_0000,
        0 <= b < 0x1_0000_0000_0000_0000,
    ensures
        0 <= a * b <= 0xffff_ffff_ffff_ffff * 0xffff_ffff_ffff_ffff,
{
}

proof fn lemma_expand(a1: int, a0: int, b1: int, b0: int)
    by (nonlinear_arith)
    ensures
        (a1 * 0x1_0000_0000_0000_0000 + a0) * (b1 * 0x1_0000_0000_0000_0000 + b0) == (a1 * b1)
            * 0x1_0000_0000_0000_0000_0000_0000_0000_0000 + (a1 * b0 + a0 * b1)
            * 0x1_0000_0000_0000_0000 + a0 * b0,
{
}

/// The exact product of two 128 bit numbers.
fn long_product(a: u128, b: u128) -> (r: Wide)
    ensures
        r.value() == a * b,
{
    let a1: u128 = a / LIMB;
    let a0: u128 = a % LIMB;
    let b1: u128 = b / LIMB;
    let b0: u128 = b % LIMB;
    proof {
        lemma_limb_product(a1 as int, b1 as int);
        lemma_limb_product(a1 as int, b0 as int);
        lemma_limb_product(a0 as int, b1 as int);
        lemma_limb_product(a0 as int, b0 as int);
        lemma_expand(a1 as int, a0 as int, b1 as int, b0 as int);
    }
    let p: u128 = a0 * b0;
    let m: u128 = a1 * b0 + p / LIMB;
    let k: u128 = a0 * b1 + m % LIMB;
    let high: u128 = a1 * b1 + m / LIMB + k / LIMB;
    let low: u128 = (k % LIMB) * LIMB + p % LIMB;
    Wide { high, low }
}

/// Whether `a * b <= c * d`.
pub fn product_at_most(a: u128, b: u128, c: u128, d: u128) -> (r: bool)
    ensures
        r == (a * b <= c * d),
{
    let x: Wide = long_product(a, b);
    let y: Wide = long_product(c, d);
    x.high < y.high || (x.high == y.high && x.low <= y.low)
}

/// Whether `a * b + e <= c * d`.
pub fn sum_at_most(a: u128, b: u128, e: u128, c: u128, d: u128) -> (r: bool)
    ensures
        r == (a * b + e <= c * d),
{
    let x: Wide = long_product(a, b);
    let y: Wide = long_product(c, d);
    proof {
        assert(a * b <= u128::MAX * u128::MAX) by (nonlinear_arith)
            requires
                0 <= a <= u128::MAX,
                0 <= b <= u128::MAX,
        ;
    }
    let room: u128 = u128::MAX - x.low;
    let (high, low): (u128, u128) = if e > room {
        (x.high + 1, e - room - 1)
    } else {
        (x.high, x.low + e)
    };
    high < y.high || (high == y.high && low <= y.low)
}

} // verus!
