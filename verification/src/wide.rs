//! Products of two 128-bit numbers, in full.

use vstd::prelude::*;

verus! {

/// Two to the power 64.
pub const HALF: u128 = 0x1_0000_0000_0000_0000;

/// Two to the power 128.
pub open spec fn two_128() -> int {
    0x1_0000_0000_0000_0000_0000_0000_0000_0000int
}

/// Minus one, zero or one, as `x` is negative, zero or positive.
pub open spec fn sign(x: int) -> int {
    if x < 0 {
        -1
    } else if x == 0 {
        0
    } else {
        1
    }
}

/// The product of two numbers below two to the power 64 is below two to the
/// power 128.
proof fn lemma_half_product(a: int, b: int)
    requires
        0 <= a < HALF,
        0 <= b < HALF,
    ensures
        0 <= a * b <= (HALF - 1) * (HALF - 1),
        a * b < two_128(),
{
    assert(0 <= a * b <= (HALF - 1) * (HALF - 1)) by (nonlinear_arith)
        requires
            0 <= a <= HALF - 1,
            0 <= b <= HALF - 1,
    ;
}

/// The product `x * y` as `(high, low)`, with `x * y == high * 2^128 + low`.
pub fn wide_mul(x: u128, y: u128) -> (r: (u128, u128))
    ensures
        r.0 * two_128() + r.1 == x * y,
{
    let x1 = x / HALF;
    let x0 = x % HALF;
    let y1 = y / HALF;
    let y0 = y % HALF;
    proof {
        lemma_half_product(x0 as int, y0 as int);
        lemma_half_product(x0 as int, y1 as int);
        lemma_half_product(x1 as int, y0 as int);
        lemma_half_product(x1 as int, y1 as int);
    }
    let p00 = x0 * y0;
    let p01 = x0 * y1;
    let p10 = x1 * y0;
    let p11 = x1 * y1;
    let mid = p00 / HALF + p01 % HALF + p10 % HALF;
    let low = (mid % HALF) * HALF + p00 % HALF;
    proof {
        let b = HALF as int;
        let high = p11 + p01 / HALF + p10 / HALF + mid / HALF;
        assert(x * y == p11 * 0x1_0000_0000_0000_0000_0000_0000_0000_0000int + (p01 + p10)
            * 0x1_0000_0000_0000_0000int + p00) by (nonlinear_arith)
            requires
                x == x1 * 0x1_0000_0000_0000_0000int + x0,
                y == y1 * 0x1_0000_0000_0000_0000int + y0,
                p00 == x0 * y0,
                p01 == x0 * y1,
                p10 == x1 * y0,
                p11 == x1 * y1,
        ;
        assert(high * two_128() + low == x * y);
        assert(x * y <= (two_128() - 1) * (two_128() - 1)) by (nonlinear_arith)
            requires
                0 <= x <= two_128() - 1,
                0 <= y <= two_128() - 1,
        ;
        assert(high < two_128()) by (nonlinear_arith)
            requires
                high * two_128() + low <= (two_128() - 1) * (two_128() - 1),
                low >= 0,
                two_128() > 0,
        ;
    }
    let high = p11 + p01 / HALF + p10 / HALF + mid / HALF;
    (high, low)
}

/// Compares two products of unsigned numbers without overflow: the result is
/// minus one, zero or one as `x1 * y1` is below, equal to or above `x2 * y2`.
pub fn compare_products(x1: u128, y1: u128, x2: u128, y2: u128) -> (s: i8)
    ensures
        s == sign(x1 * y1 - x2 * y2),
{
    let p = wide_mul(x1, y1);
    let q = wide_mul(x2, y2);
    if p.0 < q.0 {
        -1
    } else if p.0 > q.0 {
        1
    } else if p.1 < q.1 {
        -1
    } else if p.1 > q.1 {
        1
    } else {
        0
    }
}

} // verus!
