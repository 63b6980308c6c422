//! Integer arithmetic shared by the whole kernel.
//!
//! Every length, speed, mass and radius is a whole number of thousandths
//! (`SCALE` parts to one world unit). Division rounds toward zero, so that a
//! quantity and its negation always round to opposite results.

use vstd::prelude::*;
use vstd::arithmetic::div_mod::lemma_fundamental_div_mod;
use vstd::arithmetic::div_mod::lemma_fundamental_div_mod_converse;
use vstd::arithmetic::div_mod::lemma_div_pos_is_pos;
use vstd::arithmetic::div_mod::lemma_mod_bound;

verus! {

/// Parts of one world unit.
pub const SCALE: i64 = 1_000;

/// No root handed out by `isqrt` reaches this bound, which is two to the 64th.
pub const ROOT_BOUND: i128 = 0x1_0000_0000_0000_0000;

/// Division that rounds toward zero, for a positive divisor.
pub open spec fn trunc_div(a: int, b: int) -> int {
    if a >= 0 {
        a / b
    } else {
        -((-a) / b)
    }
}

/// The absolute value of an integer.
pub open spec fn magnitude(a: int) -> int {
    if a >= 0 {
        a
    } else {
        -a
    }
}

/// `r` is the largest whole number whose square does not exceed `n`.
pub open spec fn is_floor_sqrt(n: int, r: int) -> bool {
    0 <= r && r * r <= n && n < (r + 1) * (r + 1)
}

/// The square root of `n`, rounded down.
pub open spec fn floor_sqrt(n: int) -> int {
    choose|r: int| is_floor_sqrt(n, r)
}

/// The square root of `n`, rounded up.
pub open spec fn ceil_sqrt(n: int) -> int {
    let r = floor_sqrt(n);
    if r * r == n {
        r
    } else {
        r + 1
    }
}

/// Rounding toward zero commutes with negation.
pub proof fn lemma_trunc_div_odd(a: int, b: int)
    requires
        b > 0,
    ensures
        trunc_div(-a, b) == -trunc_div(a, b),
{
    if a == 0 {
        assert(0int / b == 0) by {
            lemma_fundamental_div_mod_converse(0, b, 0, 0);
        }
    }
}

/// A quotient rounded toward zero is no further from zero than the exact one.
pub proof fn lemma_trunc_div_bound(a: int, b: int)
    requires
        b > 0,
    ensures
        magnitude(trunc_div(a, b)) == magnitude(a) / b,
        magnitude(trunc_div(a, b)) * b <= magnitude(a),
        magnitude(a) < (magnitude(trunc_div(a, b)) + 1) * b,
        a >= 0 ==> trunc_div(a, b) >= 0,
        a <= 0 ==> trunc_div(a, b) <= 0,
{
    let m = magnitude(a);
    lemma_div_pos_is_pos(m, b);
    lemma_fundamental_div_mod(m, b);
    lemma_mod_bound(m, b);
    let q = m / b;
    assert(b * q == q * b) by (nonlinear_arith);
    assert((q + 1) * b == q * b + b) by (nonlinear_arith);
    if a == 0 {
        assert(0int / b == 0) by {
            lemma_fundamental_div_mod_converse(0, b, 0, 0);
        }
    }
}

/// A whole multiple divides back exactly.
pub proof fn lemma_trunc_div_exact(q: int, b: int)
    requires
        b > 0,
    ensures
        trunc_div(q * b, b) == q,
{
    if q >= 0 {
        assert(q * b >= 0) by (nonlinear_arith)
            requires
                q >= 0,
                b > 0,
        ;
        lemma_fundamental_div_mod_converse(q * b, b, q, 0);
    } else {
        assert(q * b < 0) by (nonlinear_arith)
            requires
                q < 0,
                b > 0,
        ;
        assert(-(q * b) == (-q) * b) by (nonlinear_arith);
        lemma_fundamental_div_mod_converse((-q) * b, b, -q, 0);
    }
}

/// Squaring keeps the order of whole numbers that are not negative.
pub proof fn lemma_square_order(a: int, b: int)
    requires
        0 <= a,
        0 <= b,
    ensures
        a <= b <==> a * a <= b * b,
        a < b <==> a * a < b * b,
{
    if a <= b {
        assert(a * a <= b * b) by (nonlinear_arith)
            requires
                0 <= a <= b,
        ;
    }
    if a < b {
        assert(a * a < b * b) by (nonlinear_arith)
            requires
                0 <= a < b,
        ;
    }
    if b < a {
        assert(b * b < a * a) by (nonlinear_arith)
            requires
                0 <= b < a,
        ;
    }
}

/// Only one whole number is the rounded-down root of `n`.
pub proof fn lemma_floor_sqrt_unique(n: int, r: int)
    requires
        is_floor_sqrt(n, r),
    ensures
        floor_sqrt(n) == r,
{
    let s = floor_sqrt(n);
    assert(is_floor_sqrt(n, s));
    lemma_square_order(r + 1, s);
    lemma_square_order(s + 1, r);
}

/// Every whole number that is not negative has a rounded-down root.
pub proof fn lemma_floor_sqrt_exists(n: int)
    requires
        n >= 0,
    ensures
        is_floor_sqrt(n, floor_sqrt(n)),
    decreases n,
{
    if n == 0 {
        assert(is_floor_sqrt(0, 0));
    } else {
        lemma_floor_sqrt_exists(n - 1);
        let r = floor_sqrt(n - 1);
        if (r + 1) * (r + 1) <= n {
            assert((r + 2) * (r + 2) > (r + 1) * (r + 1)) by (nonlinear_arith)
                requires
                    r >= 0,
            ;
            assert((r + 1) * (r + 1) == n);
            assert(is_floor_sqrt(n, r + 1));
        } else {
            assert(is_floor_sqrt(n, r));
        }
    }
}

/// The rounded-up root is the least whole number whose square reaches `n`.
pub proof fn lemma_ceil_sqrt(n: int)
    requires
        n >= 0,
    ensures
        ceil_sqrt(n) >= 0,
        ceil_sqrt(n) * ceil_sqrt(n) >= n,
        n > 0 ==> ceil_sqrt(n) > 0,
        n > 0 ==> (ceil_sqrt(n) - 1) * (ceil_sqrt(n) - 1) < n,
{
    lemma_floor_sqrt_exists(n);
    let r = floor_sqrt(n);
    if r * r != n {
        assert((r + 1 - 1) * (r + 1 - 1) == r * r);
    } else if n > 0 {
        assert(r > 0) by (nonlinear_arith)
            requires
                r >= 0,
                r * r > 0,
        ;
        lemma_square_order(r - 1, r);
    }
}

/// The rounded-down root of a number that is not negative.
pub fn isqrt(n: i128) -> (r: i128)
    requires
        n >= 0,
    ensures
        r == floor_sqrt(n as int),
        is_floor_sqrt(n as int, r as int),
        r < ROOT_BOUND,
{
    let mut lo: i128 = 0;
    let mut hi: i128 = ROOT_BOUND;
    assert(ROOT_BOUND * ROOT_BOUND > i128::MAX);
    while hi - lo > 1
        invariant
            0 <= lo < hi <= ROOT_BOUND,
            lo * lo <= n,
            n < hi * hi,
        decreases hi - lo,
    {
        let mid: i128 = lo + (hi - lo) / 2;
        let q: i128 = n / mid;
        proof {
            let m = mid as int;
            lemma_fundamental_div_mod(n as int, m);
            lemma_mod_bound(n as int, m);
            lemma_div_pos_is_pos(n as int, m);
            assert(q == (n as int) / m);
            if m <= q {
                assert(m * m <= m * (q as int)) by (nonlinear_arith)
                    requires
                        0 < m <= q,
                ;
            } else {
                assert(m * m >= m * (q as int) + m) by (nonlinear_arith)
                    requires
                        m >= q + 1,
                        m > 0,
                ;
            }
        }
        if mid <= q {
            lo = mid;
        } else {
            hi = mid;
        }
    }
    proof {
        assert(hi == lo + 1);
        assert(is_floor_sqrt(n as int, lo as int));
        lemma_floor_sqrt_unique(n as int, lo as int);
    }
    lo
}

/// The rounded-up root of a number that is not negative.
pub fn isqrt_ceil(n: i128) -> (r: i128)
    requires
        n >= 0,
    ensures
        r == ceil_sqrt(n as int),
        0 <= r <= ROOT_BOUND,
{
    let root: i128 = isqrt(n);
    proof {
        assert(root * root <= n);
    }
    if root * root == n {
        root
    } else {
        root + 1
    }
}

/// Divides by a positive number, rounding toward zero.
pub fn div_toward_zero(a: i128, b: i128) -> (q: i128)
    requires
        b > 0,
    ensures
        q == trunc_div(a as int, b as int),
{
    a / b
}

} // verus!
