//! Integer arithmetic primitives for the curve engine: division rounded
//! toward zero (as the hardware computes it for signed operands) and the
//! floor of a square root.

use vstd::arithmetic::div_mod::{
    lemma_div_is_ordered, lemma_div_multiples_vanish, lemma_fundamental_div_mod, lemma_mod_bound,
};
use vstd::prelude::*;

verus! {

/// Quotient of `a` by `d`, rounded toward zero.
pub open spec fn div_trunc(a: int, d: int) -> int {
    if a >= 0 {
        a / d
    } else {
        -((-a) / d)
    }
}

/// Largest `r` with `r * r <= n`.
pub open spec fn sqrt_floor(n: nat) -> nat
    decreases n,
{
    if n == 0 {
        0
    } else {
        let r: nat = sqrt_floor((n - 1) as nat);
        if (r + 1) * (r + 1) <= n {
            r + 1
        } else {
            r
        }
    }
}

pub proof fn lemma_sqrt_floor_bounds(n: nat)
    ensures
        sqrt_floor(n) * sqrt_floor(n) <= n,
        n < (sqrt_floor(n) as int + 1) * (sqrt_floor(n) as int + 1),
    decreases n,
{
    if n != 0 {
        lemma_sqrt_floor_bounds((n - 1) as nat);
        let r: nat = sqrt_floor((n - 1) as nat);
        if (r + 1) * (r + 1) <= n {
            assert(sqrt_floor(n) == r + 1);
            assert((r as int + 2) * (r as int + 2) > (r as int + 1) * (r as int + 1))
                by (nonlinear_arith)
                requires
                    r >= 0,
            ;
            assert(n < (r as int + 2) * (r as int + 2));
        } else {
            assert(sqrt_floor(n) == r);
        }
    } else {
        assert(sqrt_floor(n) == 0);
    }
}

pub proof fn lemma_sqrt_floor_unique(n: nat, r: nat)
    requires
        r * r <= n,
        n < (r as int + 1) * (r as int + 1),
    ensures
        r == sqrt_floor(n),
{
    lemma_sqrt_floor_bounds(n);
    let s: nat = sqrt_floor(n);
    assert(r == s) by (nonlinear_arith)
        requires
            r * r <= n,
            n < (r as int + 1) * (r as int + 1),
            s * s <= n,
            n < (s as int + 1) * (s as int + 1),
            r >= 0,
            s >= 0,
    ;
}

/// Dividing a non-negative number by a positive one can only shrink it.
pub proof fn lemma_div_le_self(x: int, d: int)
    requires
        x >= 0,
        d >= 1,
    ensures
        0 <= x / d <= x,
{
    lemma_fundamental_div_mod(x, d);
    lemma_mod_bound(x, d);
    let q: int = x / d;
    let m: int = x % d;
    assert(0 <= q <= x) by (nonlinear_arith)
        requires
            x >= 0,
            d >= 1,
            x == d * q + m,
            0 <= m < d,
    ;
}

/// A numerator no larger than `b * d` in magnitude divides down to at most `b`.
pub proof fn lemma_div_trunc_bound(a: int, d: int, b: int)
    requires
        d >= 1,
        b >= 0,
        -(b * d) <= a <= b * d,
    ensures
        -b <= div_trunc(a, d) <= b,
{
    if a >= 0 {
        lemma_div_le_self(a, d);
        lemma_div_is_ordered(a, b * d, d);
        assert(b * d == d * b) by (nonlinear_arith);
        lemma_div_multiples_vanish(b, d);
    } else {
        lemma_div_le_self(-a, d);
        lemma_div_is_ordered(-a, b * d, d);
        assert(b * d == d * b) by (nonlinear_arith);
        lemma_div_multiples_vanish(b, d);
    }
}

/// Dividing an exact multiple of `d` by `d` recovers the factor.
pub proof fn lemma_div_trunc_multiple(x: int, d: int)
    requires
        d >= 1,
    ensures
        div_trunc(d * x, d) == x,
{
    if x >= 0 {
        assert(d * x >= 0) by (nonlinear_arith)
            requires
                d >= 1,
                x >= 0,
        ;
        lemma_div_multiples_vanish(x, d);
    } else {
        assert(d * x < 0 && -(d * x) == d * (-x)) by (nonlinear_arith)
            requires
                d >= 1,
                x < 0,
        ;
        lemma_div_multiples_vanish(-x, d);
    }
}

/// Bound on a product of two non-negative factors.
pub proof fn lemma_mul_le(a: int, a_max: int, b: int, b_max: int)
    by (nonlinear_arith)
    requires
        0 <= a <= a_max,
        0 <= b <= b_max,
    ensures
        0 <= a * b <= a_max * b_max,
{
}

/// Bound on a product of a non-negative weight and a signed value.
pub proof fn lemma_mul_abs_le(w: int, w_max: int, p: int, p_max: int)
    by (nonlinear_arith)
    requires
        0 <= w <= w_max,
        -p_max <= p <= p_max,
        0 <= p_max,
    ensures
        -(w_max * p_max) <= w * p <= w_max * p_max,
{
}

/// Division of a signed numerator by a positive divisor, rounding toward zero
/// exactly as `div_trunc` describes.
pub fn div_trunc_i64(a: i64, d: i64) -> (r: i64)
    requires
        d >= 1,
        a > i64::MIN,
    ensures
        r == div_trunc(a as int, d as int),
{
    if a >= 0 {
        proof {
            lemma_div_le_self(a as int, d as int);
        }
        let q: u64 = (a as u64) / (d as u64);
        q as i64
    } else {
        let m: i64 = -a;
        proof {
            lemma_div_le_self(m as int, d as int);
        }
        let q: u64 = (m as u64) / (d as u64);
        -(q as i64)
    }
}

/// Floor of the square root, by bisection.
pub fn isqrt(n: u64) -> (r: u64)
    requires
        n < 0x4000_0000_0000_0000,
    ensures
        r * r <= n < (r + 1) * (r + 1),
        r == sqrt_floor(n as nat),
{
    let mut lo: u64 = 0;
    let mut hi: u64 = 0x8000_0000;
    while lo + 1 < hi
        invariant
            lo < hi <= 0x8000_0000,
            lo * lo <= n,
            n < hi * hi,
        decreases hi - lo,
    {
        let mid: u64 = lo + (hi - lo) / 2;
        proof {
            assert(mid * mid <= 0x4000_0000_0000_0000) by (nonlinear_arith)
                requires
                    mid <= 0x8000_0000,
            ;
        }
        if mid * mid <= n {
            lo = mid;
        } else {
            hi = mid;
        }
    }
    proof {
        lemma_sqrt_floor_unique(n as nat, lo as nat);
    }
    lo
}

} // verus!
