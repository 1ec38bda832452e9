//! Scalar primitives of the simulation's exact integer arithmetic:
//! division rounded toward zero, the floor of a square root, and clamping
//! into a symmetric interval.

use vstd::prelude::*;
use vstd::arithmetic::div_mod::{
    lemma_div_by_multiple, lemma_div_is_ordered, lemma_div_pos_is_pos,
};

verus! {

/// Quotient of `a` by positive `d`, rounded toward zero: the rounding that
/// every scalar division of the kernel uses, so that negating the dividend
/// negates the quotient exactly.
pub open spec fn div_toward_zero(a: int, d: int) -> int {
    if a >= 0 {
        a / d
    } else {
        -((-a) / d)
    }
}

/// Largest integer whose square does not exceed `x`.
pub open spec fn sqrt_floor(x: nat) -> nat
    decreases x,
{
    if x == 0 {
        0
    } else {
        let r = sqrt_floor((x - 1) as nat);
        if (r + 1) * (r + 1) <= x {
            r + 1
        } else {
            r
        }
    }
}

/// `x` confined to the interval `[-limit, limit]`.
pub open spec fn clamp(x: int, limit: int) -> int {
    if x > limit {
        limit
    } else if x < -limit {
        -limit
    } else {
        x
    }
}

/// `sqrt_floor(x)` is the floor of the square root of `x`.
pub proof fn lemma_sqrt_floor_bounds(x: nat)
    ensures
        sqrt_floor(x) * sqrt_floor(x) <= x,
        x < (sqrt_floor(x) + 1) * (sqrt_floor(x) + 1),
    decreases x,
{
    if x == 0 {
        assert(sqrt_floor(0) == 0);
        assert(0nat * 0nat == 0nat) by (nonlinear_arith);
        assert(1nat * 1nat == 1nat) by (nonlinear_arith);
    } else {
        lemma_sqrt_floor_bounds((x - 1) as nat);
        let r = sqrt_floor((x - 1) as nat);
        assert(r * r <= x - 1);
        assert(x - 1 < (r + 1) * (r + 1));
        if (r + 1) * (r + 1) <= x {
            assert(sqrt_floor(x) == r + 1);
            assert(x <= (r + 1) * (r + 1));
            assert(x == (r + 1) * (r + 1));
            assert((r + 1) * (r + 1) < (r + 2) * (r + 2)) by (nonlinear_arith)
                requires r >= 0;
            assert(x < (sqrt_floor(x) + 1) * (sqrt_floor(x) + 1));
        } else {
            assert(sqrt_floor(x) == r);
            assert(r * r <= x);
            assert(x < (r + 1) * (r + 1));
        }
    }
}

/// Any integer bracketed the way `sqrt_floor(x)` is bracketed is `sqrt_floor(x)`.
pub proof fn lemma_sqrt_floor_unique(x: nat, r: nat)
    requires
        r * r <= x,
        x < (r + 1) * (r + 1),
    ensures
        sqrt_floor(x) == r,
{
    lemma_sqrt_floor_bounds(x);
    let s = sqrt_floor(x);
    assert(s <= r) by (nonlinear_arith)
        requires s * s <= x, x < (r + 1) * (r + 1), s >= 0, r >= 0;
    assert(r <= s) by (nonlinear_arith)
        requires r * r <= x, x < (s + 1) * (s + 1), s >= 0, r >= 0;
}

/// A perfect square's root is recovered exactly.
pub proof fn lemma_sqrt_floor_of_square(n: nat)
    ensures
        sqrt_floor(n * n) == n,
{
    assert(n * n < (n + 1) * (n + 1)) by (nonlinear_arith)
        requires n >= 0;
    lemma_sqrt_floor_unique(n * n, n);
}

/// `sqrt_floor` dominates the root of any smaller square.
pub proof fn lemma_sqrt_floor_ge(a: nat, x: nat)
    requires
        a * a <= x,
    ensures
        sqrt_floor(x) >= a,
{
    lemma_sqrt_floor_bounds(x);
    let s = sqrt_floor(x);
    assert(a <= s) by (nonlinear_arith)
        requires a * a <= x, x < (s + 1) * (s + 1), a >= 0, s >= 0;
}

/// Negating the dividend negates the quotient.
pub proof fn lemma_div_toward_zero_neg(a: int, d: int)
    requires
        d > 0,
    ensures
        div_toward_zero(-a, d) == -div_toward_zero(a, d),
{
    if a == 0 {
        lemma_div_pos_is_pos(0, d);
        lemma_div_is_ordered(0, 0, d);
        assert(0int / d == 0) by {
            vstd::arithmetic::div_mod::lemma_div_of0(d);
        }
    }
}

/// A dividend of zero gives a quotient of zero.
pub proof fn lemma_div_toward_zero_of0(d: int)
    requires
        d > 0,
    ensures
        div_toward_zero(0, d) == 0,
{
    vstd::arithmetic::div_mod::lemma_div_of0(d);
}

/// A dividend within `m` multiples of the divisor gives a quotient within `m`.
pub proof fn lemma_div_toward_zero_bound(a: int, d: int, m: int)
    requires
        d > 0,
        m >= 0,
        -(m * d) <= a <= m * d,
    ensures
        -m <= div_toward_zero(a, d) <= m,
{
    if a >= 0 {
        lemma_div_pos_is_pos(a, d);
        lemma_div_is_ordered(a, m * d, d);
        lemma_div_by_multiple(m, d);
    } else {
        lemma_div_pos_is_pos(-a, d);
        lemma_div_is_ordered(-a, m * d, d);
        lemma_div_by_multiple(m, d);
    }
}

/// Clamping is odd: negating the input negates the output.
pub proof fn lemma_clamp_neg(x: int, limit: int)
    requires
        limit > 0,
    ensures
        clamp(-x, limit) == -clamp(x, limit),
{
}

/// An integer whose square is below `ns` lies within the floor root of `ns`.
pub proof fn lemma_abs_le_sqrt_floor(x: int, ns: int)
    requires
        x * x <= ns,
        ns >= 0,
    ensures
        -(sqrt_floor(ns as nat) as int) <= x <= sqrt_floor(ns as nat) as int,
{
    if x >= 0 {
        lemma_sqrt_floor_ge(x as nat, ns as nat);
    } else {
        assert((-x) * (-x) == x * x) by (nonlinear_arith);
        lemma_sqrt_floor_ge((-x) as nat, ns as nat);
    }
}

/// A product of bounded factors is bounded by the product of the bounds.
pub proof fn lemma_abs_mul_bound(a: int, b: int, aa: int, bb: int)
    requires
        -aa <= a <= aa,
        -bb <= b <= bb,
    ensures
        -(aa * bb) <= a * b <= aa * bb,
{
    assert(-(aa * bb) <= a * b <= aa * bb) by (nonlinear_arith)
        requires -aa <= a <= aa, -bb <= b <= bb;
}

/// Division rounded toward zero, on machine integers.
pub fn tdiv_i128(a: i128, d: i128) -> (q: i128)
    requires
        d > 0,
        a > i128::MIN,
    ensures
        q == div_toward_zero(a as int, d as int),
{
    if a >= 0 {
        a / d
    } else {
        -((-a) / d)
    }
}

/// Floor of the square root, on machine integers.
pub fn isqrt_u128(x: u128) -> (r: u128)
    ensures
        r == sqrt_floor(x as nat),
        r * r <= x < (r + 1) * (r + 1),
{
    let mut lo: u128 = 0;
    let mut hi: u128 = 0x1_0000_0000_0000_0000u128;
    assert(hi * hi > x) by (nonlinear_arith)
        requires
            hi == 0x1_0000_0000_0000_0000u128,
            x < 0x1_0000_0000_0000_0000_0000_0000_0000_0000int,
    ;
    while lo + 1 < hi
        invariant
            lo < hi <= 0x1_0000_0000_0000_0000u128,
            lo * lo <= x,
            hi * hi > x,
        decreases hi - lo,
    {
        let mid = lo + (hi - lo) / 2;
        assert(lo < mid < hi);
        assert(mid * mid <= u128::MAX) by (nonlinear_arith)
            requires mid < 0x1_0000_0000_0000_0000u128;
        if mid * mid <= x {
            lo = mid;
        } else {
            hi = mid;
        }
    }
    proof {
        lemma_sqrt_floor_unique(x as nat, lo as nat);
    }
    lo
}

/// Clamp into `[-limit, limit]`, on machine integers.
pub fn clamp_i128(x: i128, limit: i64) -> (r: i64)
    requires
        limit > 0,
    ensures
        r == clamp(x as int, limit as int),
{
    if x > limit as i128 {
        limit
    } else if x < -(limit as i128) {
        -limit
    } else {
        x as i64
    }
}

} // verus!
