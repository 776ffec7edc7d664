//! Exact integer helpers the geometry is defined with: truncating division
//! (the rounding mode of Rust's `/` on machine integers) and the floor square
//! root, together with the lemmas the force computations need about them.

use vstd::prelude::*;

verus! {

use vstd::arithmetic::div_mod::{
    lemma_div_is_ordered, lemma_div_multiples_vanish, lemma_div_nonincreasing,
    lemma_div_pos_is_pos,
};
use vstd::math::abs;

/// Truncating (round-toward-zero) quotient of `a` and `b`, the value Rust's
/// `/` computes on machine integers; unspecified for `b == 0`.
pub open spec fn div_t(a: int, b: int) -> int {
    let q = (abs(a) / abs(b)) as int;
    if (a < 0) != (b < 0) {
        -q
    } else {
        q
    }
}

/// Dividing a value of magnitude at most `c * b` by `b > 0` gives a value of
/// magnitude at most `c`.
pub proof fn lemma_div_t_bound(a: int, b: int, c: int)
    requires
        b > 0,
        c >= 0,
        abs(a) <= c * b,
    ensures
        abs(div_t(a, b)) <= c,
{
    lemma_div_is_ordered(abs(a) as int, c * b, b);
    lemma_div_multiples_vanish(c, b);
    lemma_div_pos_is_pos(abs(a) as int, b);
    assert(c * b == b * c) by (nonlinear_arith);
}

/// Truncating division, as `/` behaves on Rust's signed integers.
pub fn div_trunc(a: i64, b: i64) -> (q: i64)
    requires
        b != 0,
        a != i64::MIN,
        b != i64::MIN,
    ensures
        q == div_t(a as int, b as int),
{
    let na: u64 = if a >= 0 {
        a as u64
    } else {
        (-a) as u64
    };
    let nb: u64 = if b >= 0 {
        b as u64
    } else {
        (-b) as u64
    };
    proof {
        lemma_div_nonincreasing(na as int, nb as int);
        lemma_div_pos_is_pos(na as int, nb as int);
    }
    let q: u64 = na / nb;
    if (a < 0) != (b < 0) {
        -(q as i64)
    } else {
        q as i64
    }
}

/// `r` is the floor of the square root of `n`.
pub open spec fn is_sqrt_floor(r: int, n: int) -> bool {
    &&& 0 <= r
    &&& r * r <= n
    &&& n < (r + 1) * (r + 1)
}

/// The floor of the square root of `n`, for `n >= 0`; pinned down by
/// [`lemma_sqrt_floor_exists`] and [`lemma_sqrt_floor_unique`].
pub open spec fn sqrt_floor(n: int) -> int {
    choose|r: int| is_sqrt_floor(r, n)
}

pub proof fn lemma_sqrt_floor_exists(n: int)
    requires
        n >= 0,
    ensures
        is_sqrt_floor(sqrt_floor(n), n),
    decreases n,
{
    if n == 0 {
        assert(is_sqrt_floor(0, 0));
    } else {
        lemma_sqrt_floor_exists(n - 1);
        let r = sqrt_floor(n - 1);
        if (r + 1) * (r + 1) <= n {
            assert(n - 1 < (r + 1) * (r + 1));
            assert(is_sqrt_floor(r + 1, n)) by (nonlinear_arith)
                requires
                    0 <= r,
                    (r + 1) * (r + 1) == n,
            ;
        } else {
            assert(is_sqrt_floor(r, n));
        }
    }
}

pub proof fn lemma_sqrt_floor_unique(r1: int, r2: int, n: int)
    requires
        is_sqrt_floor(r1, n),
        is_sqrt_floor(r2, n),
    ensures
        r1 == r2,
{
    assert(r1 == r2) by (nonlinear_arith)
        requires
            0 <= r1,
            0 <= r2,
            r1 * r1 <= n,
            n < (r1 + 1) * (r1 + 1),
            r2 * r2 <= n,
            n < (r2 + 1) * (r2 + 1),
    ;
}

/// Any value whose square is at most `n` is at most the floor square root of
/// `n`; in particular a coordinate never exceeds the distance it contributes
/// to.
pub proof fn lemma_sqrt_floor_dominates(c: int, n: int)
    requires
        n >= 0,
        c * c <= n,
        0 <= c,
    ensures
        c <= sqrt_floor(n),
{
    lemma_sqrt_floor_exists(n);
    let r = sqrt_floor(n);
    if c > r {
        assert(false) by (nonlinear_arith)
            requires
                0 <= r,
                c > r,
                c * c <= n,
                n < (r + 1) * (r + 1),
        ;
    }
}

/// Floor square root, by bisection on the answer.
pub fn isqrt(n: u64) -> (r: u64)
    ensures
        r == sqrt_floor(n as int),
        is_sqrt_floor(r as int, n as int),
        r < 0x1_0000_0000,
{
    let mut lo: u64 = 0;
    let mut hi: u64 = 0x1_0000_0000;
    if n < hi {
        hi = n + 1;
    }
    proof {
        assert((hi as int) * (hi as int) > n as int) by (nonlinear_arith)
            requires
                hi == 0x1_0000_0000 && n < 0x1_0000_0000_0000_0000 || hi == n + 1 && n
                    < 0x1_0000_0000,
        ;
    }
    while lo + 1 < hi
        invariant
            0 <= lo < hi <= 0x1_0000_0000,
            (lo as int) * (lo as int) <= n as int,
            (hi as int) * (hi as int) > n as int,
        decreases hi - lo,
    {
        let mid: u64 = lo + (hi - lo) / 2;
        proof {
            assert((mid as int) * (mid as int) <= 0xFFFF_FFFE_0000_0001) by (nonlinear_arith)
                requires
                    0 <= mid <= 0xFFFF_FFFF,
            ;
        }
        if mid * mid <= n {
            lo = mid;
        } else {
            hi = mid;
        }
    }
    proof {
        lemma_sqrt_floor_exists(n as int);
        lemma_sqrt_floor_unique(lo as int, sqrt_floor(n as int), n as int);
    }
    lo
}

} // verus!
