//! Integer square roots.

use vstd::prelude::*;

verus! {

/// `r` is the square root of `n`, rounded down.
pub open spec fn is_floor_sqrt(n: int, r: int) -> bool {
    0 <= r && r * r <= n < (r + 1) * (r + 1)
}

/// The square root of a non-negative `n`, rounded down.
pub open spec fn isqrt(n: int) -> int {
    choose|r: int| is_floor_sqrt(n, r)
}

/// Squaring is monotonic on the non-negative integers.
pub proof fn lemma_square_monotonic(a: int, b: int)
    requires
        0 <= a <= b,
    ensures
        a * a <= b * b,
{
    assert(a * a <= b * b) by (nonlinear_arith)
        requires
            0 <= a <= b,
    ;
}

/// At most one number is the rounded-down root of `n`.
pub proof fn lemma_floor_sqrt_unique(n: int, r1: int, r2: int)
    requires
        is_floor_sqrt(n, r1),
        is_floor_sqrt(n, r2),
    ensures
        r1 == r2,
{
    if r1 < r2 {
        lemma_square_monotonic(r1 + 1, r2);
    } else if r2 < r1 {
        lemma_square_monotonic(r2 + 1, r1);
    }
}

/// Every non-negative number has a rounded-down root.
pub proof fn lemma_floor_sqrt_exists(n: int)
    requires
        0 <= n,
    ensures
        exists|r: int| is_floor_sqrt(n, r),
    decreases n,
{
    if n == 0 {
        assert(is_floor_sqrt(0, 0));
    } else {
        let m = n - 1;
        lemma_floor_sqrt_exists(m);
        let r = choose|r: int| is_floor_sqrt(m, r);
        if n < (r + 1) * (r + 1) {
            assert(is_floor_sqrt(n, r));
        } else {
            assert((r + 2) * (r + 2) > (r + 1) * (r + 1)) by (nonlinear_arith)
                requires
                    0 <= r,
            ;
            assert(is_floor_sqrt(n, r + 1));
        }
    }
}

/// `isqrt(n)` is the rounded-down root of `n`.
pub proof fn lemma_isqrt(n: int)
    requires
        0 <= n,
    ensures
        is_floor_sqrt(n, isqrt(n)),
{
    lemma_floor_sqrt_exists(n);
}

/// A number that squares to at most `n`, while its successor squares to more,
/// is `isqrt(n)`.
pub proof fn lemma_isqrt_is(n: int, r: int)
    requires
        is_floor_sqrt(n, r),
    ensures
        isqrt(n) == r,
{
    lemma_square_monotonic(0, r);
    lemma_isqrt(n);
    lemma_floor_sqrt_unique(n, r, isqrt(n));
}

/// A number whose square does not exceed `n` does not exceed `isqrt(n)`.
pub proof fn lemma_isqrt_lower(n: int, r: int)
    requires
        0 <= r,
        r * r <= n,
    ensures
        r <= isqrt(n),
{
    lemma_isqrt(n);
    if isqrt(n) < r {
        lemma_square_monotonic(isqrt(n) + 1, r);
    }
}

/// A number whose square exceeds `n` exceeds `isqrt(n)`.
pub proof fn lemma_isqrt_upper(n: int, r: int)
    requires
        0 <= n,
        0 <= r,
        n < r * r,
    ensures
        isqrt(n) < r,
{
    lemma_isqrt(n);
    if r <= isqrt(n) {
        lemma_square_monotonic(r, isqrt(n));
    }
}

/// The square root grows with its argument.
pub proof fn lemma_isqrt_monotonic(a: int, b: int)
    requires
        0 <= a <= b,
    ensures
        isqrt(a) <= isqrt(b),
{
    lemma_isqrt(a);
    lemma_isqrt_lower(b, isqrt(a));
}

/// The rounded-down root of `n`, held to at most `cap`.
pub fn capped_isqrt(n: u64, cap: u32) -> (r: u32)
    ensures
        r == vstd::math::min(isqrt(n as int), cap as int),
{
    let mut lo: u64 = 0;
    let mut hi: u64 = cap as u64 + 1;
    while hi - lo > 1
        invariant
            lo < hi <= cap + 1,
            lo * lo <= n,
            hi <= cap ==> n < hi * hi,
        decreases hi - lo,
    {
        let mid: u64 = lo + (hi - lo) / 2;
        assert(mid * mid <= 0xffff_ffff * 0xffff_ffff) by (nonlinear_arith)
            requires
                0 <= mid <= 0xffff_ffff,
        ;
        if mid * mid <= n {
            lo = mid;
        } else {
            hi = mid;
        }
    }
    proof {
        if lo == cap {
            lemma_isqrt_lower(n as int, lo as int);
        } else {
            lemma_isqrt_is(n as int, lo as int);
        }
    }
    lo as u32
}

} // verus!
