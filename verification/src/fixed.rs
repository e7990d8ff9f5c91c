//! Fixed-point arithmetic helpers shared by the map, the ray caster and the
//! renderer. A coordinate or angle `c` stands for the real number `c / FP`.
use vstd::prelude::*;

verus! {

/// Fixed-point scale: this many units make one world unit (or one radian).
pub const FP: i64 = 1_000_000;

/// Remainder with the sign of the dividend, as the `%` operator of `i64`
/// computes it. This mirrors how a world coordinate is reduced to its
/// fractional part.
pub open spec fn trunc_rem(c: int, d: int) -> int
    recommends
        d > 0,
{
    if c >= 0 {
        c % d
    } else {
        -((-c) % d)
    }
}

/// Quotient rounded toward zero, as the `/` operator of `i64` computes it.
pub open spec fn trunc_div(a: int, d: int) -> int
    recommends
        d > 0,
{
    if a >= 0 {
        a / d
    } else {
        -((-a) / d)
    }
}

/// Executable truncating division by a positive divisor.
pub fn div_trunc(a: i64, d: i64) -> (q: i64)
    requires
        a > i64::MIN,
        d > 0,
    ensures
        q == trunc_div(a as int, d as int),
        a >= 0 ==> 0 <= q <= a,
        a < 0 ==> a <= q <= 0,
{
    if a >= 0 {
        proof {
            vstd::arithmetic::div_mod::lemma_div_nonincreasing(a as int, d as int);
            vstd::arithmetic::div_mod::lemma_div_pos_is_pos(a as int, d as int);
        }
        a / d
    } else {
        proof {
            vstd::arithmetic::div_mod::lemma_div_nonincreasing(-a as int, d as int);
            vstd::arithmetic::div_mod::lemma_div_pos_is_pos(-a as int, d as int);
        }
        -((-a) / d)
    }
}

/// Grid cell index of a fixed-point coordinate: the integer part, with every
/// negative coordinate resolving to cell 0 (a saturating conversion).
pub open spec fn spec_cell_index(c: int) -> int {
    if c < 0 {
        0
    } else {
        c / (FP as int)
    }
}

/// Executable form of [`spec_cell_index`], returning the cell index as `i64`.
pub fn cell_index(c: i64) -> (r: i64)
    ensures
        r == spec_cell_index(c as int),
        0 <= r,
{
    if c < 0 {
        0
    } else {
        c / FP
    }
}

/// Whether `r` is the integer square root of `n`.
pub open spec fn is_isqrt(n: int, r: int) -> bool {
    r >= 0 && r * r <= n && (r + 1) * (r + 1) > n
}

/// The integer square root of a non-negative number.
pub open spec fn spec_isqrt(n: int) -> int {
    choose|r: int| is_isqrt(n, r)
}

/// Any `r` with `r * r <= n < (r + 1) * (r + 1)` is the integer square root:
/// the root exists and no two distinct values satisfy the bracketing.
pub proof fn lemma_isqrt_unique(n: int, r: int)
    requires
        is_isqrt(n, r),
    ensures
        r == spec_isqrt(n),
{
    assert(exists|q: int| is_isqrt(n, q)) by {
        assert(is_isqrt(n, r));
    }
    let w = choose|q: int| is_isqrt(n, q);
    assert(r == w) by (nonlinear_arith)
        requires
            r >= 0,
            w >= 0,
            r * r <= n,
            w * w <= n,
            (r + 1) * (r + 1) > n,
            (w + 1) * (w + 1) > n,
    ;
}

/// Integer square root by bisection.
///
/// The search keeps `lo * lo <= n` and `hi * hi > n`; the upper start value
/// squares to just above `i64::MAX`, so every midpoint squares without
/// overflow.
pub fn isqrt(n: i64) -> (r: i64)
    requires
        n >= 0,
    ensures
        r >= 0,
        r * r <= n,
        (r + 1) * (r + 1) > n,
        r == spec_isqrt(n as int),
{
    let mut lo: i64 = 0;
    let mut hi: i64 = 3_037_000_500;
    assert(3_037_000_500int * 3_037_000_500int > i64::MAX as int) by (nonlinear_arith);
    while lo + 1 < hi
        invariant
            0 <= lo < hi <= 3_037_000_500,
            lo * lo <= n,
            hi * hi > n,
            n <= i64::MAX,
        decreases hi - lo,
    {
        let mid = lo + (hi - lo) / 2;
        assert(mid * mid <= 3_037_000_499int * 3_037_000_499int) by (nonlinear_arith)
            requires 0 <= mid <= 3_037_000_499i64;
        assert(3_037_000_499int * 3_037_000_499int < i64::MAX as int) by (nonlinear_arith);
        if mid * mid <= n {
            lo = mid;
        } else {
            hi = mid;
        }
    }
    proof {
        lemma_isqrt_unique(n as int, lo as int);
    }
    lo
}

} // verus!
