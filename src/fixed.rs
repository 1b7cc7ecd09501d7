//! Fixed-point arithmetic: saturating, rounding toward zero, integer square root.
use vstd::prelude::*;

verus! {

/// Steps per unit: a length, a time in seconds, or a factor is stored in thousandths.
pub const SCALE: i64 = 1000;

/// Largest magnitude of a stored coordinate or velocity component; arithmetic saturates there.
pub const LIMIT: i64 = 1_000_000_000;

pub open spec fn clamp(x: int, lo: int, hi: int) -> int {
    if x < lo {
        lo
    } else if x > hi {
        hi
    } else {
        x
    }
}

/// `x` saturated into `[-LIMIT, LIMIT]`.
pub open spec fn sat(x: int) -> int {
    clamp(x, -LIMIT as int, LIMIT as int)
}

pub open spec fn in_range(x: int) -> bool {
    -LIMIT <= x <= LIMIT
}

/// Division that rounds toward zero, as machine division does.
pub open spec fn div_trunc(x: int, d: int) -> int {
    if x >= 0 {
        x / d
    } else {
        -((-x) / d)
    }
}

/// `floor(sqrt(n))`.
pub open spec fn is_isqrt(n: int, r: int) -> bool {
    0 <= r && r * r <= n < (r + 1) * (r + 1)
}

/// The integer square root of `n`, rounded down.
pub open spec fn root(n: int) -> int {
    choose|r: int| is_isqrt(n, r)
}

/// The rounded-down square root is unique.
pub proof fn lemma_root(n: int, r: int)
    requires
        is_isqrt(n, r),
    ensures
        root(n) == r,
{
    let c = root(n);
    assert(is_isqrt(n, c));
    if c < r {
        assert((c + 1) * (c + 1) <= r * r) by (nonlinear_arith)
            requires
                0 <= c < r,
        ;
    } else if c > r {
        assert((r + 1) * (r + 1) <= c * c) by (nonlinear_arith)
            requires
                0 <= r < c,
        ;
    }
}

/// Every non-negative integer has a rounded-down square root.
pub proof fn lemma_root_exists(n: int)
    requires
        n >= 0,
    ensures
        is_isqrt(n, root(n)),
    decreases n,
{
    if n == 0 {
        assert(is_isqrt(0, 0));
    } else {
        lemma_root_exists(n - 1);
        let r = root(n - 1);
        if (r + 1) * (r + 1) <= n {
            assert((r + 2) * (r + 2) > n) by (nonlinear_arith)
                requires
                    (r + 1) * (r + 1) == n,
                    r >= 0,
            ;
            assert(is_isqrt(n, r + 1));
        } else {
            assert(is_isqrt(n, r));
        }
    }
}

/// The rounded-down square root reaches `k` exactly when `n` reaches `k * k`.
pub proof fn lemma_root_vs_square(n: int, k: int)
    requires
        n >= 0,
        k >= 0,
    ensures
        root(n) >= k <==> n >= k * k,
{
    lemma_root_exists(n);
    let d = root(n);
    if d >= k {
        assert(k * k <= d * d) by (nonlinear_arith)
            requires
                0 <= k <= d,
        ;
    } else {
        assert((d + 1) * (d + 1) <= k * k) by (nonlinear_arith)
            requires
                0 <= d < k,
        ;
    }
}

/// Divides `x` by a positive `d`, rounding toward zero.
pub fn div_toward_zero(x: i128, d: i128) -> (r: i128)
    requires
        d > 0,
        x > i128::MIN,
    ensures
        r == div_trunc(x as int, d as int),
{
    if x >= 0 {
        ((x as u128) / (d as u128)) as i128
    } else {
        let q: u128 = ((-x) as u128) / (d as u128);
        -(q as i128)
    }
}

/// Saturates a wide value into `[-LIMIT, LIMIT]`.
pub fn saturate(x: i128) -> (r: i64)
    ensures
        r == sat(x as int),
{
    if x < -(LIMIT as i128) {
        -LIMIT
    } else if x > LIMIT as i128 {
        LIMIT
    } else {
        x as i64
    }
}

/// `a * b / d`, rounded toward zero and saturated.
pub fn mul_div(a: i64, b: i64, d: i64) -> (r: i64)
    requires
        d > 0,
    ensures
        r == sat(div_trunc(a * b, d as int)),
{
    proof {
        let ai = a as int;
        let bi = b as int;
        assert(-0x4000_0000_0000_0000_0000_0000_0000_0000 <= ai * bi <= 0x4000_0000_0000_0000_0000_0000_0000_0000)
            by (nonlinear_arith)
            requires
                -0x8000_0000_0000_0000 <= ai <= 0x8000_0000_0000_0000,
                -0x8000_0000_0000_0000 <= bi <= 0x8000_0000_0000_0000,
        ;
    }
    let p: i128 = (a as i128) * (b as i128);
    saturate(div_toward_zero(p, d as i128))
}

/// Largest `r` with `r * r <= n`.
pub fn isqrt(n: u128) -> (r: u64)
    requires
        n < 0x1000_0000_0000_0000_0000_0000_0000_0000,
    ensures
        is_isqrt(n as int, r as int),
        r == root(n as int),
{
    let mut lo: u64 = 0;
    let mut hi: u64 = 0x4000_0000_0000_0000;
    assert((hi as int) * (hi as int) == 0x1000_0000_0000_0000_0000_0000_0000_0000) by (nonlinear_arith)
        requires
            hi == 0x4000_0000_0000_0000,
    ;
    while hi - lo > 1
        invariant
            lo < hi <= 0x4000_0000_0000_0000,
            (lo as int) * (lo as int) <= n,
            n < (hi as int) * (hi as int),
        decreases hi - lo,
    {
        let mid: u64 = lo + (hi - lo) / 2;
        assert((mid as int) * (mid as int) <= 0x1000_0000_0000_0000_0000_0000_0000_0000) by (nonlinear_arith)
            requires
                0 <= mid <= 0x4000_0000_0000_0000,
        ;
        if (mid as u128) * (mid as u128) <= n {
            lo = mid;
        } else {
            hi = mid;
        }
    }
    proof { lemma_root(n as int, lo as int); }
    lo
}

} // verus!
