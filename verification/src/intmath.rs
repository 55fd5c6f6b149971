//! Integer helpers the kinematic model is built from: truncating division,
//! clamping, and an exact integer square root.

use vstd::prelude::*;

verus! {

/// Division truncating toward zero (the behaviour of `/` on hardware
/// integers), defined for a positive divisor.
pub open spec fn div_trunc(a: int, b: int) -> int {
    if a >= 0 {
        a / b
    } else {
        -((-a) / b)
    }
}

/// Absolute value.
pub open spec fn abs_i(v: int) -> int {
    if v >= 0 {
        v
    } else {
        -v
    }
}

/// `v` clamped into `[lo, hi]`.
pub open spec fn clamp_spec(v: int, lo: int, hi: int) -> int {
    if v < lo {
        lo
    } else if v > hi {
        hi
    } else {
        v
    }
}

/// Executable truncating division for a positive divisor.
pub fn div_trunc_i64(a: i64, b: i64) -> (r: i64)
    requires
        b > 0,
        a > i64::MIN,
    ensures
        r == div_trunc(a as int, b as int),
{
    if a >= 0 {
        ((a as u64) / (b as u64)) as i64
    } else {
        let m = ((-a) as u64) / (b as u64);
        -(m as i64)
    }
}

/// Executable clamp.
pub fn clamp_i64(v: i64, lo: i64, hi: i64) -> (r: i64)
    requires
        lo <= hi,
    ensures
        r == clamp_spec(v as int, lo as int, hi as int),
{
    if v < lo {
        lo
    } else if v > hi {
        hi
    } else {
        v
    }
}

/// Floor of the square root of a nonnegative integer.
pub open spec fn sqrt_floor(n: int) -> int {
    choose|r: int| 0 <= r && #[trigger] (r * r) <= n && n < (r + 1) * (r + 1)
}

/// The bracketing property pins the floor square root down.
pub proof fn lemma_sqrt_floor(n: int, r: int)
    requires
        0 <= r,
        r * r <= n,
        n < (r + 1) * (r + 1),
    ensures
        sqrt_floor(n) == r,
{
    assert(exists|q: int| 0 <= q && #[trigger] (q * q) <= n && n < (q + 1) * (q + 1));
    let c = sqrt_floor(n);
    assert(c == r) by (nonlinear_arith)
        requires
            0 <= c,
            c * c <= n,
            n < (c + 1) * (c + 1),
            0 <= r,
            r * r <= n,
            n < (r + 1) * (r + 1),
    {}
}

/// The floor square root of a perfect square is exact.
pub proof fn lemma_sqrt_of_square(d: int)
    requires
        0 <= d,
    ensures
        sqrt_floor(d * d) == d,
{
    assert(d * d < (d + 1) * (d + 1)) by (nonlinear_arith)
        requires
            0 <= d,
    {}
    lemma_sqrt_floor(d * d, d);
}

/// The degenerate case: the floor square root of zero.
pub proof fn lemma_sqrt_floor_zero()
    ensures
        sqrt_floor(0) == 0,
{
    assert(0 * 0 <= 0 && 0 < (0 + 1) * (0 + 1)) by (nonlinear_arith) {}
    lemma_sqrt_floor(0, 0);
}

/// Truncating division undoes an exact multiple.
pub proof fn lemma_div_trunc_exact(k: int, b: int)
    requires
        b > 0,
    ensures
        div_trunc(k * b, b) == k,
{
    if k >= 0 {
        assert((k * b) / b == k) by (nonlinear_arith)
            requires
                b > 0,
                k >= 0,
        {}
    } else {
        assert(-(k * b) == (-k) * b) by (nonlinear_arith) {}
        assert(((-k) * b) / b == -k) by (nonlinear_arith)
            requires
                b > 0,
                -k >= 0,
        {}
    }
}

/// A quotient stays within any bound the dividend respects `b`-fold.
pub proof fn lemma_div_trunc_le(a: int, b: int, c: int)
    requires
        b > 0,
        0 <= c,
        -c * b <= a <= c * b,
    ensures
        -c <= div_trunc(a, b) <= c,
{
    if a >= 0 {
        assert(0 <= a / b <= c) by (nonlinear_arith)
            requires
                b > 0,
                0 <= c,
                0 <= a <= c * b,
        {}
    } else {
        assert(-c * b <= a ==> -a <= c * b) by (nonlinear_arith) {}
        assert(0 <= (-a) / b <= c) by (nonlinear_arith)
            requires
                b > 0,
                0 <= c,
                0 <= -a <= c * b,
        {}
    }
}

/// Floor of the square root: binary search over the root.
pub fn isqrt_u64(n: u64) -> (r: u64)
    ensures
        r == sqrt_floor(n as int),
        r * r <= n,
        n < (r + 1) * (r + 1),
{
    let mut lo: u64 = 0;
    let mut hi: u64 = 4_294_967_296;
    // invariant: lo * lo <= n < hi * hi
    while lo + 1 < hi
        invariant
            lo < hi,
            lo * lo <= n,
            n < hi * hi,
            hi <= 4_294_967_296,
        decreases hi - lo,
    {
        let mid = lo + (hi - lo) / 2;
        proof {
            assert(mid * mid <= 0xffff_ffff_0000_0001u64) by (nonlinear_arith)
                requires
                    mid <= 0xffff_ffffu64,
            {}
        }
        if mid * mid <= n {
            lo = mid;
        } else {
            hi = mid;
        }
    }
    proof {
        lemma_sqrt_floor(n as int, lo as int);
    }
    lo
}

} // verus!
