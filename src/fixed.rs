//! Fixed-point scales and integer square roots.
use vstd::prelude::*;

verus! {

/// Thousandths of a world unit: one world unit of length, height or speed.
pub const UNIT: i64 = 1000;

/// The fixed-point one for fractions in `[0, 1]` (weights, ratios, curves).
pub const ONE: u64 = 1_000_000;

/// Largest integer whose square does not exceed `n`.
pub open spec fn sqrt_floor(n: nat) -> nat
    decreases n,
{
    if n == 0 {
        0
    } else {
        let s = sqrt_floor((n - 1) as nat);
        if (s + 1) * (s + 1) <= n {
            s + 1
        } else {
            s
        }
    }
}

/// Smallest integer whose square is at least `n`.
pub open spec fn sqrt_ceil(n: nat) -> nat {
    let s = sqrt_floor(n);
    if s * s == n {
        s
    } else {
        s + 1
    }
}

/// `s` is the floor square root of `n`.
pub open spec fn is_sqrt_floor(n: nat, s: nat) -> bool {
    s * s <= n && n < (s + 1) * (s + 1)
}

pub proof fn lemma_sqrt_floor_bounds(n: nat)
    ensures
        is_sqrt_floor(n, sqrt_floor(n)),
    decreases n,
{
    if n > 0 {
        lemma_sqrt_floor_bounds((n - 1) as nat);
        let s = sqrt_floor((n - 1) as nat);
        if (s + 1) * (s + 1) <= n {
            assert(sqrt_floor(n) == s + 1);
            let t = s + 1;
            assert(n < (t + 1) * (t + 1)) by (nonlinear_arith)
                requires
                    n - 1 < t * t,
            ;
            assert(is_sqrt_floor(n, t));
        } else {
            assert(sqrt_floor(n) == s);
            assert(is_sqrt_floor(n, s));
        }
    } else {
        assert(sqrt_floor(0) == 0);
        assert(0 < (0 + 1) * (0 + 1)) by (nonlinear_arith);
    }
}

/// Squares order as their non-negative roots do.
pub proof fn lemma_square_le(a: nat, b: nat)
    requires
        a <= b,
    ensures
        a * a <= b * b,
{
    assert(a * a <= b * b) by (nonlinear_arith)
        requires
            a <= b,
    ;
}

pub proof fn lemma_sqrt_floor_unique(n: nat, s: nat)
    requires
        is_sqrt_floor(n, s),
    ensures
        sqrt_floor(n) == s,
{
    lemma_sqrt_floor_bounds(n);
    let t = sqrt_floor(n);
    if t < s {
        lemma_square_le(t + 1, s);
    } else if s < t {
        lemma_square_le(s + 1, t);
    }
}

pub proof fn lemma_sqrt_floor_monotone(a: nat, b: nat)
    requires
        a <= b,
    ensures
        sqrt_floor(a) <= sqrt_floor(b),
{
    lemma_sqrt_floor_bounds(a);
    lemma_sqrt_floor_bounds(b);
    if sqrt_floor(b) < sqrt_floor(a) {
        lemma_square_le(sqrt_floor(b) + 1, sqrt_floor(a));
    }
}

/// `sqrt_ceil(n)` is the least `k` with `k * k >= n`.
pub proof fn lemma_sqrt_ceil_least(n: nat, k: nat)
    ensures
        sqrt_ceil(n) * sqrt_ceil(n) >= n,
        k * k >= n ==> sqrt_ceil(n) <= k,
{
    lemma_sqrt_floor_bounds(n);
    let s = sqrt_floor(n);
    if k * k >= n && k < sqrt_ceil(n) {
        if s * s == n {
            assert(k * k < s * s) by (nonlinear_arith)
                requires
                    k < s,
            ;
        } else {
            lemma_square_le(k, s);
        }
    }
}

pub proof fn lemma_sqrt_ceil_monotone(a: nat, b: nat)
    requires
        a <= b,
    ensures
        sqrt_ceil(a) <= sqrt_ceil(b),
{
    lemma_sqrt_ceil_least(b, 0);
    lemma_sqrt_ceil_least(a, sqrt_ceil(b));
}

/// Floor square root of a 64-bit integer.
pub fn isqrt(n: u64) -> (r: u64)
    ensures
        r as nat == sqrt_floor(n as nat),
{
    let mut lo: u64 = 0;
    let mut hi: u64 = 0x1_0000_0000;
    assert(n < hi * hi) by (nonlinear_arith)
        requires
            hi == 0x1_0000_0000,
            n <= u64::MAX,
    ;
    while hi - lo > 1
        invariant
            lo < hi <= 0x1_0000_0000,
            lo * lo <= n,
            n < hi * hi,
        decreases hi - lo,
    {
        let mid: u64 = lo + (hi - lo) / 2;
        assert(mid * mid < 0x1_0000_0000_0000_0000) by (nonlinear_arith)
            requires
                mid < 0x1_0000_0000,
        ;
        if mid * mid <= n {
            lo = mid;
        } else {
            hi = mid;
        }
    }
    proof {
        lemma_sqrt_floor_unique(n as nat, lo as nat);
    }
    lo
}

/// Least integer whose square is at least `n`.
pub fn isqrt_ceil(n: u64) -> (r: u64)
    ensures
        r as nat == sqrt_ceil(n as nat),
{
    let s = isqrt(n);
    proof {
        lemma_sqrt_floor_bounds(n as nat);
        if s >= 0x1_0000_0000 {
            lemma_square_le(0x1_0000_0000, s as nat);
        }
    }
    if s * s == n {
        s
    } else {
        s + 1
    }
}

/// Floor square root of a 128-bit integer.
pub fn isqrt_wide(n: u128) -> (r: u64)
    ensures
        r as nat == sqrt_floor(n as nat),
{
    let mut lo: u128 = 0;
    let mut hi: u128 = 0x1_0000_0000_0000_0000;
    assert(n < hi * hi) by (nonlinear_arith)
        requires
            hi == 0x1_0000_0000_0000_0000,
            n <= u128::MAX,
    ;
    while hi - lo > 1
        invariant
            lo < hi <= 0x1_0000_0000_0000_0000,
            lo * lo <= n,
            n < hi * hi,
        decreases hi - lo,
    {
        let mid: u128 = lo + (hi - lo) / 2;
        assert(mid * mid < 0x1_0000_0000_0000_0000_0000_0000_0000_0000) by (nonlinear_arith)
            requires
                mid < 0x1_0000_0000_0000_0000,
        ;
        if mid * mid <= n {
            lo = mid;
        } else {
            hi = mid;
        }
    }
    proof {
        lemma_sqrt_floor_unique(n as nat, lo as nat);
    }
    lo as u64
}

} // verus!
