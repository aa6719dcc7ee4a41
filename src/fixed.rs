use vstd::prelude::*;
use crate::constants::SCALE;

verus! {

/// `r` is the integer square root of `n`, rounded down.
pub open spec fn is_floor_sqrt(r: int, n: int) -> bool {
    0 <= r && r * r <= n && n < (r + 1) * (r + 1)
}

/// The integer square root of `n`, rounded down.
pub open spec fn floor_sqrt(n: int) -> int {
    choose|r: int| is_floor_sqrt(r, n)
}

/// The rounded-down square root is unique, so any witness is `floor_sqrt`.
pub proof fn lemma_floor_sqrt_unique(r: int, n: int)
    requires
        is_floor_sqrt(r, n),
    ensures
        floor_sqrt(n) == r,
{
    let s = floor_sqrt(n);
    assert(is_floor_sqrt(s, n));
    if s < r {
        assert((s + 1) * (s + 1) <= r * r) by (nonlinear_arith) requires 0 <= s, s + 1 <= r;
    } else if r < s {
        assert((r + 1) * (r + 1) <= s * s) by (nonlinear_arith) requires 0 <= r, r + 1 <= s;
    }
}

/// Every natural number has a rounded-down square root.
pub proof fn lemma_floor_sqrt_exists(n: int)
    requires
        0 <= n,
    ensures
        is_floor_sqrt(floor_sqrt(n), n),
{
    let r = lemma_floor_sqrt_witness(n, 0);
    lemma_floor_sqrt_unique(r, n);
}

/// Finds the rounded-down square root of `n` by counting up from `r`.
proof fn lemma_floor_sqrt_witness(n: int, r: int) -> (s: int)
    requires
        0 <= r,
        r * r <= n,
    ensures
        is_floor_sqrt(s, n),
    decreases n - r * r,
{
    if n < (r + 1) * (r + 1) {
        r
    } else {
        assert((r + 1) * (r + 1) > r * r) by (nonlinear_arith) requires 0 <= r;
        lemma_floor_sqrt_witness(n, r + 1)
    }
}

/// Division that rounds toward zero, as Rust's integer division does.
pub open spec fn div_trunc(a: int, b: int) -> int
    recommends b > 0,
{
    if a >= 0 { a / b } else { -((-a) / b) }
}

/// Product of two fixed-point numbers, rounded toward zero.
pub open spec fn fx_mul(a: int, b: int) -> int {
    div_trunc(a * b, SCALE as int)
}

pub open spec fn clamp(v: int, lo: int, hi: int) -> int {
    if v < lo { lo } else if v > hi { hi } else { v }
}

pub open spec fn min(a: int, b: int) -> int {
    if a <= b { a } else { b }
}

/// Floor of the square root of `n`.
pub fn isqrt(n: u64) -> (r: u64)
    ensures
        is_floor_sqrt(r as int, n as int),
        r as int == floor_sqrt(n as int),
{
    let mut lo: u64 = 0;
    let mut hi: u64 = 4_294_967_296;
    while hi - lo > 1
        invariant
            lo < hi <= 4_294_967_296,
            (lo as int) * (lo as int) <= n,
            n < (hi as int) * (hi as int),
        decreases hi - lo,
    {
        let mid: u64 = lo + (hi - lo) / 2;
        assert((mid as int) * (mid as int) <= 4_294_967_296 * 4_294_967_296) by (nonlinear_arith)
            requires 0 <= mid <= 4_294_967_296;
        if (mid as u128) * (mid as u128) <= n as u128 {
            lo = mid;
        } else {
            hi = mid;
        }
    }
    assert(hi == lo + 1);
    proof {
        lemma_floor_sqrt_unique(lo as int, n as int);
    }
    lo
}

/// Rust's `/` on `i128` with a positive divisor, stated with `div_trunc`.
pub fn div_trunc_i128(a: i128, b: i128) -> (r: i128)
    requires
        b > 0,
        a > i128::MIN,
    ensures
        r as int == div_trunc(a as int, b as int),
{
    if a >= 0 {
        a / b
    } else {
        -((-a) / b)
    }
}

pub proof fn lemma_div_trunc_bound(a: int, b: int, m: int)
    requires
        b > 0,
        -m <= a <= m,
    ensures
        -m <= div_trunc(a, b) <= m,
        a >= 0 ==> div_trunc(a, b) >= 0,
        a <= 0 ==> div_trunc(a, b) <= 0,
{
    if a >= 0 {
        assert(a / b <= a) by (nonlinear_arith) requires a >= 0, b > 0;
        assert(a / b >= 0) by (nonlinear_arith) requires a >= 0, b > 0;
    } else {
        assert((-a) / b <= -a) by (nonlinear_arith) requires -a >= 0, b > 0;
        assert((-a) / b >= 0) by (nonlinear_arith) requires -a >= 0, b > 0;
    }
}

} // verus!
