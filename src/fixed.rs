//! Integer helpers: floor division and integer square root.
use vstd::prelude::*;

verus! {

/// True when `r` is the integer square root of `n`.
pub open spec fn is_sqrt_floor(n: int, r: int) -> bool {
    r >= 0 && r * r <= n < (r + 1) * (r + 1)
}

/// The integer square root of a non-negative number.
pub open spec fn sqrt_floor(n: int) -> int {
    choose|r: int| is_sqrt_floor(n, r)
}

proof fn lemma_sqrt_unique(n: int, a: int, b: int)
    requires
        is_sqrt_floor(n, a),
        is_sqrt_floor(n, b),
    ensures
        a == b,
{
    if a < b {
        assert((a + 1) * (a + 1) <= b * b) by (nonlinear_arith)
            requires a + 1 <= b, a >= 0;
    } else if b < a {
        assert((b + 1) * (b + 1) <= a * a) by (nonlinear_arith)
            requires b + 1 <= a, b >= 0;
    }
}

/// Every root found this way is the one `sqrt_floor` names.
pub proof fn lemma_sqrt_floor(n: int, r: int)
    requires
        is_sqrt_floor(n, r),
    ensures
        sqrt_floor(n) == r,
{
    let c = sqrt_floor(n);
    assert(is_sqrt_floor(n, c));
    lemma_sqrt_unique(n, r, c);
}

/// A quotient lies between any bounds that scale, times the divisor, around
/// the dividend.
pub proof fn lemma_div_bounds(x: int, d: int, lo: int, hi: int)
    requires
        d > 0,
        lo * d <= x <= hi * d,
    ensures
        lo <= x / d <= hi,
{
    let q = x / d;
    let m = x % d;
    vstd::arithmetic::div_mod::lemma_fundamental_div_mod(x, d);
    vstd::arithmetic::div_mod::lemma_mod_bound(x, d);
    assert(lo <= q <= hi) by (nonlinear_arith)
        requires x == d * q + m, 0 <= m < d, lo * d <= x <= hi * d, d > 0;
}

/// Largest value whose square `isqrt` accepts.
pub const SQRT_LIMIT: u64 = 9_000_000_000_000_000_000;

/// Integer square root by bisection.
pub fn isqrt(n: u64) -> (r: u64)
    requires
        n < SQRT_LIMIT,
    ensures
        r == sqrt_floor(n as int),
        is_sqrt_floor(n as int, r as int),
        r <= 3_000_000_000,
{
    let mut lo: u64 = 0;
    let mut hi: u64 = 3_000_000_000;
    assert(hi * hi == 9_000_000_000_000_000_000);
    while hi - lo > 1
        invariant
            lo < hi <= 3_000_000_000,
            lo * lo <= n < hi * hi,
        decreases hi - lo,
    {
        let mid: u64 = lo + (hi - lo) / 2;
        assert(mid * mid <= 9_000_000_000_000_000_000) by (nonlinear_arith)
            requires mid <= 3_000_000_000;
        if mid * mid <= n {
            lo = mid;
        } else {
            hi = mid;
        }
    }
    assert(hi == lo + 1);
    proof {
        lemma_sqrt_floor(n as int, lo as int);
    }
    lo
}

/// Floor division by a positive divisor.
pub fn fdiv(a: i64, b: i64) -> (r: i64)
    requires
        b > 0,
    ensures
        r == a / b,
{
    proof {
        let ai = a as int;
        let bi = b as int;
        let q = ai / bi;
        let m = ai % bi;
        vstd::arithmetic::div_mod::lemma_fundamental_div_mod(ai, bi);
        vstd::arithmetic::div_mod::lemma_mod_bound(ai, bi);
        if q > 0 {
            assert(bi * q >= q) by (nonlinear_arith)
                requires bi >= 1, q > 0;
        } else if q < 0 {
            assert(q >= ai) by (nonlinear_arith)
                requires ai == bi * q + m, 0 <= m < bi, bi >= 1, q < 0;
        }
    }
    match a.checked_div_euclid(b) {
        Some(q) => q,
        None => 0,
    }
}

} // verus!
