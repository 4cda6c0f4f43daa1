//! Fixed-point scalar arithmetic.
//!
//! A quantity is an `i64` counting millionths (`SCALE`) of a unit.  Products
//! and quotients round toward zero, as the sign-magnitude implementations
//! below make explicit.

use vstd::prelude::*;
use vstd::arithmetic::div_mod::lemma_fundamental_div_mod;
use vstd::arithmetic::div_mod::lemma_mod_division_less_than_divisor;

verus! {

/// One whole unit, in fixed-point counts.
pub const SCALE: i64 = 1_000_000;

/// Largest magnitude a fixed-point value may take (`i64::MAX`; the most
/// negative `i64` is excluded so that magnitudes always fit an `i64`).
pub const FX_MAX: i64 = 9_223_372_036_854_775_807;

/// Magnitude of an integer.
pub open spec fn iabs(a: int) -> int {
    if a < 0 {
        -a
    } else {
        a
    }
}

/// Division rounding toward zero (the rounding of every quotient here).
pub open spec fn tdiv(a: int, d: int) -> int
    recommends
        d >= 1,
{
    if a >= 0 {
        a / d
    } else {
        -((-a) / d)
    }
}

/// Fixed-point product: `a * b / SCALE`, rounded toward zero.
pub open spec fn fmul_s(a: int, b: int) -> int {
    tdiv(a * b, SCALE as int)
}

/// Clamp `x` into `[lo, hi]`.
pub open spec fn clamp_s(x: int, lo: int, hi: int) -> int {
    if x < lo {
        lo
    } else if x > hi {
        hi
    } else {
        x
    }
}

/// Rounding toward zero never grows the magnitude of the true quotient:
/// `|tdiv(a, d)| * d <= |a|`.
pub proof fn lemma_tdiv_abs(a: int, d: int)
    requires
        d >= 1,
    ensures
        0 <= iabs(tdiv(a, d)),
        iabs(tdiv(a, d)) * d <= iabs(a),
{
    let m = iabs(a);
    lemma_fundamental_div_mod(m, d);
    lemma_mod_division_less_than_divisor(m, d);
    assert(d * (m / d) <= m);
    assert(m / d >= 0) by (nonlinear_arith)
        requires
            m >= 0,
            d >= 1,
            d * (m / d) + (m % d) == m,
            0 <= m % d < d,
    ;
    assert((m / d) * d == d * (m / d)) by (nonlinear_arith);
}

/// Bound a fixed-point product from bounds on its factors:
/// if `|a| <= aa` and `|b| <= bb` then `|a*b| <= aa*bb` and
/// `|fmul_s(a, b)| * SCALE <= aa * bb`.
pub proof fn lemma_fmul_bound(a: int, b: int, aa: int, bb: int)
    requires
        iabs(a) <= aa,
        iabs(b) <= bb,
    ensures
        0 <= aa * bb,
        iabs(a * b) <= aa * bb,
        iabs(a * b) == iabs(a) * iabs(b),
        0 <= iabs(fmul_s(a, b)),
        iabs(fmul_s(a, b)) * (SCALE as int) <= aa * bb,
{
    assert(0 <= aa * bb && iabs(a * b) == iabs(a) * iabs(b) && iabs(a) * iabs(b) <= aa * bb)
        by (nonlinear_arith)
        requires
            iabs(a) <= aa,
            iabs(b) <= bb,
    ;
    lemma_tdiv_abs(a * b, SCALE as int);
}

/// Fixed-point multiply, rounding toward zero.
pub fn fmul(a: i64, b: i64) -> (r: i64)
    requires
        -FX_MAX <= a,
        -FX_MAX <= b,
        iabs(a as int) * iabs(b as int) <= FX_MAX * (SCALE as int),
    ensures
        r as int == fmul_s(a as int, b as int),
{
    let neg: bool = (a < 0) != (b < 0);
    let ma: u64 = if a < 0 {
        (-a) as u64
    } else {
        a as u64
    };
    let mb: u64 = if b < 0 {
        (-b) as u64
    } else {
        b as u64
    };
    let p: u128 = (ma as u128) * (mb as u128);
    let q: u128 = p / 1_000_000u128;
    proof {
        assert(ma as int == iabs(a as int));
        assert(mb as int == iabs(b as int));
        assert(p as int == iabs(a as int) * iabs(b as int)) by (nonlinear_arith)
            requires
                ma as int == iabs(a as int),
                mb as int == iabs(b as int),
                p as int == (ma as int) * (mb as int),
        ;
        assert(q as int == (p as int) / 1_000_000);
        assert(q as int <= FX_MAX as int) by {
            lemma_fundamental_div_mod(p as int, 1_000_000);
            lemma_mod_division_less_than_divisor(p as int, 1_000_000);
        }
        assert(a as int * b as int == if neg {
            -(p as int)
        } else {
            p as int
        }) by (nonlinear_arith)
            requires
                ma as int == iabs(a as int),
                mb as int == iabs(b as int),
                p as int == (ma as int) * (mb as int),
                neg == ((a < 0) != (b < 0)),
        ;
    }
    if neg {
        -(q as i64)
    } else {
        q as i64
    }
}

/// Divide by a small positive constant, rounding toward zero.
pub fn tdivc(a: i64, d: u64) -> (r: i64)
    requires
        -FX_MAX <= a,
        1 <= d,
    ensures
        r as int == tdiv(a as int, d as int),
        iabs(r as int) <= iabs(a as int),
{
    let m: u64 = if a < 0 {
        (-a) as u64
    } else {
        a as u64
    };
    let q: u64 = m / d;
    proof {
        lemma_fundamental_div_mod(m as int, d as int);
        lemma_mod_division_less_than_divisor(m as int, d as int);
        assert(q as int <= m as int) by (nonlinear_arith)
            requires
                d as int >= 1,
                q as int >= 0,
                (d as int) * (q as int) <= m as int,
        ;
    }
    if a < 0 {
        -(q as i64)
    } else {
        q as i64
    }
}

/// Quotient `a * SCALE / n`, rounding toward zero, for `|a| <= n`:
/// the division step of a normalization.
pub fn scale_div(a: i64, n: i64) -> (r: i64)
    requires
        1 <= n,
        iabs(a as int) <= n as int,
    ensures
        r as int == tdiv(a as int * (SCALE as int), n as int),
        0 <= iabs(r as int) <= SCALE as int,
{
    let m: u64 = if a < 0 {
        (-a) as u64
    } else {
        a as u64
    };
    let p: u128 = (m as u128) * 1_000_000u128;
    let q: u128 = p / (n as u128);
    proof {
        assert(p as int == iabs(a as int) * 1_000_000);
        lemma_fundamental_div_mod(p as int, n as int);
        lemma_mod_division_less_than_divisor(p as int, n as int);
        assert(q as int * (n as int) <= p as int) by (nonlinear_arith)
            requires
                (n as int) * (q as int) + (p as int % (n as int)) == p as int,
                0 <= p as int % (n as int),
        ;
        assert(q as int <= 1_000_000) by (nonlinear_arith)
            requires
                q as int * (n as int) <= p as int,
                p as int <= (n as int) * 1_000_000,
                n as int >= 1,
                q as int >= 0,
        ;
        assert(iabs(a as int * 1_000_000) == iabs(a as int) * 1_000_000);
        assert(tdiv(a as int * 1_000_000, n as int) == if a < 0 {
            -(q as int)
        } else {
            q as int
        });
    }
    if a < 0 {
        -(q as i64)
    } else {
        q as i64
    }
}

/// Clamp into `[lo, hi]`.
pub fn clamp64(x: i64, lo: i64, hi: i64) -> (r: i64)
    requires
        lo <= hi,
    ensures
        r as int == clamp_s(x as int, lo as int, hi as int),
{
    if x < lo {
        lo
    } else if x > hi {
        hi
    } else {
        x
    }
}

/// Integer square root, rounded down.
pub open spec fn sqrt_floor(n: int) -> int
    decreases n,
{
    if n <= 0 {
        0
    } else {
        let p = sqrt_floor(n - 1);
        if (p + 1) * (p + 1) <= n {
            p + 1
        } else {
            p
        }
    }
}

/// `sqrt_floor(n)` is the greatest integer whose square is at most `n`.
pub proof fn lemma_sqrt_floor_bounds(n: int)
    requires
        n >= 0,
    ensures
        0 <= sqrt_floor(n),
        sqrt_floor(n) * sqrt_floor(n) <= n,
        n < (sqrt_floor(n) + 1) * (sqrt_floor(n) + 1),
    decreases n,
{
    if n <= 0 {
        assert(sqrt_floor(n) == 0);
    } else {
        let p = sqrt_floor(n - 1);
        lemma_sqrt_floor_bounds(n - 1);
        assert(sqrt_floor(n) == if (p + 1) * (p + 1) <= n {
            p + 1
        } else {
            p
        });
        if (p + 1) * (p + 1) <= n {
            assert(n < (p + 1 + 1) * (p + 1 + 1)) by (nonlinear_arith)
                requires
                    (n - 1) < (p + 1) * (p + 1),
                    (p + 1) * (p + 1) <= n,
                    p >= 0,
            ;
        }
    }
}

/// Any integer `r` with `r^2 <= n < (r+1)^2` is `sqrt_floor(n)`.
pub proof fn lemma_sqrt_floor_unique(n: int, r: int)
    requires
        0 <= r,
        r * r <= n,
        n < (r + 1) * (r + 1),
    ensures
        r == sqrt_floor(n),
{
    let s = sqrt_floor(n);
    lemma_sqrt_floor_bounds(n);
    if r < s {
        assert((r + 1) * (r + 1) <= s * s) by (nonlinear_arith)
            requires
                0 <= r,
                r + 1 <= s,
        ;
    } else if s < r {
        assert((s + 1) * (s + 1) <= r * r) by (nonlinear_arith)
            requires
                0 <= s,
                s + 1 <= r,
        ;
    }
}

/// Integer square root by bisection.
pub fn isqrt(n: u128) -> (r: u64)
    requires
        (n as int) < 79_228_162_514_264_337_593_543_950_336,  // 2^96
    ensures
        r as int == sqrt_floor(n as int),
        (r as int) * (r as int) <= n as int,
        (n as int) < ((r as int) + 1) * ((r as int) + 1),
{
    let mut lo: u64 = 0;
    let mut hi: u64 = 281_474_976_710_656;  // 2^48
    proof {
        assert((hi as int) * (hi as int) == 79_228_162_514_264_337_593_543_950_336);
    }
    while lo + 1 < hi
        invariant
            lo < hi,
            hi <= 281_474_976_710_656,
            (lo as int) * (lo as int) <= n as int,
            (n as int) < (hi as int) * (hi as int),
        decreases hi - lo,
    {
        let mid: u64 = lo + (hi - lo) / 2;
        proof {
            assert((mid as int) * (mid as int) <= 79_228_162_514_264_337_593_543_950_336)
                by (nonlinear_arith)
                requires
                    0 <= mid as int <= 281_474_976_710_656,
            ;
        }
        if (mid as u128) * (mid as u128) <= n {
            lo = mid;
        } else {
            hi = mid;
        }
    }
    proof {
        lemma_sqrt_floor_unique(n as int, lo as int);
    }
    lo
}

} // verus!
