//! Fixed-point quaternions: orientation, composition, rotation,
//! normalization.

use vstd::prelude::*;
use crate::fixed::FX_MAX;
use crate::fixed::SCALE;
use crate::fixed::fmul;
use crate::fixed::fmul_s;
use crate::fixed::iabs;
use crate::fixed::isqrt;
use crate::fixed::lemma_fmul_bound;
use crate::fixed::lemma_sqrt_floor_bounds;
use crate::fixed::scale_div;
use crate::fixed::sqrt_floor;
use crate::fixed::tdiv;
use crate::vec3::V3;
use crate::vec3::V3s;
use crate::vec3::vabs_le;
use crate::vec3::vadd;
use crate::vec3::vadd_s;
use crate::vec3::vcross;
use crate::vec3::vcross_s;
use crate::vec3::vscale;
use crate::vec3::vscale_s;

verus! {

/// Mathematical model of a quaternion.
pub ghost struct Q4s {
    pub x: int,
    pub y: int,
    pub z: int,
    pub w: int,
}

/// A rotation as a fixed-point quaternion, kept within rounding error of
/// unit length.
#[derive(Clone, Copy, Debug)]
pub struct Q4 {
    pub x: i64,
    pub y: i64,
    pub z: i64,
    pub w: i64,
}

impl View for Q4 {
    type V = Q4s;

    open spec fn view(&self) -> Q4s {
        Q4s { x: self.x as int, y: self.y as int, z: self.z as int, w: self.w as int }
    }
}

/// Every component of `q` has magnitude at most `b`.
pub open spec fn qabs_le(q: Q4s, b: int) -> bool {
    iabs(q.x) <= b && iabs(q.y) <= b && iabs(q.z) <= b && iabs(q.w) <= b
}

/// Squared length of a quaternion, in raw counts.
pub open spec fn qnorm2_s(q: Q4s) -> int {
    q.x * q.x + q.y * q.y + q.z * q.z + q.w * q.w
}

pub open spec fn q_identity_s() -> Q4s {
    Q4s { x: 0, y: 0, z: 0, w: SCALE as int }
}

/// Hamilton product, each term a fixed-point product.
pub open spec fn qmul_s(a: Q4s, b: Q4s) -> Q4s {
    Q4s {
        x: fmul_s(a.w, b.x) + fmul_s(a.x, b.w) + fmul_s(a.y, b.z) - fmul_s(a.z, b.y),
        y: fmul_s(a.w, b.y) - fmul_s(a.x, b.z) + fmul_s(a.y, b.w) + fmul_s(a.z, b.x),
        z: fmul_s(a.w, b.z) + fmul_s(a.x, b.y) - fmul_s(a.y, b.x) + fmul_s(a.z, b.w),
        w: fmul_s(a.w, b.w) - fmul_s(a.x, b.x) - fmul_s(a.y, b.y) - fmul_s(a.z, b.z),
    }
}

/// Rotate `v` by `q`: `v + w*t + qv x t` where `t = 2 * (qv x v)`.
pub open spec fn rotate_s(q: Q4s, v: V3s) -> V3s {
    let qv = V3s { x: q.x, y: q.y, z: q.z };
    let c1 = vcross_s(qv, v);
    let t = V3s { x: 2 * c1.x, y: 2 * c1.y, z: 2 * c1.z };
    vadd_s(vadd_s(v, vscale_s(t, q.w)), vcross_s(qv, t))
}

/// Normalize to unit length; a degenerate near-zero input (never produced
/// by the integrator) falls back to the identity rotation.
pub open spec fn qnormalize_s(q: Q4s) -> Q4s {
    let s = qnorm2_s(q);
    if s < 250_000_000_000 {
        q_identity_s()
    } else {
        let n = sqrt_floor(s);
        Q4s {
            x: tdiv(q.x * (SCALE as int), n),
            y: tdiv(q.y * (SCALE as int), n),
            z: tdiv(q.z * (SCALE as int), n),
            w: tdiv(q.w * (SCALE as int), n),
        }
    }
}

#[verifier::rlimit(60)]
pub fn qmul(a: &Q4, b: &Q4, Ghost(ab): Ghost<int>, Ghost(bb): Ghost<int>) -> (r: Q4)
    requires
        0 <= ab <= FX_MAX as int,
        0 <= bb <= FX_MAX as int,
        qabs_le(a@, ab),
        qabs_le(b@, bb),
        4 * (ab * bb) <= (FX_MAX as int) * (SCALE as int),
    ensures
        r@ == qmul_s(a@, b@),
        iabs(r@.x) * (SCALE as int) <= 4 * (ab * bb),
        iabs(r@.y) * (SCALE as int) <= 4 * (ab * bb),
        iabs(r@.z) * (SCALE as int) <= 4 * (ab * bb),
        iabs(r@.w) * (SCALE as int) <= 4 * (ab * bb),
{
    proof {
        lemma_fmul_bound(a@.w, b@.x, ab, bb);
        lemma_fmul_bound(a@.x, b@.w, ab, bb);
        lemma_fmul_bound(a@.y, b@.z, ab, bb);
        lemma_fmul_bound(a@.z, b@.y, ab, bb);
        lemma_fmul_bound(a@.w, b@.y, ab, bb);
        lemma_fmul_bound(a@.x, b@.z, ab, bb);
        lemma_fmul_bound(a@.y, b@.w, ab, bb);
        lemma_fmul_bound(a@.z, b@.x, ab, bb);
        lemma_fmul_bound(a@.w, b@.z, ab, bb);
        lemma_fmul_bound(a@.x, b@.y, ab, bb);
        lemma_fmul_bound(a@.y, b@.x, ab, bb);
        lemma_fmul_bound(a@.z, b@.w, ab, bb);
        lemma_fmul_bound(a@.w, b@.w, ab, bb);
        lemma_fmul_bound(a@.x, b@.x, ab, bb);
        lemma_fmul_bound(a@.y, b@.y, ab, bb);
        lemma_fmul_bound(a@.z, b@.z, ab, bb);
    }
    let rx = fmul(a.w, b.x) + fmul(a.x, b.w) + fmul(a.y, b.z) - fmul(a.z, b.y);
    let ry = fmul(a.w, b.y) - fmul(a.x, b.z) + fmul(a.y, b.w) + fmul(a.z, b.x);
    let rz = fmul(a.w, b.z) + fmul(a.x, b.y) - fmul(a.y, b.x) + fmul(a.z, b.w);
    let rw = fmul(a.w, b.w) - fmul(a.x, b.x) - fmul(a.y, b.y) - fmul(a.z, b.z);
    Q4 { x: rx, y: ry, z: rz, w: rw }
}

/// Apply the rotation `q` to `v` (both near unit scale).
pub fn rotate(q: &Q4, v: &V3) -> (r: V3)
    requires
        qabs_le(q@, 1_100_000),
        vabs_le(v@, 1_100_000),
    ensures
        r@ == rotate_s(q@, v@),
        vabs_le(r@, 18_000_000),
{
    let qv = V3 { x: q.x, y: q.y, z: q.z };
    let c1 = vcross(&qv, v, Ghost(1_100_000), Ghost(1_100_000));
    let t = V3 { x: 2 * c1.x, y: 2 * c1.y, z: 2 * c1.z };
    let wt = vscale(&t, q.w, Ghost(4_840_000), Ghost(1_100_000));
    let c2 = vcross(&qv, &t, Ghost(1_100_000), Ghost(4_840_000));
    let s1 = vadd(v, &wt);
    vadd(&s1, &c2)
}

/// One normalized component: `tdiv(a * SCALE, n)` for `a^2 <= s`,
/// `n = sqrt_floor(s)`, with the bounds the norm argument needs.
proof fn lemma_normalize_comp(a: int, s: int, n: int)
    requires
        a * a <= s,
        n >= 1,
        n * n <= s,
        s < (n + 1) * (n + 1),
    ensures
        iabs(a) <= n,
        0 <= iabs(tdiv(a * 1_000_000, n)) <= 1_000_000,
        tdiv(a * 1_000_000, n) * tdiv(a * 1_000_000, n) * (n * n) <= a * a * 1_000_000_000_000,
        a * a * 1_000_000_000_000 < (iabs(tdiv(a * 1_000_000, n)) + 1) * (iabs(
            tdiv(a * 1_000_000, n),
        ) + 1) * (n * n),
{
    let m = iabs(a);
    assert(m <= n) by (nonlinear_arith)
        requires
            (a >= 0 ==> m == a) && (a < 0 ==> m == -a),
            a * a <= s,
            s < (n + 1) * (n + 1),
            n >= 1,
    ;
    let u = (m * 1_000_000) / n;
    let rr = (m * 1_000_000) % n;
    vstd::arithmetic::div_mod::lemma_fundamental_div_mod(m * 1_000_000, n);
    vstd::arithmetic::div_mod::lemma_mod_division_less_than_divisor(m * 1_000_000, n);
    assert(u >= 0) by (nonlinear_arith)
        requires
            n * u + rr == m * 1_000_000,
            0 <= rr < n,
            m >= 0,
            n >= 1,
    ;
    assert(n * u <= m * 1_000_000 && m * 1_000_000 < n * u + n);
    let d = tdiv(a * 1_000_000, n);
    assert(d == u || d == -u);
    assert(iabs(d) == u);
    assert(u <= 1_000_000) by (nonlinear_arith)
        requires
            n * u <= m * 1_000_000,
            m <= n,
            n >= 1,
            u >= 0,
    ;
    assert(d * d == u * u) by (nonlinear_arith)
        requires
            d == u || d == -u,
    ;
    assert(u * u * (n * n) <= (m * 1_000_000) * (m * 1_000_000)) by (nonlinear_arith)
        requires
            0 <= u,
            0 <= n,
            n * u <= m * 1_000_000,
    ;
    assert((m * 1_000_000) * (m * 1_000_000) == a * a * 1_000_000_000_000) by (nonlinear_arith)
        requires
            (a >= 0 ==> m == a) && (a < 0 ==> m == -a),
    ;
    assert((m * 1_000_000) * (m * 1_000_000) < (u + 1) * (u + 1) * (n * n)) by (nonlinear_arith)
        requires
            0 <= m * 1_000_000,
            0 <= u,
            0 <= n,
            m * 1_000_000 < n * u + n,
    ;
}

/// Cancel a positive common factor.
proof fn lemma_cancel(a: int, b: int, n: int)
    requires
        a * n <= b * n,
        n >= 1,
    ensures
        a <= b,
{
    assert(a <= b) by (nonlinear_arith)
        requires
            a * n <= b * n,
            n >= 1,
    ;
}

/// Cancel a positive common factor, strictly.
proof fn lemma_cancel_strict(a: int, b: int, n: int)
    requires
        a * n < b * n,
        n >= 1,
    ensures
        a < b,
{
    assert(a < b) by (nonlinear_arith)
        requires
            a * n < b * n,
            n >= 1,
    ;
}

/// `(|u| + 1)^2 = u^2 + 2|u| + 1`.
proof fn lemma_abs_square_expand(u: int, t: int)
    requires
        t == (iabs(u) + 1) * (iabs(u) + 1),
    ensures
        t == u * u + 2 * iabs(u) + 1,
{
    let m = iabs(u);
    assert((m + 1) * (m + 1) == u * u + 2 * m + 1) by (nonlinear_arith)
        requires
            (u >= 0 ==> m == u) && (u < 0 ==> m == -u),
    ;
}

/// After normalization the squared length is within rounding error of one:
/// `SCALE^2 - 9*SCALE <= |q'|^2 <= SCALE^2 + 5*SCALE`, and every component
/// has magnitude at most `SCALE`.
pub proof fn lemma_qnormalize_norm(q: Q4s)
    ensures
        qabs_le(qnormalize_s(q), SCALE as int),
        1_000_000_000_000 - 9_000_000 <= qnorm2_s(qnormalize_s(q)),
        qnorm2_s(qnormalize_s(q)) <= 1_000_000_000_000 + 5_000_000,
{
    let s = qnorm2_s(q);
    assert(q.x * q.x >= 0 && q.y * q.y >= 0 && q.z * q.z >= 0 && q.w * q.w >= 0)
        by (nonlinear_arith);
    if s < 250_000_000_000 {
        let qi = q_identity_s();
        assert(qi.w * qi.w == 1_000_000_000_000) by (nonlinear_arith)
            requires
                qi.w == 1_000_000,
        ;
        assert(qnorm2_s(qi) == 1_000_000_000_000);
    } else {
        let n = sqrt_floor(s);
        lemma_sqrt_floor_bounds(s);
        assert(n >= 500_000) by (nonlinear_arith)
            requires
                s < (n + 1) * (n + 1),
                s >= 250_000_000_000,
                n >= 0,
        ;
        lemma_normalize_comp(q.x, s, n);
        lemma_normalize_comp(q.y, s, n);
        lemma_normalize_comp(q.z, s, n);
        lemma_normalize_comp(q.w, s, n);
        let ux = tdiv(q.x * 1_000_000, n);
        let uy = tdiv(q.y * 1_000_000, n);
        let uz = tdiv(q.z * 1_000_000, n);
        let uw = tdiv(q.w * 1_000_000, n);
        let r = qnormalize_s(q);
        assert(r == Q4s { x: ux, y: uy, z: uz, w: uw });
        let big = ux * ux + uy * uy + uz * uz + uw * uw;
        assert(qnorm2_s(r) == big);
        // Upper bound: big * n^2 <= s * SCALE^2 <= (n^2 + 2n) * SCALE^2.
        assert(big * (n * n) == ux * ux * (n * n) + uy * uy * (n * n) + uz * uz * (n * n) + uw * uw
            * (n * n)) by (nonlinear_arith)
            requires
                big == ux * ux + uy * uy + uz * uz + uw * uw,
        ;
        assert(s * 1_000_000_000_000 == q.x * q.x * 1_000_000_000_000 + q.y * q.y
            * 1_000_000_000_000 + q.z * q.z * 1_000_000_000_000 + q.w * q.w * 1_000_000_000_000)
            by (nonlinear_arith)
            requires
                s == q.x * q.x + q.y * q.y + q.z * q.z + q.w * q.w,
        ;
        assert(big * (n * n) <= s * 1_000_000_000_000);
        assert(s <= n * n + 2 * n) by (nonlinear_arith)
            requires
                s < (n + 1) * (n + 1),
        ;
        assert(s * 1_000_000_000_000 <= (n * n + 2 * n) * 1_000_000_000_000);
        assert((n * n + 2 * n) * 1_000_000_000_000 == (n * 1_000_000_000_000 + 2_000_000_000_000) * n)
            by (nonlinear_arith);
        assert(big * (n * n) == (big * n) * n) by (nonlinear_arith);
        lemma_cancel(big * n, n * 1_000_000_000_000 + 2_000_000_000_000, n);
        assert(n * 1_000_000_000_000 + 2_000_000_000_000 <= n * 1_000_000_000_000 + 4_000_000 * n);
        assert(n * 1_000_000_000_000 + 4_000_000 * n == (1_000_000_000_000 + 4_000_000) * n)
            by (nonlinear_arith);
        lemma_cancel(big, 1_000_004_000_000, n);
        // Lower bound: n^2 * SCALE^2 <= s * SCALE^2 < T * n^2 with
        // T = sum of (|u_i| + 1)^2 <= big + 8*SCALE + 4.
        let tx = (iabs(ux) + 1) * (iabs(ux) + 1);
        let ty = (iabs(uy) + 1) * (iabs(uy) + 1);
        let tz = (iabs(uz) + 1) * (iabs(uz) + 1);
        let tw = (iabs(uw) + 1) * (iabs(uw) + 1);
        let t = tx + ty + tz + tw;
        assert(s * 1_000_000_000_000 < t * (n * n)) by {
            assert(t * (n * n) == tx * (n * n) + ty * (n * n) + tz * (n * n) + tw * (n * n))
                by (nonlinear_arith)
                requires
                    t == tx + ty + tz + tw,
            ;
        }
        assert((n * n) * 1_000_000_000_000 <= s * 1_000_000_000_000);
        assert((n * n) * 1_000_000_000_000 == 1_000_000_000_000 * (n * n)) by (nonlinear_arith);
        assert(1_000_000_000_000 * (n * n) < t * (n * n));
        assert(n * n >= 1) by (nonlinear_arith)
            requires
                n >= 1,
        ;
        lemma_cancel_strict(1_000_000_000_000, t, n * n);
        lemma_abs_square_expand(ux, tx);
        lemma_abs_square_expand(uy, ty);
        lemma_abs_square_expand(uz, tz);
        lemma_abs_square_expand(uw, tw);
        assert(t <= big + 8_000_000 + 4);
        assert(big >= 1_000_000_000_000 - 9_000_000);
    }
}

/// Normalize a quaternion; the contract gives the exact result and its
/// distance from unit length.
pub fn qnormalize(q: &Q4) -> (r: Q4)
    requires
        qabs_le(q@, 100_000_000),
    ensures
        r@ == qnormalize_s(q@),
        qabs_le(r@, SCALE as int),
        1_000_000_000_000 - 9_000_000 <= qnorm2_s(r@) <= 1_000_000_000_000 + 5_000_000,
{
    proof {
        lemma_qnormalize_norm(q@);
    }
    let mx: u64 = if q.x < 0 {
        (-q.x) as u64
    } else {
        q.x as u64
    };
    let my: u64 = if q.y < 0 {
        (-q.y) as u64
    } else {
        q.y as u64
    };
    let mz: u64 = if q.z < 0 {
        (-q.z) as u64
    } else {
        q.z as u64
    };
    let mw: u64 = if q.w < 0 {
        (-q.w) as u64
    } else {
        q.w as u64
    };
    proof {
        assert((mx as int) * (mx as int) == q@.x * q@.x && (mx as int) * (mx as int)
            <= 10_000_000_000_000_000) by (nonlinear_arith)
            requires
                mx as int == iabs(q@.x),
                mx as int <= 100_000_000,
        ;
        assert((my as int) * (my as int) == q@.y * q@.y && (my as int) * (my as int)
            <= 10_000_000_000_000_000) by (nonlinear_arith)
            requires
                my as int == iabs(q@.y),
                my as int <= 100_000_000,
        ;
        assert((mz as int) * (mz as int) == q@.z * q@.z && (mz as int) * (mz as int)
            <= 10_000_000_000_000_000) by (nonlinear_arith)
            requires
                mz as int == iabs(q@.z),
                mz as int <= 100_000_000,
        ;
        assert((mw as int) * (mw as int) == q@.w * q@.w && (mw as int) * (mw as int)
            <= 10_000_000_000_000_000) by (nonlinear_arith)
            requires
                mw as int == iabs(q@.w),
                mw as int <= 100_000_000,
        ;
    }
    let s: u128 = (mx as u128) * (mx as u128) + (my as u128) * (my as u128) + (mz as u128) * (
    mz as u128) + (mw as u128) * (mw as u128);
    if s < 250_000_000_000 {
        Q4 { x: 0, y: 0, z: 0, w: SCALE }
    } else {
        let n64 = isqrt(s);
        let ghost ni: int = n64 as int;
        proof {
            lemma_sqrt_floor_bounds(s as int);
            assert(ni <= 200_000_000) by (nonlinear_arith)
                requires
                    ni * ni <= s as int,
                    s as int <= 40_000_000_000_000_000,
                    ni >= 0,
            ;
            assert(iabs(q@.x) <= ni && iabs(q@.y) <= ni && iabs(q@.z) <= ni && iabs(q@.w) <= ni)
                by (nonlinear_arith)
                requires
                    q@.x * q@.x <= s as int,
                    q@.y * q@.y <= s as int,
                    q@.z * q@.z <= s as int,
                    q@.w * q@.w <= s as int,
                    (s as int) < (ni + 1) * (ni + 1),
                    ni >= 0,
            ;
        }
        let n: i64 = n64 as i64;
        let rx = scale_div(q.x, n);
        let ry = scale_div(q.y, n);
        let rz = scale_div(q.z, n);
        let rw = scale_div(q.w, n);
        Q4 { x: rx, y: ry, z: rz, w: rw }
    }
}

} // verus!
