//! Fixed-point 3-vectors.

use vstd::prelude::*;
use crate::fixed::FX_MAX;
use crate::fixed::SCALE;
use crate::fixed::fmul;
use crate::fixed::fmul_s;
use crate::fixed::iabs;
use crate::fixed::lemma_fmul_bound;

verus! {

/// Mathematical model of a vector: three unbounded fixed-point counts.
pub ghost struct V3s {
    pub x: int,
    pub y: int,
    pub z: int,
}

/// A 3-vector of fixed-point coordinates (millionths of a meter, or of a
/// meter per second, and so on).
#[derive(Clone, Copy, Debug)]
pub struct V3 {
    pub x: i64,
    pub y: i64,
    pub z: i64,
}

impl View for V3 {
    type V = V3s;

    open spec fn view(&self) -> V3s {
        V3s { x: self.x as int, y: self.y as int, z: self.z as int }
    }
}

/// Every coordinate of `v` has magnitude at most `b`.
pub open spec fn vabs_le(v: V3s, b: int) -> bool {
    iabs(v.x) <= b && iabs(v.y) <= b && iabs(v.z) <= b
}

pub open spec fn vadd_s(a: V3s, b: V3s) -> V3s {
    V3s { x: a.x + b.x, y: a.y + b.y, z: a.z + b.z }
}

pub open spec fn vneg_s(a: V3s) -> V3s {
    V3s { x: -a.x, y: -a.y, z: -a.z }
}

/// Scale a vector by a fixed-point factor, coordinate by coordinate.
pub open spec fn vscale_s(v: V3s, k: int) -> V3s {
    V3s { x: fmul_s(v.x, k), y: fmul_s(v.y, k), z: fmul_s(v.z, k) }
}

/// Fixed-point dot product.
pub open spec fn vdot_s(a: V3s, b: V3s) -> int {
    fmul_s(a.x, b.x) + fmul_s(a.y, b.y) + fmul_s(a.z, b.z)
}

/// Fixed-point cross product.
pub open spec fn vcross_s(a: V3s, b: V3s) -> V3s {
    V3s {
        x: fmul_s(a.y, b.z) - fmul_s(a.z, b.y),
        y: fmul_s(a.z, b.x) - fmul_s(a.x, b.z),
        z: fmul_s(a.x, b.y) - fmul_s(a.y, b.x),
    }
}

/// Raw squared length: the square of the length in fixed-point counts.
pub open spec fn norm2_s(v: V3s) -> int {
    v.x * v.x + v.y * v.y + v.z * v.z
}

pub fn vadd(a: &V3, b: &V3) -> (r: V3)
    requires
        -FX_MAX <= a@.x + b@.x <= FX_MAX,
        -FX_MAX <= a@.y + b@.y <= FX_MAX,
        -FX_MAX <= a@.z + b@.z <= FX_MAX,
    ensures
        r@ == vadd_s(a@, b@),
{
    V3 { x: a.x + b.x, y: a.y + b.y, z: a.z + b.z }
}

pub fn vneg(a: &V3) -> (r: V3)
    requires
        vabs_le(a@, FX_MAX as int),
    ensures
        r@ == vneg_s(a@),
{
    V3 { x: -a.x, y: -a.y, z: -a.z }
}

pub fn vscale(v: &V3, k: i64, Ghost(vb): Ghost<int>, Ghost(kb): Ghost<int>) -> (r: V3)
    requires
        0 <= vb <= FX_MAX as int,
        0 <= kb <= FX_MAX as int,
        vabs_le(v@, vb),
        iabs(k as int) <= kb,
        vb * kb <= (FX_MAX as int) * (SCALE as int),
    ensures
        r@ == vscale_s(v@, k as int),
        iabs(r@.x) * (SCALE as int) <= vb * kb,
        iabs(r@.y) * (SCALE as int) <= vb * kb,
        iabs(r@.z) * (SCALE as int) <= vb * kb,
{
    proof {
        lemma_fmul_bound(v@.x, k as int, vb, kb);
        lemma_fmul_bound(v@.y, k as int, vb, kb);
        lemma_fmul_bound(v@.z, k as int, vb, kb);
    }
    V3 { x: fmul(v.x, k), y: fmul(v.y, k), z: fmul(v.z, k) }
}

pub fn vdot(a: &V3, b: &V3, Ghost(ab): Ghost<int>, Ghost(bb): Ghost<int>) -> (r: i64)
    requires
        0 <= ab <= FX_MAX as int,
        0 <= bb <= FX_MAX as int,
        vabs_le(a@, ab),
        vabs_le(b@, bb),
        3 * (ab * bb) <= (FX_MAX as int) * (SCALE as int),
    ensures
        r as int == vdot_s(a@, b@),
        iabs(r as int) * (SCALE as int) <= 3 * (ab * bb),
{
    proof {
        lemma_fmul_bound(a@.x, b@.x, ab, bb);
        lemma_fmul_bound(a@.y, b@.y, ab, bb);
        lemma_fmul_bound(a@.z, b@.z, ab, bb);
    }
    let t1 = fmul(a.x, b.x);
    let t2 = fmul(a.y, b.y);
    let t3 = fmul(a.z, b.z);
    t1 + t2 + t3
}

pub fn vcross(a: &V3, b: &V3, Ghost(ab): Ghost<int>, Ghost(bb): Ghost<int>) -> (r: V3)
    requires
        0 <= ab <= FX_MAX as int,
        0 <= bb <= FX_MAX as int,
        vabs_le(a@, ab),
        vabs_le(b@, bb),
        2 * (ab * bb) <= (FX_MAX as int) * (SCALE as int),
    ensures
        r@ == vcross_s(a@, b@),
        iabs(r@.x) * (SCALE as int) <= 2 * (ab * bb),
        iabs(r@.y) * (SCALE as int) <= 2 * (ab * bb),
        iabs(r@.z) * (SCALE as int) <= 2 * (ab * bb),
{
    proof {
        lemma_fmul_bound(a@.y, b@.z, ab, bb);
        lemma_fmul_bound(a@.z, b@.y, ab, bb);
        lemma_fmul_bound(a@.z, b@.x, ab, bb);
        lemma_fmul_bound(a@.x, b@.z, ab, bb);
        lemma_fmul_bound(a@.x, b@.y, ab, bb);
        lemma_fmul_bound(a@.y, b@.x, ab, bb);
    }
    V3 {
        x: fmul(a.y, b.z) - fmul(a.z, b.y),
        y: fmul(a.z, b.x) - fmul(a.x, b.z),
        z: fmul(a.x, b.y) - fmul(a.y, b.x),
    }
}

/// Raw squared length, exactly, in a 128-bit unsigned integer.
pub fn vnorm2(v: &V3) -> (r: u128)
    requires
        vabs_le(v@, FX_MAX as int),
    ensures
        r as int == norm2_s(v@),
{
    let mx: u64 = if v.x < 0 {
        (-v.x) as u64
    } else {
        v.x as u64
    };
    let my: u64 = if v.y < 0 {
        (-v.y) as u64
    } else {
        v.y as u64
    };
    let mz: u64 = if v.z < 0 {
        (-v.z) as u64
    } else {
        v.z as u64
    };
    proof {
        assert((mx as int) * (mx as int) == v@.x * v@.x && (mx as int) * (mx as int)
            <= 85_070_591_730_234_615_847_396_907_784_232_501_249) by (nonlinear_arith)
            requires
                mx as int == iabs(v@.x),
                mx as int <= FX_MAX as int,
        ;
        assert((my as int) * (my as int) == v@.y * v@.y && (my as int) * (my as int)
            <= 85_070_591_730_234_615_847_396_907_784_232_501_249) by (nonlinear_arith)
            requires
                my as int == iabs(v@.y),
                my as int <= FX_MAX as int,
        ;
        assert((mz as int) * (mz as int) == v@.z * v@.z && (mz as int) * (mz as int)
            <= 85_070_591_730_234_615_847_396_907_784_232_501_249) by (nonlinear_arith)
            requires
                mz as int == iabs(v@.z),
                mz as int <= FX_MAX as int,
        ;
    }
    (mx as u128) * (mx as u128) + (my as u128) * (my as u128) + (mz as u128) * (mz as u128)
}

} // verus!
