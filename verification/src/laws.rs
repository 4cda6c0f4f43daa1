//! The library's standing guarantees, each proved once and for all.

use vstd::prelude::*;
use crate::fixed::fmul_s;
use crate::fixed::iabs;
use crate::fixed::tdiv;
use crate::fixed::lemma_fmul_bound;
use crate::plane::GROUND_Y;
use crate::plane::InputS;
use crate::plane::PlaneS;
use crate::plane::brake_spec;
use crate::plane::delta_rot_s;
use crate::plane::throttle_step_s;
use crate::plane::update_spec;
use crate::plane::vel_after_s;
use crate::plane::axis_s;
use crate::quat::qabs_le;
use crate::quat::qmul_s;
use crate::quat::qnorm2_s;
use crate::quat::lemma_qnormalize_norm;
use crate::vec3::norm2_s;

verus! {

/// The throttle after a whole run of frames, each frame a pair of a
/// throttle intent and a frame delta.
pub open spec fn throttle_after_s(t: int, steps: Seq<(int, int)>) -> int
    decreases steps.len(),
{
    if steps.len() == 0 {
        t
    } else {
        throttle_after_s(throttle_step_s(t, steps[0].0, steps[0].1), steps.drop_first())
    }
}

/// Throttle clamp: for every sequence of throttle intents and frame
/// deltas, a throttle that starts within `[0.1, 1.4]` is still within
/// `[0.1, 1.4]` after any number of updates.
pub proof fn lemma_throttle_clamp(t: int, steps: Seq<(int, int)>)
    requires
        100_000 <= t <= 1_400_000,
    ensures
        100_000 <= throttle_after_s(t, steps) <= 1_400_000,
    decreases steps.len(),
{
    if steps.len() == 0 {
    } else {
        let t1 = throttle_step_s(t, steps[0].0, steps[0].1);
        assert(100_000 <= t1 <= 1_400_000);
        lemma_throttle_clamp(t1, steps.drop_first());
    }
}

/// One frame moves the throttle exactly by `throttle_step_s`, and so keeps
/// it clamped.
pub proof fn lemma_update_throttle(s: PlaneS, dt: int, inp: InputS)
    ensures
        update_spec(s, dt, inp).throttle == throttle_step_s(s.throttle, inp.throttle_delta, dt),
        100_000 <= update_spec(s, dt, inp).throttle <= 1_400_000,
{
}

/// Orientation unit norm: after every update the orientation's squared
/// length is within `9 * SCALE` counts of `SCALE^2`, that is, its length is
/// within about `5e-6` of one; and no component exceeds one.
pub proof fn lemma_orientation_unit_norm(s: PlaneS, dt: int, inp: InputS)
    ensures
        qabs_le(update_spec(s, dt, inp).orientation, 1_000_000),
        1_000_000_000_000 - 9_000_000 <= qnorm2_s(update_spec(s, dt, inp).orientation)
            <= 1_000_000_000_000 + 5_000_000,
{
    let dq = delta_rot_s(
        crate::plane::angle_s(axis_s(inp.pitch_up, inp.pitch_down), 900_000, dt),
        crate::plane::angle_s(axis_s(inp.yaw_left, inp.yaw_right), 400_000, dt),
        crate::plane::angle_s(axis_s(inp.roll_right, inp.roll_left), 1_400_000, dt),
    );
    lemma_qnormalize_norm(qmul_s(s.orientation, dq));
}

/// Ground floor: starting below the ground plane with downward velocity,
/// one update ends at or above the ground plane with non-negative vertical
/// velocity.
pub proof fn lemma_ground_floor(s: PlaneS, dt: int, inp: InputS)
    requires
        s.position.y < GROUND_Y as int,
        s.velocity.y < 0,
        0 < dt,
    ensures
        update_spec(s, dt, inp).position.y >= GROUND_Y as int,
        update_spec(s, dt, inp).velocity.y >= 0,
{
    let r = update_spec(s, dt, inp);
    let vel1 = vel_after_s(s, dt, inp);
    let dy = fmul_s(vel1.y, dt);
    let pos1y = s.position.y + dy;
    if pos1y < GROUND_Y as int {
        assert(r.position.y == GROUND_Y as int);
        assert(r.velocity.y >= 0);
    } else {
        assert(r.position.y == pos1y);
        assert(dy > 0);
        if vel1.y <= 0 {
            assert(vel1.y * dt <= 0) by (nonlinear_arith)
                requires
                    vel1.y <= 0,
                    dt > 0,
            ;
            assert(tdiv(vel1.y * dt, 1_000_000) <= 0);
            assert(false);
        }
        assert(r.velocity.y == vel1.y);
    }
}

/// Whatever the inputs, no update ends a frame below the ground plane.
pub proof fn lemma_never_below_ground(s: PlaneS, dt: int, inp: InputS)
    ensures
        update_spec(s, dt, inp).position.y >= GROUND_Y as int,
{
}

/// One scaled velocity coordinate loses at least five percent:
/// from `|b| * SCALE <= |a| * 950_000` it follows that
/// `SCALE^2 * b^2 <= 0.9025 * SCALE^2 * a^2`.
proof fn lemma_braked_coord(a: int, b: int)
    requires
        iabs(b) * 1_000_000 <= iabs(a) * 950_000,
    ensures
        1_000_000_000_000 * (b * b) <= 902_500_000_000 * (a * a),
{
    let ma = iabs(a);
    let mb = iabs(b);
    assert(1_000_000_000_000 * (b * b) <= 902_500_000_000 * (a * a)) by (nonlinear_arith)
        requires
            mb * 1_000_000 <= ma * 950_000,
            (a >= 0 ==> ma == a) && (a < 0 ==> ma == -a),
            (b >= 0 ==> mb == b) && (b < 0 ==> mb == -b),
            0 <= ma,
            0 <= mb,
    ;
}

/// Brake decay: while the speed exceeds one, each braked frame strictly
/// shrinks the squared speed; at or below speed one, braking changes
/// nothing.
pub proof fn lemma_brake_decay(s: PlaneS, dt: int)
    requires
        5_000 <= dt <= 33_334,
    ensures
        norm2_s(s.velocity) > 1_000_000_000_000 ==> norm2_s(brake_spec(s, dt).velocity) < norm2_s(
            s.velocity,
        ),
        norm2_s(s.velocity) <= 1_000_000_000_000 ==> brake_spec(s, dt) == s,
{
    let v = s.velocity;
    let n2 = norm2_s(v);
    if n2 > 1_000_000_000_000 {
        let f = crate::fixed::clamp_s(1_000_000 - 5 * dt, 0, 950_000);
        assert(0 <= f <= 950_000);
        let w = crate::vec3::vscale_s(v, f);
        lemma_fmul_bound(v.x, f, iabs(v.x), 950_000);
        lemma_fmul_bound(v.y, f, iabs(v.y), 950_000);
        lemma_fmul_bound(v.z, f, iabs(v.z), 950_000);
        lemma_braked_coord(v.x, w.x);
        lemma_braked_coord(v.y, w.y);
        lemma_braked_coord(v.z, w.z);
        assert(1_000_000_000_000 * norm2_s(w) <= 902_500_000_000 * n2);
        assert(norm2_s(w) < n2);
    }
}

/// The state after `k` braked frames at a fixed frame delta.
pub open spec fn brake_after_s(s: PlaneS, dt: int, k: nat) -> PlaneS
    decreases k,
{
    if k == 0 {
        s
    } else {
        brake_spec(brake_after_s(s, dt, (k - 1) as nat), dt)
    }
}

/// Holding the brake: at every frame of the run, the squared speed either
/// still exceeds one and strictly shrinks, or is at most one and the state
/// stays unchanged from then on.
pub proof fn lemma_brake_run(s: PlaneS, dt: int, k: nat)
    requires
        5_000 <= dt <= 33_334,
    ensures
        norm2_s(brake_after_s(s, dt, k).velocity) > 1_000_000_000_000 ==> norm2_s(
            brake_after_s(s, dt, k + 1).velocity,
        ) < norm2_s(brake_after_s(s, dt, k).velocity),
        norm2_s(brake_after_s(s, dt, k).velocity) <= 1_000_000_000_000 ==> brake_after_s(
            s,
            dt,
            k + 1,
        ) == brake_after_s(s, dt, k),
{
    lemma_brake_decay(brake_after_s(s, dt, k), dt);
    assert(brake_after_s(s, dt, k + 1) == brake_spec(brake_after_s(s, dt, k), dt));
}

} // verus!
