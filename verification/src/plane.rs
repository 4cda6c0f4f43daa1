//! Aircraft state and the per-frame integrator.

use vstd::prelude::*;
use crate::fixed::FX_MAX;
use crate::fixed::SCALE;
use crate::fixed::clamp64;
use crate::fixed::clamp_s;
use crate::fixed::fmul;
use crate::fixed::fmul_s;
use crate::fixed::iabs;
use crate::fixed::isqrt;
use crate::fixed::lemma_fmul_bound;
use crate::fixed::sqrt_floor;
use crate::fixed::tdiv;
use crate::fixed::tdivc;
use crate::quat::Q4;
use crate::quat::Q4s;
use crate::quat::q_identity_s;
use crate::quat::qabs_le;
use crate::quat::qmul;
use crate::quat::qmul_s;
use crate::quat::qnorm2_s;
use crate::quat::qnormalize;
use crate::quat::qnormalize_s;
use crate::quat::rotate;
use crate::quat::rotate_s;
use crate::vec3::V3;
use crate::vec3::V3s;
use crate::vec3::norm2_s;
use crate::vec3::vabs_le;
use crate::vec3::vadd;
use crate::vec3::vadd_s;
use crate::vec3::vdot;
use crate::vec3::vdot_s;
use crate::vec3::vneg;
use crate::vec3::vneg_s;
use crate::vec3::vnorm2;
use crate::vec3::vscale;
use crate::vec3::vscale_s;

verus! {

/// Smallest frame delta the integrator accepts: 1/200 s.
pub const DT_MIN: i64 = 5_000;

/// Largest frame delta the integrator accepts: 1/30 s (rounded up).
pub const DT_MAX: i64 = 33_334;

/// Ground plane height: 2.5 m.
pub const GROUND_Y: i64 = 2_500_000;

/// Discrete control intents sampled once per frame.
pub struct InputState {
    pub roll_left: bool,
    pub roll_right: bool,
    pub pitch_up: bool,
    pub pitch_down: bool,
    pub yaw_left: bool,
    pub yaw_right: bool,
    /// `+1`, `0` or `-1`: raise minus lower.
    pub throttle_delta: i64,
    pub brake: bool,
    pub cockpit: bool,
}

/// Mathematical model of an input snapshot.
pub ghost struct InputS {
    pub roll_left: bool,
    pub roll_right: bool,
    pub pitch_up: bool,
    pub pitch_down: bool,
    pub yaw_left: bool,
    pub yaw_right: bool,
    pub throttle_delta: int,
    pub brake: bool,
    pub cockpit: bool,
}

impl View for InputState {
    type V = InputS;

    open spec fn view(&self) -> InputS {
        InputS {
            roll_left: self.roll_left,
            roll_right: self.roll_right,
            pitch_up: self.pitch_up,
            pitch_down: self.pitch_down,
            yaw_left: self.yaw_left,
            yaw_right: self.yaw_right,
            throttle_delta: self.throttle_delta as int,
            brake: self.brake,
            cockpit: self.cockpit,
        }
    }
}

/// Signed axis from two opposing flags: `positive - negative` over `{0, 1}`.
pub open spec fn axis_s(pos: bool, neg: bool) -> int {
    (if pos {
        1int
    } else {
        0int
    }) - (if neg {
        1int
    } else {
        0int
    })
}

impl InputS {
    /// The snapshot carries a well-formed throttle intent.
    pub open spec fn wf(self) -> bool {
        -1 <= self.throttle_delta <= 1
    }
}

impl InputState {
    /// Build a snapshot from the per-key states, as sampled by the caller.
    /// Each axis flag is taken as given; the throttle intent is the signed
    /// difference of the raise and lower keys.
    pub fn from_keys(
        roll_left: bool,
        roll_right: bool,
        pitch_up: bool,
        pitch_down: bool,
        yaw_left: bool,
        yaw_right: bool,
        throttle_raise: bool,
        throttle_lower: bool,
        brake: bool,
        cockpit: bool,
    ) -> (r: InputState)
        ensures
            r@ == (InputS {
                roll_left,
                roll_right,
                pitch_up,
                pitch_down,
                yaw_left,
                yaw_right,
                throttle_delta: axis_s(throttle_raise, throttle_lower),
                brake,
                cockpit,
            }),
            r@.wf(),
    {
        let delta: i64 = (if throttle_raise {
            1i64
        } else {
            0i64
        }) - (if throttle_lower {
            1i64
        } else {
            0i64
        });
        InputState {
            roll_left,
            roll_right,
            pitch_up,
            pitch_down,
            yaw_left,
            yaw_right,
            throttle_delta: delta,
            brake,
            cockpit,
        }
    }
}

/// Mathematical model of the aircraft state.
pub ghost struct PlaneS {
    pub position: V3s,
    pub velocity: V3s,
    pub orientation: Q4s,
    pub throttle: int,
}

impl PlaneS {
    /// Representation invariant: coordinates small enough for exact
    /// fixed-point arithmetic, throttle clamped, orientation within
    /// rounding error of unit length.
    pub open spec fn wf(self) -> bool {
        &&& vabs_le(self.position, 100_000_000_000_000)
        &&& vabs_le(self.velocity, 4_000_000_000)
        &&& 100_000 <= self.throttle <= 1_400_000
        &&& qabs_le(self.orientation, 1_000_000)
        &&& 1_000_000_000_000 - 9_000_000 <= qnorm2_s(self.orientation) <= 1_000_000_000_000
            + 5_000_000
    }
}

/// New throttle: previous plus the commanded step, clamped to `[0.1, 1.4]`.
pub open spec fn throttle_step_s(t: int, delta: int, dt: int) -> int {
    let step = fmul_s(500_000, dt);
    clamp_s(
        t + (if delta == 1 {
            step
        } else if delta == -1 {
            -step
        } else {
            0int
        }),
        100_000,
        1_400_000,
    )
}

/// Signed rotation angle of one axis for this frame: `axis * rate * dt`.
pub open spec fn angle_s(axis: int, rate: int, dt: int) -> int {
    if axis == 1 {
        fmul_s(rate, dt)
    } else if axis == -1 {
        -fmul_s(rate, dt)
    } else {
        0int
    }
}

/// Third-order small-angle sine, on a half-angle.
pub open spec fn sin_app_s(h: int) -> int {
    h - tdiv(fmul_s(fmul_s(h, h), h), 6)
}

/// Second-order small-angle cosine, on a half-angle.
pub open spec fn cos_app_s(h: int) -> int {
    (SCALE as int) - tdiv(fmul_s(h, h), 2)
}

pub open spec fn quat_x_s(a: int) -> Q4s {
    Q4s { x: sin_app_s(tdiv(a, 2)), y: 0, z: 0, w: cos_app_s(tdiv(a, 2)) }
}

pub open spec fn quat_y_s(a: int) -> Q4s {
    Q4s { x: 0, y: sin_app_s(tdiv(a, 2)), z: 0, w: cos_app_s(tdiv(a, 2)) }
}

pub open spec fn quat_z_s(a: int) -> Q4s {
    Q4s { x: 0, y: 0, z: sin_app_s(tdiv(a, 2)), w: cos_app_s(tdiv(a, 2)) }
}

/// Rotation increment for this frame: pitch about local X, then yaw about
/// local Y, then roll about local Z.
pub open spec fn delta_rot_s(pa: int, ya: int, ra: int) -> Q4s {
    qmul_s(qmul_s(quat_x_s(pa), quat_y_s(ya)), quat_z_s(ra))
}

/// The velocity after this frame's forces, before the ground clamp:
/// thrust toward the commanded airspeed, lift, drag and gravity, integrated
/// over `dt`.
pub open spec fn vel_after_s(s: PlaneS, dt: int, inp: InputS) -> V3s {
    let throttle = throttle_step_s(s.throttle, inp.throttle_delta, dt);
    let target_speed = 12_000_000 + fmul_s(118_000_000, throttle);
    let forward = rotate_s(s.orientation, V3s { x: 0, y: 0, z: -1_000_000 });
    let upv = rotate_s(s.orientation, V3s { x: 0, y: 1_000_000, z: 0 });
    let saf = vdot_s(s.velocity, forward);
    let thrust = vscale_s(vscale_s(forward, target_speed - saf), 14_000_000);
    let sp = sqrt_floor(norm2_s(s.velocity));
    let speed = if sp < 1_000_000 {
        1_000_000int
    } else {
        sp
    };
    let fy = iabs(forward.y);
    let ff = if fy < 80_000 {
        80_000int
    } else {
        fy
    };
    let lift = vscale_s(upv, fmul_s(fmul_s(fmul_s(speed, speed), 11_500_000), ff));
    let drag = vscale_s(vscale_s(vneg_s(s.velocity), speed), 80_000);
    let gravity = V3s { x: 0, y: -9_810_000, z: 0 };
    let net = vadd_s(vadd_s(vadd_s(thrust, lift), drag), gravity);
    vadd_s(s.velocity, vscale_s(net, dt))
}

/// The whole frame step, as one function of the previous state, the frame
/// delta and the input snapshot.
pub open spec fn update_spec(s: PlaneS, dt: int, inp: InputS) -> PlaneS {
    let yaw_input = axis_s(inp.yaw_left, inp.yaw_right);
    let pitch_input = axis_s(inp.pitch_up, inp.pitch_down);
    let roll_input = axis_s(inp.roll_right, inp.roll_left);
    let throttle = throttle_step_s(s.throttle, inp.throttle_delta, dt);
    let vel1 = vel_after_s(s, dt, inp);
    let pos1 = vadd_s(s.position, vscale_s(vel1, dt));
    let dq = delta_rot_s(
        angle_s(pitch_input, 900_000, dt),
        angle_s(yaw_input, 400_000, dt),
        angle_s(roll_input, 1_400_000, dt),
    );
    let ori = qnormalize_s(qmul_s(s.orientation, dq));
    if pos1.y < (GROUND_Y as int) {
        PlaneS {
            position: V3s { x: pos1.x, y: GROUND_Y as int, z: pos1.z },
            velocity: V3s {
                x: vel1.x,
                y: if vel1.y < 0 {
                    0int
                } else {
                    vel1.y
                },
                z: vel1.z,
            },
            orientation: ori,
            throttle,
        }
    } else {
        PlaneS { position: pos1, velocity: vel1, orientation: ori, throttle }
    }
}

/// Braking, applied while the brake is held: above speed 1 the velocity is
/// scaled by `clamp(1 - 5*dt, 0, 0.95)`; at or below speed 1 it is left
/// alone.
pub open spec fn brake_spec(s: PlaneS, dt: int) -> PlaneS {
    if norm2_s(s.velocity) > 1_000_000_000_000 {
        PlaneS {
            position: s.position,
            velocity: vscale_s(s.velocity, clamp_s(1_000_000 - 5 * dt, 0, 950_000)),
            orientation: s.orientation,
            throttle: s.throttle,
        }
    } else {
        s
    }
}

/// The aircraft: position, velocity, orientation, throttle.
pub struct Plane {
    pub position: V3,
    pub velocity: V3,
    pub orientation: Q4,
    pub throttle: i64,
}

impl View for Plane {
    type V = PlaneS;

    open spec fn view(&self) -> PlaneS {
        PlaneS {
            position: self.position@,
            velocity: self.velocity@,
            orientation: self.orientation@,
            throttle: self.throttle as int,
        }
    }
}

/// Signed axis from two opposing flags.
fn axis(pos: bool, neg: bool) -> (r: i64)
    ensures
        r as int == axis_s(pos, neg),
        -1 <= r <= 1,
{
    (if pos {
        1i64
    } else {
        0i64
    }) - (if neg {
        1i64
    } else {
        0i64
    })
}

/// Small-angle sine of a half-angle.
fn sin_app(h: i64) -> (r: i64)
    requires
        iabs(h as int) <= 25_000,
    ensures
        r as int == sin_app_s(h as int),
        iabs(r as int) <= 25_020,
{
    proof {
        lemma_fmul_bound(h as int, h as int, 25_000, 25_000);
    }
    let h2 = fmul(h, h);
    proof {
        lemma_fmul_bound(h2 as int, h as int, 625, 25_000);
    }
    let h3 = fmul(h2, h);
    let c = tdivc(h3, 6);
    h - c
}

/// Small-angle cosine of a half-angle.
fn cos_app(h: i64) -> (r: i64)
    requires
        iabs(h as int) <= 25_000,
    ensures
        r as int == cos_app_s(h as int),
        999_000 <= r <= 1_000_000,
{
    proof {
        lemma_fmul_bound(h as int, h as int, 25_000, 25_000);
        assert(h as int * h as int >= 0) by (nonlinear_arith);
    }
    let h2 = fmul(h, h);
    proof {
        assert(h2 as int >= 0);
        assert(tdiv(h2 as int, 2) >= 0);
    }
    let c = tdivc(h2, 2);
    SCALE - c
}

/// Quaternion for a small rotation about the local X axis.
fn quat_x(a: i64) -> (r: Q4)
    requires
        iabs(a as int) <= 50_000,
    ensures
        r@ == quat_x_s(a as int),
        qabs_le(r@, 1_000_000),
{
    let h = tdivc(a, 2);
    Q4 { x: sin_app(h), y: 0, z: 0, w: cos_app(h) }
}

/// Quaternion for a small rotation about the local Y axis.
fn quat_y(a: i64) -> (r: Q4)
    requires
        iabs(a as int) <= 50_000,
    ensures
        r@ == quat_y_s(a as int),
        qabs_le(r@, 1_000_000),
{
    let h = tdivc(a, 2);
    Q4 { x: 0, y: sin_app(h), z: 0, w: cos_app(h) }
}

/// Quaternion for a small rotation about the local Z axis.
fn quat_z(a: i64) -> (r: Q4)
    requires
        iabs(a as int) <= 50_000,
    ensures
        r@ == quat_z_s(a as int),
        qabs_le(r@, 1_000_000),
{
    let h = tdivc(a, 2);
    Q4 { x: 0, y: 0, z: sin_app(h), w: cos_app(h) }
}

/// Signed per-frame rotation angle for one axis.
fn rate_angle(axis_v: i64, rate: i64, dt: i64) -> (r: i64)
    requires
        -1 <= axis_v <= 1,
        0 < rate <= 1_400_000,
        DT_MIN <= dt <= DT_MAX,
    ensures
        r as int == angle_s(axis_v as int, rate as int, dt as int),
        iabs(r as int) <= 50_000,
{
    proof {
        lemma_fmul_bound(rate as int, dt as int, 1_400_000, 33_334);
    }
    let step = fmul(rate, dt);
    if axis_v == 1 {
        step
    } else if axis_v == -1 {
        -step
    } else {
        0
    }
}

impl Plane {
    /// The aircraft at the start of a run: 90 m up, flying level at 50 m/s
    /// toward -Z, throttle at 70%.
    pub fn new() -> (r: Plane)
        ensures
            r@.position == (V3s { x: 0, y: 90_000_000, z: 0 }),
            r@.velocity == (V3s { x: 0, y: 0, z: -50_000_000 }),
            r@.orientation == q_identity_s(),
            r@.throttle == 700_000,
            r@.wf(),
    {
        let p = Plane {
            position: V3 { x: 0, y: 90_000_000, z: 0 },
            velocity: V3 { x: 0, y: 0, z: -50_000_000 },
            orientation: Q4 { x: 0, y: 0, z: 0, w: SCALE },
            throttle: 700_000,
        };
        proof {
            assert(p@.orientation.w * p@.orientation.w == 1_000_000_000_000) by (nonlinear_arith)
                requires
                    p@.orientation.w == 1_000_000,
            ;
        }
        p
    }

    /// The local forward axis `(0, 0, -1)` carried to world space.
    pub fn forward(&self) -> (r: V3)
        requires
            qabs_le(self@.orientation, 1_100_000),
        ensures
            r@ == rotate_s(self@.orientation, V3s { x: 0, y: 0, z: -1_000_000 }),
            vabs_le(r@, 18_000_000),
    {
        rotate(&self.orientation, &V3 { x: 0, y: 0, z: -1_000_000 })
    }

    /// The local right axis `(1, 0, 0)` carried to world space.
    pub fn right(&self) -> (r: V3)
        requires
            qabs_le(self@.orientation, 1_100_000),
        ensures
            r@ == rotate_s(self@.orientation, V3s { x: 1_000_000, y: 0, z: 0 }),
            vabs_le(r@, 18_000_000),
    {
        rotate(&self.orientation, &V3 { x: 1_000_000, y: 0, z: 0 })
    }

    /// The local up axis `(0, 1, 0)` carried to world space.
    pub fn up(&self) -> (r: V3)
        requires
            qabs_le(self@.orientation, 1_100_000),
        ensures
            r@ == rotate_s(self@.orientation, V3s { x: 0, y: 1_000_000, z: 0 }),
            vabs_le(r@, 18_000_000),
    {
        rotate(&self.orientation, &V3 { x: 0, y: 1_000_000, z: 0 })
    }

    /// One frame of the integrator: throttle, forces, semi-implicit Euler,
    /// attitude increment, ground clamp.  The result is exactly
    /// `update_spec` of the previous state; the throttle stays clamped, the
    /// orientation stays within rounding error of unit length, and the
    /// aircraft never ends a frame below the ground plane.
    #[verifier::rlimit(100)]
    pub fn update(&mut self, dt: i64, input: &InputState)
        requires
            old(self)@.wf(),
            DT_MIN <= dt <= DT_MAX,
            input@.wf(),
        ensures
            final(self)@ == update_spec(old(self)@, dt as int, input@),
            100_000 <= final(self)@.throttle <= 1_400_000,
            qabs_le(final(self)@.orientation, 1_000_000),
            1_000_000_000_000 - 9_000_000 <= qnorm2_s(final(self)@.orientation)
                <= 1_000_000_000_000 + 5_000_000,
            final(self)@.position.y >= GROUND_Y as int,
    {
        let yaw_input = axis(input.yaw_left, input.yaw_right);
        let pitch_input = axis(input.pitch_up, input.pitch_down);
        let roll_input = axis(input.roll_right, input.roll_left);

        // Throttle.
        proof {
            lemma_fmul_bound(500_000, dt as int, 500_000, 33_334);
        }
        let step = fmul(500_000, dt);
        let dthrottle: i64 = if input.throttle_delta == 1 {
            step
        } else if input.throttle_delta == -1 {
            -step
        } else {
            0
        };
        let throttle = clamp64(self.throttle + dthrottle, 100_000, 1_400_000);

        // Forces.
        proof {
            lemma_fmul_bound(118_000_000, throttle as int, 118_000_000, 1_400_000);
        }
        let target_speed = 12_000_000 + fmul(118_000_000, throttle);
        let forward = rotate(&self.orientation, &V3 { x: 0, y: 0, z: -1_000_000 });
        let upv = rotate(&self.orientation, &V3 { x: 0, y: 1_000_000, z: 0 });
        let saf = vdot(&self.velocity, &forward, Ghost(4_000_000_000), Ghost(18_000_000));
        let th1 = vscale(&forward, target_speed - saf, Ghost(18_000_000), Ghost(217_000_000_000));
        let thrust = vscale(&th1, 14_000_000, Ghost(3_906_000_000_000), Ghost(14_000_000));

        let n2v = vnorm2(&self.velocity);
        proof {
            assert(self@.velocity.x * self@.velocity.x <= 16_000_000_000_000_000_000
                && self@.velocity.y * self@.velocity.y <= 16_000_000_000_000_000_000
                && self@.velocity.z * self@.velocity.z <= 16_000_000_000_000_000_000)
                by (nonlinear_arith)
                requires
                    iabs(self@.velocity.x) <= 4_000_000_000,
                    iabs(self@.velocity.y) <= 4_000_000_000,
                    iabs(self@.velocity.z) <= 4_000_000_000,
            ;
        }
        let sp0 = isqrt(n2v);
        proof {
            assert(sp0 as int <= 7_000_000_000) by (nonlinear_arith)
                requires
                    (sp0 as int) * (sp0 as int) <= 48_000_000_000_000_000_000,
                    sp0 as int >= 0,
            ;
        }
        let speed: i64 = if sp0 < 1_000_000 {
            1_000_000
        } else {
            sp0 as i64
        };

        proof {
            lemma_fmul_bound(speed as int, speed as int, 7_000_000_000, 7_000_000_000);
        }
        let l1 = fmul(speed, speed);
        proof {
            lemma_fmul_bound(l1 as int, 11_500_000, 49_000_000_000_000, 11_500_000);
        }
        let l2 = fmul(l1, 11_500_000);
        let fy_abs: i64 = if forward.y < 0 {
            -forward.y
        } else {
            forward.y
        };
        let ff: i64 = if fy_abs < 80_000 {
            80_000
        } else {
            fy_abs
        };
        proof {
            lemma_fmul_bound(l2 as int, ff as int, 563_500_000_000_000, 18_000_000);
        }
        let l3 = fmul(l2, ff);
        let lift = vscale(&upv, l3, Ghost(18_000_000), Ghost(10_143_000_000_000_000));

        let nvel = vneg(&self.velocity);
        let d1 = vscale(&nvel, speed, Ghost(4_000_000_000), Ghost(7_000_000_000));
        let drag = vscale(&d1, 80_000, Ghost(28_000_000_000_000), Ghost(80_000));

        let gravity = V3 { x: 0, y: -9_810_000, z: 0 };
        let net1 = vadd(&thrust, &lift);
        let net2 = vadd(&net1, &drag);
        let net = vadd(&net2, &gravity);

        // Semi-implicit Euler.
        let dv = vscale(&net, dt, Ghost(190_000_000_000_000_000), Ghost(33_334));
        let vel1 = vadd(&self.velocity, &dv);
        let dp = vscale(&vel1, dt, Ghost(6_340_000_000_000_000), Ghost(33_334));
        let pos1 = vadd(&self.position, &dp);

        // Attitude increment.
        let pa = rate_angle(pitch_input, 900_000, dt);
        let ya = rate_angle(yaw_input, 400_000, dt);
        let ra = rate_angle(roll_input, 1_400_000, dt);
        let qx = quat_x(pa);
        let qy = quat_y(ya);
        let qz = quat_z(ra);
        let q1 = qmul(&qx, &qy, Ghost(1_000_000), Ghost(1_000_000));
        let dq = qmul(&q1, &qz, Ghost(4_000_000), Ghost(1_000_000));
        let ori1 = qmul(&self.orientation, &dq, Ghost(1_000_000), Ghost(16_000_000));
        let ori = qnormalize(&ori1);

        // Ground clamp.
        if pos1.y < GROUND_Y {
            self.position = V3 { x: pos1.x, y: GROUND_Y, z: pos1.z };
            self.velocity = V3 {
                x: vel1.x,
                y: if vel1.y < 0 {
                    0
                } else {
                    vel1.y
                },
                z: vel1.z,
            };
        } else {
            self.position = pos1;
            self.velocity = vel1;
        }
        self.orientation = ori;
        self.throttle = throttle;
    }
}

/// Braking, invoked by the frame loop only while the brake key is held.
pub fn apply_brake(plane: &mut Plane, dt: i64)
    requires
        vabs_le(old(plane)@.velocity, FX_MAX as int),
        DT_MIN <= dt <= DT_MAX,
    ensures
        final(plane)@ == brake_spec(old(plane)@, dt as int),
{
    let n2 = vnorm2(&plane.velocity);
    if n2 > 1_000_000_000_000u128 {
        let f = clamp64(1_000_000 - 5 * dt, 0, 950_000);
        let v = vscale(
            &plane.velocity,
            f,
            Ghost(9_223_372_036_854_775_807),
            Ghost(950_000),
        );
        plane.velocity = v;
    }
}

} // verus!
