//! Tests for the flight-dynamics core, on concrete fixed-point values.

use flight_sim::camera::CameraFrame;
use flight_sim::camera::update_camera;
use flight_sim::plane::InputState;
use flight_sim::plane::Plane;
use flight_sim::plane::apply_brake;
use flight_sim::vec3::V3;

/// One sixtieth of a second, in fixed-point counts.
const DT60: i64 = 16_667;

/// Fixed-point product, rounded toward zero: the reference arithmetic the
/// library is specified against.
fn fx(a: i64, b: i64) -> i64 {
    ((a as i128 * b as i128) / 1_000_000) as i64
}

fn neutral() -> InputState {
    InputState::from_keys(
        false, false, false, false, false, false, false, false, false, false,
    )
}

fn with_throttle_delta(delta: i64) -> InputState {
    InputState::from_keys(
        false,
        false,
        false,
        false,
        false,
        false,
        delta > 0,
        delta < 0,
        false,
        false,
    )
}

fn norm2(v: &V3) -> i128 {
    let x = v.x as i128;
    let y = v.y as i128;
    let z = v.z as i128;
    x * x + y * y + z * z
}

fn qnorm2(p: &Plane) -> i128 {
    let x = p.orientation.x as i128;
    let y = p.orientation.y as i128;
    let z = p.orientation.z as i128;
    let w = p.orientation.w as i128;
    x * x + y * y + z * z + w * w
}

#[test]
fn new_initial_state() {
    let p = Plane::new();
    assert_eq!((p.position.x, p.position.y, p.position.z), (0, 90_000_000, 0));
    assert_eq!((p.velocity.x, p.velocity.y, p.velocity.z), (0, 0, -50_000_000));
    assert_eq!(
        (p.orientation.x, p.orientation.y, p.orientation.z, p.orientation.w),
        (0, 0, 0, 1_000_000)
    );
    assert_eq!(p.throttle, 700_000);
}

#[test]
fn axes_at_identity() {
    let p = Plane::new();
    let f = p.forward();
    let r = p.right();
    let u = p.up();
    assert_eq!((f.x, f.y, f.z), (0, 0, -1_000_000));
    assert_eq!((r.x, r.y, r.z), (1_000_000, 0, 0));
    assert_eq!((u.x, u.y, u.z), (0, 1_000_000, 0));
}

#[test]
fn from_keys_throttle_delta() {
    let raise = InputState::from_keys(
        false, false, false, false, false, false, true, false, false, false,
    );
    assert_eq!(raise.throttle_delta, 1);
    let lower = InputState::from_keys(
        false, false, false, false, false, false, false, true, false, false,
    );
    assert_eq!(lower.throttle_delta, -1);
    let both = InputState::from_keys(
        false, false, false, false, false, false, true, true, false, false,
    );
    assert_eq!(both.throttle_delta, 0);
    let none = neutral();
    assert_eq!(none.throttle_delta, 0);
}

#[test]
fn from_keys_flags() {
    let i = InputState::from_keys(
        true, false, true, false, true, false, false, false, true, true,
    );
    assert!(i.roll_left && !i.roll_right);
    assert!(i.pitch_up && !i.pitch_down);
    assert!(i.yaw_left && !i.yaw_right);
    assert!(i.brake);
    assert!(i.cockpit);
}

#[test]
fn throttle_one_step_exact() {
    let mut p = Plane::new();
    p.update(DT60, &with_throttle_delta(1));
    // 700_000 + (500_000 * 16_667) / 1_000_000 = 700_000 + 8_333.
    assert_eq!(p.throttle, 708_333);
}

#[test]
fn throttle_clamps_at_top() {
    let mut p = Plane::new();
    let up = with_throttle_delta(1);
    for _ in 0..120 {
        p.update(DT60, &up);
        assert!(100_000 <= p.throttle && p.throttle <= 1_400_000);
    }
    assert_eq!(p.throttle, 1_400_000);
}

#[test]
fn throttle_clamps_at_bottom() {
    let mut p = Plane::new();
    let down = with_throttle_delta(-1);
    for _ in 0..120 {
        p.update(DT60, &down);
        assert!(100_000 <= p.throttle && p.throttle <= 1_400_000);
    }
    assert_eq!(p.throttle, 100_000);
}

#[test]
fn orientation_stays_unit_norm() {
    let mut p = Plane::new();
    // Roll and pitch together, a full second.
    let i = InputState::from_keys(
        false, true, true, false, false, false, false, false, false, false,
    );
    for _ in 0..60 {
        p.update(DT60, &i);
        let n2 = qnorm2(&p);
        assert!(1_000_000_000_000 - 9_000_000 <= n2);
        assert!(n2 <= 1_000_000_000_000 + 5_000_000);
    }
}

#[test]
fn ground_floor_after_one_update() {
    let mut p = Plane::new();
    p.position = V3 { x: 0, y: 2_000_000, z: 0 };
    p.velocity = V3 { x: 0, y: -5_000_000, z: -50_000_000 };
    p.update(DT60, &neutral());
    assert!(p.position.y >= 2_500_000);
    assert!(p.velocity.y >= 0);
}

#[test]
fn brake_decays_speed_strictly() {
    let mut p = Plane::new();
    p.velocity = V3 { x: 30_000_000, y: 0, z: 40_000_000 };
    let mut prev = norm2(&p.velocity);
    for _ in 0..200 {
        apply_brake(&mut p, DT60);
        let cur = norm2(&p.velocity);
        if prev > 1_000_000_000_000 {
            assert!(cur < prev);
        } else {
            assert_eq!(cur, prev);
        }
        prev = cur;
    }
    // Two hundred braked frames from 50 m/s end at or below speed one.
    assert!(prev <= 1_000_000_000_000);
}

#[test]
fn brake_below_speed_one_is_inert() {
    let mut p = Plane::new();
    p.velocity = V3 { x: 500_000, y: 0, z: 0 };
    apply_brake(&mut p, DT60);
    assert_eq!((p.velocity.x, p.velocity.y, p.velocity.z), (500_000, 0, 0));
}

#[test]
fn brake_factor_exact() {
    let mut p = Plane::new();
    p.velocity = V3 { x: 10_000_000, y: 0, z: 0 };
    apply_brake(&mut p, DT60);
    // factor = clamp(1_000_000 - 5 * 16_667, 0, 950_000) = 916_665.
    assert_eq!(p.velocity.x, fx(10_000_000, 916_665));
    assert_eq!(p.velocity.x, 9_166_650);
}

/// The golden single-step regression: one neutral update from the initial
/// state matches the force formula applied once.
#[test]
fn golden_single_update() {
    let mut p = Plane::new();
    p.update(DT60, &neutral());

    // Reference computation, from the initial state.
    let target = 12_000_000 + fx(118_000_000, 700_000); // 94_600_000
    let saf = fx(-50_000_000, -1_000_000); // 50_000_000
    let thrust_z = fx(fx(-1_000_000, target - saf), 14_000_000);
    let speed = 50_000_000;
    let l3 = fx(fx(fx(speed, speed), 11_500_000), 80_000);
    let lift_y = fx(1_000_000, l3);
    let drag_z = fx(fx(50_000_000, speed), 80_000);
    let net_y = lift_y - 9_810_000;
    let net_z = thrust_z + drag_z;
    let vy = fx(net_y, DT60);
    let vz = -50_000_000 + fx(net_z, DT60);
    let py = 90_000_000 + fx(vy, DT60);
    let pz = fx(vz, DT60);

    assert_eq!(p.velocity.x, 0);
    assert_eq!(p.velocity.y, vy);
    assert_eq!(p.velocity.z, vz);
    assert_eq!(p.position.x, 0);
    assert_eq!(p.position.y, py);
    assert_eq!(p.position.z, pz);
    assert_eq!(p.throttle, 700_000);
    // With these constants the first frame's lift already exceeds gravity,
    // so the aircraft climbs a little.
    assert!(p.position.y > 90_000_000);
}

/// Holding pitch-up for one second turns the nose up by about
/// `PITCH_RATE * 1 s = 0.9` radians: forward.y approaches sin(0.9).
#[test]
fn pitch_up_one_second() {
    let mut p = Plane::new();
    let i = InputState::from_keys(
        false, false, true, false, false, false, false, false, false, false,
    );
    for _ in 0..60 {
        p.update(DT60, &i);
    }
    let f = p.forward();
    // sin(0.9) = 0.783327 up to integration and rounding error.
    assert!((f.y - 783_327).abs() <= 5_000, "forward.y = {}", f.y);
    assert!(f.z < 0);
    assert_eq!(f.x, 0);
}

/// Control sign conventions: yaw is positive to the left, roll positive to
/// the right.
#[test]
fn control_axis_signs() {
    let mut p = Plane::new();
    let yaw_left = InputState::from_keys(
        false, false, false, false, true, false, false, false, false, false,
    );
    p.update(DT60, &yaw_left);
    assert!(p.orientation.y > 0);

    let mut q = Plane::new();
    let roll_right = InputState::from_keys(
        false, true, false, false, false, false, false, false, false, false,
    );
    q.update(DT60, &roll_right);
    assert!(q.orientation.z > 0);
    // roll angle = 1.4 rad/s for one frame; half-angle sine of 11_666.
    assert!((q.orientation.z - 11_666).abs() <= 10);
}

/// With the commanded target speed equal to the current forward speed the
/// thrust term vanishes: the forward axis is slowed only by drag.
#[test]
fn zero_thrust_at_target_speed() {
    let mut p = Plane::new();
    p.velocity = V3 { x: 0, y: 0, z: -94_600_000 };
    p.update(DT60, &neutral());

    let speed = 94_600_000;
    let drag_z = fx(fx(speed, speed), 80_000);
    let vz = -speed + fx(drag_z, DT60);
    assert_eq!(p.velocity.z, vz);
    assert_eq!(p.velocity.x, 0);
}

#[test]
fn camera_cockpit_frame() {
    let p = Plane::new();
    let mut cam = CameraFrame {
        position: V3 { x: 0, y: 0, z: 0 },
        target: V3 { x: 0, y: 0, z: 0 },
        up: V3 { x: 0, y: 0, z: 0 },
    };
    let i = InputState::from_keys(
        false, false, false, false, false, false, false, false, false, true,
    );
    update_camera(&mut cam, &p, &i);
    assert_eq!((cam.position.x, cam.position.y, cam.position.z), (0, 90_400_000, -1_600_000));
    assert_eq!((cam.target.x, cam.target.y, cam.target.z), (0, 90_300_000, -14_000_000));
    assert_eq!((cam.up.x, cam.up.y, cam.up.z), (0, 1_000_000, 0));
}

#[test]
fn camera_chase_frame() {
    let p = Plane::new();
    let mut cam = CameraFrame {
        position: V3 { x: 0, y: 0, z: 0 },
        target: V3 { x: 0, y: 0, z: 0 },
        up: V3 { x: 0, y: 0, z: 0 },
    };
    update_camera(&mut cam, &p, &neutral());
    assert_eq!(
        (cam.position.x, cam.position.y, cam.position.z),
        (3_000_000, 104_000_000, 32_000_000)
    );
    assert_eq!((cam.target.x, cam.target.y, cam.target.z), (0, 90_000_000, -18_000_000));
    assert_eq!((cam.up.x, cam.up.y, cam.up.z), (0, 1_000_000, 0));
}
