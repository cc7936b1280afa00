use agentic_robot::motor::MotorController;
use agentic_robot::speed::{apply_dead_zone, clamp_limit, Speed};

fn speed(v: f32) -> Speed {
    Speed::from_bits(v.to_bits())
}

fn value(s: Speed) -> f32 {
    f32::from_bits(s.bits)
}

#[test]
fn motor_controller_initializes() {
    let ctrl = MotorController::new((), speed(0.8));
    assert!((value(ctrl.max_speed()) - 0.8).abs() < f32::EPSILON);
}

#[test]
fn drive_respects_max_speed() {
    let ctrl = MotorController::new((), speed(0.8));
    let (l, r) = ctrl.drive(speed(1.0), speed(1.0));
    assert_eq!(value(l), 0.8);
    assert_eq!(value(r), 0.8);
}

#[test]
fn max_speed_clamped_to_valid_range() {
    let ctrl = MotorController::new((), speed(2.0));
    assert!((value(ctrl.max_speed()) - 1.0).abs() < f32::EPSILON);

    let ctrl = MotorController::new((), speed(0.2));
    assert!((value(ctrl.max_speed()) - 0.5).abs() < f32::EPSILON);
}

#[test]
fn dead_zone_prevents_low_speed() {
    let max = speed(0.8);
    assert!(value(apply_dead_zone(speed(0.3), max)).abs() < f32::EPSILON);
    assert!(value(apply_dead_zone(speed(-0.3), max)).abs() < f32::EPSILON);
    assert!(value(apply_dead_zone(speed(0.49), max)).abs() < f32::EPSILON);

    assert!((value(apply_dead_zone(speed(0.6), max)) - 0.6).abs() < f32::EPSILON);
    assert!((value(apply_dead_zone(speed(-0.7), max)) - (-0.7)).abs() < f32::EPSILON);
    assert!((value(apply_dead_zone(speed(0.9), max)) - 0.8).abs() < f32::EPSILON);
    assert!((value(apply_dead_zone(speed(-0.9), max)) - (-0.8)).abs() < f32::EPSILON);
}

/// Every value agrees with `f32` arithmetic: dead zone, then clamp.
#[test]
fn dead_zone_matches_float_semantics() {
    let samples = [
        0.0f32, -0.0, 0.1, -0.1, 0.4999, -0.4999, 0.5, -0.5, 0.6, -0.6, 0.8, -0.8, 0.95, -0.95,
        1.0, -1.0, 3.5, -3.5, f32::INFINITY, f32::NEG_INFINITY, f32::MIN_POSITIVE, f32::MAX,
    ];
    for max in [0.5f32, 0.7, 0.8, 1.0] {
        for v in samples {
            let expected = if v.abs() < 0.5 {
                0.0f32
            } else if v > 0.0 {
                v.clamp(0.5, max)
            } else {
                v.clamp(-max, -0.5)
            };
            let got = apply_dead_zone(speed(v), speed(max));
            assert_eq!(got.bits, expected.to_bits(), "v = {v}, max = {max}");
        }
    }
}

#[test]
fn dead_zone_passes_nan_through() {
    let nan = speed(f32::NAN);
    assert!(value(apply_dead_zone(nan, speed(0.8))).is_nan());
}

#[test]
fn clamp_limit_matches_float_clamp() {
    for m in [-2.0f32, -0.0, 0.0, 0.2, 0.5, 0.8, 1.0, 1.5, f32::INFINITY] {
        assert_eq!(clamp_limit(speed(m)).bits, m.clamp(0.5, 1.0).to_bits(), "m = {m}");
    }
    assert!(value(clamp_limit(speed(f32::NAN))).is_nan());
}

#[test]
fn can_drive_requires_a_real_limit_outside_the_zone() {
    let ctrl = MotorController::new((), speed(f32::NAN));
    assert!(ctrl.can_drive(speed(0.2), speed(-0.3)));
    assert!(!ctrl.can_drive(speed(0.6), speed(0.0)));
    let ctrl = MotorController::new((), speed(0.7));
    assert!(ctrl.can_drive(speed(0.6), speed(f32::NAN)));
}

#[test]
fn controller_keeps_its_robot_handle() {
    let ctrl = MotorController::new(42u8, speed(0.8));
    assert_eq!(*ctrl.robot(), 42);
}

#[test]
fn dead_zone_twice_changes_nothing() {
    let max = speed(0.8);
    for v in [0.2f32, 0.55, -0.65, 0.95, -3.0, 0.8, -0.5] {
        let once = apply_dead_zone(speed(v), max);
        let twice = apply_dead_zone(once, max);
        assert_eq!(once.bits, twice.bits, "v = {v}");
    }
}

#[test]
fn dead_zone_is_symmetric() {
    let max = speed(0.7);
    for v in [0.5f32, 0.6, 0.7, 0.9, 5.0] {
        let fwd = value(apply_dead_zone(speed(v), max));
        let back = value(apply_dead_zone(speed(-v), max));
        assert_eq!(fwd, -back, "v = {v}");
    }
}
