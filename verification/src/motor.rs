//! Motor control with dead-zone protection and a speed limit.
//!
//! The motors have a minimum effective speed of about `0.5`: below it the
//! robot does not move and the motors risk burning. Requested speeds between
//! `-0.5` and `0.5` (exclusive) become a stop; others are clamped to the
//! configured maximum. The controller owns the handle of the robot that the
//! speeds are sent to.

use vstd::prelude::*;
use crate::speed::{Speed, clamped_limit, dead_zone, dead_zone_defined, clamp_limit, apply_dead_zone, valid_limit, lemma_clamped_limit};

verus! {

/// Dead zone and speed limit in front of a robot handle `R`.
pub struct MotorController<R> {
    robot: R,
    max_speed: Speed,
}

impl<R> MotorController<R> {
    /// The limit is a NaN (when one was requested) or lies in `[0.5, 1.0]`.
    #[verifier::type_invariant]
    spec fn limit_in_band(self) -> bool {
        self.max_speed.nan() || valid_limit(self.max_speed)
    }

    /// The speed limit in force.
    pub closed spec fn limit(&self) -> Speed {
        self.max_speed
    }

    /// The robot handle the speeds go to.
    pub closed spec fn handle(&self) -> R {
        self.robot
    }

    /// Wraps a robot handle; the requested limit is clamped into `[0.5, 1.0]`.
    pub fn new(robot: R, max_speed: Speed) -> (c: Self)
        ensures
            c.limit() == clamped_limit(max_speed),
            c.handle() == robot,
    {
        proof {
            lemma_clamped_limit(max_speed);
        }
        MotorController { robot, max_speed: clamp_limit(max_speed) }
    }

    /// The configured speed limit.
    pub fn max_speed(&self) -> (m: Speed)
        ensures
            m == self.limit(),
            m.nan() || valid_limit(m),
    {
        proof {
            use_type_invariant(self);
        }
        self.max_speed
    }

    /// The robot handle.
    pub fn robot(&self) -> (r: &R)
        ensures
            *r == self.handle(),
    {
        &self.robot
    }

    /// The speeds the robot is told to drive at for a requested pair:
    /// each passes through the dead zone and the limit.
    pub fn drive(&self, left: Speed, right: Speed) -> (targets: (Speed, Speed))
        requires
            dead_zone_defined(left, self.limit()),
            dead_zone_defined(right, self.limit()),
        ensures
            targets.0 == dead_zone(left, self.limit()),
            targets.1 == dead_zone(right, self.limit()),
    {
        (apply_dead_zone(left, self.max_speed), apply_dead_zone(right, self.max_speed))
    }

    /// Whether `drive` can take this pair: a value outside the dead zone
    /// needs a limit that is not NaN.
    pub fn can_drive(&self, left: Speed, right: Speed) -> (b: bool)
        ensures
            b == (dead_zone_defined(left, self.limit()) && dead_zone_defined(right, self.limit())),
    {
        usable_with(left, self.max_speed) && usable_with(right, self.max_speed)
    }
}

fn usable_with(v: Speed, max: Speed) -> (b: bool)
    ensures
        b == dead_zone_defined(v, max),
{
    let small = !v.is_nan() && (if v.bits >= 0x8000_0000 { v.bits - 0x8000_0000 } else { v.bits }) < 0x3F00_0000;
    let limit_ok = !max.is_nan() && max.bits < 0x8000_0000 && max.bits >= 0x3F00_0000;
    small || limit_ok
}

} // verus!
