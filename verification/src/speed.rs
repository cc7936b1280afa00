//! Motor speeds as IEEE-754 single-precision values.
//!
//! A speed is held by its exact bit pattern, so every value the command line
//! or the socket delivers is represented without loss. The order of the
//! non-NaN values is the order of their sign-magnitude keys, which lets the
//! dead zone and the speed limit be stated and decided with integer logic.

use vstd::prelude::*;

verus! {

/// Bit pattern of the sign bit.
pub const SIGN_BIT: u32 = 0x8000_0000;

/// Bit pattern of positive infinity; magnitudes above it are NaN.
pub const INFINITY_BITS: u32 = 0x7F80_0000;

/// Bit pattern of `0.5`, the minimum speed that can move the robot.
pub const MIN_SPEED_BITS: u32 = 0x3F00_0000;

/// Bit pattern of `1.0`, the largest speed a motor accepts.
pub const ONE_BITS: u32 = 0x3F80_0000;

/// A single-precision value, held as its bit pattern.
#[derive(Clone, Copy, PartialEq, Eq, Structural, Debug)]
pub struct Speed {
    pub bits: u32,
}

impl Speed {
    /// Whether the sign bit is set.
    pub open spec fn negative(self) -> bool {
        self.bits >= SIGN_BIT
    }

    /// The bit pattern without its sign bit.
    pub open spec fn magnitude(self) -> int {
        if self.negative() { self.bits - SIGN_BIT } else { self.bits as int }
    }

    /// Whether the value is a NaN.
    pub open spec fn nan(self) -> bool {
        self.magnitude() > INFINITY_BITS
    }

    /// Integer key whose order is the numeric order of non-NaN values
    /// (`-0.0` and `+0.0` share the key `0`).
    pub open spec fn key(self) -> int {
        if self.negative() { -self.magnitude() } else { self.magnitude() }
    }

    /// The value with its sign bit flipped.
    pub open spec fn negated(self) -> Speed {
        Speed { bits: if self.negative() { (self.bits - SIGN_BIT) as u32 } else { (self.bits + SIGN_BIT) as u32 } }
    }

    /// Wraps a bit pattern.
    pub fn from_bits(bits: u32) -> (s: Speed)
        ensures
            s.bits == bits,
    {
        Speed { bits }
    }

    /// `+0.0`.
    pub fn zero() -> (s: Speed)
        ensures
            s.bits == 0,
    {
        Speed { bits: 0 }
    }

    /// Whether the value is a NaN.
    pub fn is_nan(&self) -> (b: bool)
        ensures
            b == self.nan(),
    {
        let mag = if self.bits >= SIGN_BIT { self.bits - SIGN_BIT } else { self.bits };
        mag > INFINITY_BITS
    }
}

/// `0.5`.
pub open spec fn min_speed() -> Speed {
    Speed { bits: MIN_SPEED_BITS }
}

/// `1.0`.
pub open spec fn one() -> Speed {
    Speed { bits: ONE_BITS }
}

/// A speed limit as the motor controller holds it: between `0.5` and `1.0`.
pub open spec fn valid_limit(max: Speed) -> bool {
    &&& !max.negative()
    &&& MIN_SPEED_BITS <= max.bits <= ONE_BITS
}

/// `max.clamp(0.5, 1.0)`: NaN stays NaN, anything below `0.5` becomes `0.5`,
/// anything above `1.0` becomes `1.0`.
pub open spec fn clamped_limit(max: Speed) -> Speed {
    if max.nan() {
        max
    } else if max.key() < MIN_SPEED_BITS {
        min_speed()
    } else if max.key() > ONE_BITS {
        one()
    } else {
        max
    }
}

/// The dead zone: `|v| < 0.5` becomes `+0.0`; outside it, positive values
/// are clamped into `[0.5, max]` and negative values into `[-max, -0.5]`.
/// A NaN passes through the clamp unchanged.
pub open spec fn dead_zone(v: Speed, max: Speed) -> Speed {
    if v.nan() {
        v
    } else if v.magnitude() < MIN_SPEED_BITS {
        Speed { bits: 0 }
    } else if !v.negative() {
        if v.key() > max.key() { max } else { v }
    } else {
        if v.key() < -max.key() { max.negated() } else { v }
    }
}

/// When the dead zone can be applied without a failed clamp: either the
/// value falls inside the zone, or the limit is at least `0.5`.
pub open spec fn dead_zone_defined(v: Speed, max: Speed) -> bool {
    (!v.nan() && v.magnitude() < MIN_SPEED_BITS) || (!max.nan() && max.key() >= MIN_SPEED_BITS)
}

/// Clamps a requested speed limit into `[0.5, 1.0]` (NaN stays NaN).
pub fn clamp_limit(max: Speed) -> (r: Speed)
    ensures
        r == clamped_limit(max),
{
    if max.is_nan() {
        return max;
    }
    if max.bits >= SIGN_BIT {
        // Every negative value (and -0.0) lies below 0.5.
        return Speed { bits: MIN_SPEED_BITS };
    }
    if max.bits < MIN_SPEED_BITS {
        Speed { bits: MIN_SPEED_BITS }
    } else if max.bits > ONE_BITS {
        Speed { bits: ONE_BITS }
    } else {
        max
    }
}

/// Applies the dead zone and the speed limit to one motor speed.
pub fn apply_dead_zone(value: Speed, max_speed: Speed) -> (r: Speed)
    requires
        dead_zone_defined(value, max_speed),
    ensures
        r == dead_zone(value, max_speed),
{
    if value.is_nan() {
        return value;
    }
    let negative = value.bits >= SIGN_BIT;
    let mag = if negative { value.bits - SIGN_BIT } else { value.bits };
    if mag < MIN_SPEED_BITS {
        return Speed { bits: 0 };
    }
    // max_speed is a non-NaN value of at least 0.5, hence positive.
    if !negative {
        if value.bits > max_speed.bits { max_speed } else { value }
    } else {
        if mag > max_speed.bits { Speed { bits: max_speed.bits + SIGN_BIT } } else { value }
    }
}

/// The clamped limit is a NaN exactly when the request was, and otherwise
/// lies in `[0.5, 1.0]`; clamping it again changes nothing.
pub proof fn lemma_clamped_limit(max: Speed)
    ensures
        clamped_limit(max).nan() <==> max.nan(),
        !max.nan() ==> valid_limit(clamped_limit(max)),
        clamped_limit(clamped_limit(max)) == clamped_limit(max),
{
}

/// Dead zone and speed limit: for a value that is not NaN and a valid limit,
/// the motor receives either `+0.0` (for `|v| < 0.5`) or a value of the same
/// sign whose magnitude lies between `0.5` and the limit.
pub proof fn lemma_dead_zone_output_in_range(v: Speed, max: Speed)
    requires
        !v.nan(),
        valid_limit(max),
    ensures
        v.magnitude() < MIN_SPEED_BITS ==> dead_zone(v, max).bits == 0,
        v.magnitude() >= MIN_SPEED_BITS ==> {
            &&& dead_zone(v, max).negative() == v.negative()
            &&& MIN_SPEED_BITS <= dead_zone(v, max).magnitude() <= max.magnitude()
        },
{
}

/// Values inside the usable band `0.5 <= |v| <= max` reach the motor unchanged.
pub proof fn lemma_dead_zone_keeps_usable(v: Speed, max: Speed)
    requires
        !v.nan(),
        valid_limit(max),
        MIN_SPEED_BITS <= v.magnitude() <= max.magnitude(),
    ensures
        dead_zone(v, max) == v,
{
}

/// Applying the dead zone a second time changes nothing.
pub proof fn lemma_dead_zone_idempotent(v: Speed, max: Speed)
    requires
        valid_limit(max),
    ensures
        dead_zone(dead_zone(v, max), max) == dead_zone(v, max),
{
}

/// Forward and reverse are treated alike: negating a value outside the dead
/// zone negates what the motor receives.
pub proof fn lemma_dead_zone_symmetric(v: Speed, max: Speed)
    requires
        !v.nan(),
        valid_limit(max),
        v.magnitude() >= MIN_SPEED_BITS,
    ensures
        dead_zone(v.negated(), max) == dead_zone(v, max).negated(),
{
}

/// A limit already in the band `[0.5, 1.0]` is kept as it is; a value below
/// `0.5` (negative values and `-0.0` included) becomes exactly `0.5`, and a
/// value above `1.0` exactly `1.0`; a NaN stays the same NaN.
pub proof fn lemma_clamp_keeps_limits_in_band(max: Speed)
    ensures
        max.bits < 0x8000_0000 && 0x3F00_0000 <= max.bits <= 0x3F80_0000 ==> clamped_limit(max) == max,
        max.bits >= 0x8000_0000 && max.bits <= 0xFF80_0000 ==> clamped_limit(max).bits == 0x3F00_0000,
        max.bits < 0x3F00_0000 ==> clamped_limit(max).bits == 0x3F00_0000,
        0x3F80_0000 < max.bits <= 0x7F80_0000 ==> clamped_limit(max).bits == 0x3F80_0000,
        (0x7F80_0000 < max.bits < 0x8000_0000 || 0xFF80_0000 < max.bits) ==> clamped_limit(max) == max,
{
}

/// Under any limit in `[0.5, 1.0]` every pair of speeds can be driven: the
/// dead zone and the clamp to the limit are defined for every value,
/// however large, negative or NaN.
pub proof fn lemma_every_speed_drivable_under_real_limit(v: Speed, max: Speed)
    requires
        max.bits < 0x8000_0000,
        0x3F00_0000 <= max.bits <= 0x3F80_0000,
    ensures
        dead_zone_defined(v, max),
{
}

/// A limit obtained by clamping any request that is not NaN lets every
/// speed be driven.
pub proof fn lemma_clamped_limit_drives_everything(v: Speed, requested: Speed)
    requires
        requested.bits <= 0x7F80_0000 || 0x8000_0000 <= requested.bits <= 0xFF80_0000,
    ensures
        dead_zone_defined(v, clamped_limit(requested)),
{
}

/// A speed beyond the limit reaches the motor at exactly the limit, with its
/// own sign; a NaN is passed on unchanged.
pub proof fn lemma_dead_zone_clamps_to_limit(v: Speed, max: Speed)
    requires
        max.bits < 0x8000_0000,
        0x3F00_0000 <= max.bits <= 0x3F80_0000,
    ensures
        v.nan() ==> dead_zone(v, max) == v,
        !v.nan() && v.magnitude() > max.bits ==> {
            &&& dead_zone(v, max).magnitude() == max.bits
            &&& dead_zone(v, max).negative() == v.negative()
        },
{
}

} // verus!
