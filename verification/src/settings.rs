//! The tuning coefficients, snapshotted once per tick.

use vstd::prelude::*;

use crate::fx::FX_ONE;

verus! {

/// The movement coefficients. Each field is a fixed-point value; the
/// tuning collaborator may change them between ticks, within the ranges
/// that `wf` states, and one tick reads one stable snapshot.
#[derive(Clone, Copy, Debug, PartialEq, Eq, Structural)]
pub struct PlayerMovementSettings {
    /// The running speed that counts as full speed, in units per second.
    pub max_speed: i64,
    /// The exponent of the speed-error response curve.
    pub impulse_exponent: i64,
    /// The gain applied to the response, per second.
    pub impulse_coefficient: i64,
    /// The upward velocity delta a jump grants, before inverse-mass scaling.
    pub jump_power_coefficient: i64,
    /// The per-second retention of upward speed once the jump input is
    /// released while still rising; below one, so rising is cut short.
    pub jump_brake_coefficient: i64,
    /// Rising speeds below this bound get the extra downward boost early.
    pub start_fall_before_peak: i64,
    /// Falling speeds smaller than this bound get the extra downward boost.
    pub start_of_fall_range: i64,
    /// The extra downward acceleration near the arc's peak.
    pub start_of_fall_gravity_boost: i64,
    /// The per-second amplification of an established fall; above one.
    pub fall_boost_coefficient: i64,
    /// How fast the stood-on potential decays while airborne, per second.
    pub stood_on_time_coefficient: i64,
    /// The attenuation exponent when pushing along the current travel
    /// direction.
    pub uphill_move_exponent: i64,
    /// The attenuation exponent when pushing against the current travel
    /// direction.
    pub downhill_brake_exponent: i64,
}

impl PlayerMovementSettings {
    /// The documented tuning ranges: every coefficient the tuning
    /// collaborator may set lies inside them.
    pub open spec fn wf(self) -> bool {
        &&& FX_ONE as int <= self.max_speed <= 100 * FX_ONE as int
        &&& FX_ONE as int <= self.impulse_exponent <= 10 * FX_ONE as int
        &&& FX_ONE as int <= self.impulse_coefficient <= 100000 * FX_ONE as int
        &&& FX_ONE as int <= self.jump_power_coefficient <= 2000 * FX_ONE as int
        &&& 0 <= self.jump_brake_coefficient <= FX_ONE as int / 10
        &&& 0 <= self.start_fall_before_peak <= 40 * FX_ONE as int
        &&& 0 <= self.start_of_fall_range <= 40 * FX_ONE as int
        &&& 0 <= self.start_of_fall_gravity_boost <= 100 * FX_ONE as int
        &&& FX_ONE as int <= self.fall_boost_coefficient <= 2 * FX_ONE as int
        &&& FX_ONE as int <= self.stood_on_time_coefficient <= 100 * FX_ONE as int
        &&& FX_ONE as int / 100 <= self.uphill_move_exponent <= 200 * FX_ONE as int
        &&& FX_ONE as int / 100 <= self.downhill_brake_exponent <= 200 * FX_ONE as int
    }
}

} // verus!
