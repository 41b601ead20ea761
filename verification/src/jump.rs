//! The five-state vertical-motion controller.

use vstd::prelude::*;

use crate::fx::{fx_mul, fx_mul_spec, fx_pow, fx_pow_spec, FX_ONE};
use crate::settings::PlayerMovementSettings;
use crate::vec2::{lemma_fx_mul_abs_bound, Vec2};

verus! {

/// What the vertical controller decided this tick.
#[derive(Clone, Copy, Debug, PartialEq, Eq, Structural)]
pub enum JumpStatus {
    /// Grounded on an upward surface, jump input not held.
    CanJump,
    /// Grounded on an upward surface, jump input held: jump now.
    InitiateJump,
    /// Airborne, rising, still inside a held self-initiated jump.
    GoingUp,
    /// Airborne, rising, but the jump is over: brake the rise.
    StoppingUp,
    /// Airborne and descending.
    GoingDown,
}

/// Whether a standing surface exists and faces upward.
pub open spec fn grounded_up_spec(standing_on: Option<Vec2>) -> bool {
    match standing_on {
        Some(n) => n.y > 0,
        None => false,
    }
}

/// The transition rule: surface, jump input, jump memory and the sign of
/// the vertical velocity pick the state.
pub open spec fn jump_status_spec(standing_on: Option<Vec2>, jump_held: bool, mid_jump: bool, vy: int) -> JumpStatus {
    if grounded_up_spec(standing_on) {
        if jump_held {
            JumpStatus::InitiateJump
        } else {
            JumpStatus::CanJump
        }
    } else if vy >= 0 {
        if jump_held && mid_jump {
            JumpStatus::GoingUp
        } else {
            JumpStatus::StoppingUp
        }
    } else {
        JumpStatus::GoingDown
    }
}

pub fn classify_jump(standing_on: Option<Vec2>, jump_held: bool, mid_jump: bool, vy: i64) -> (r: JumpStatus)
    ensures
        r == jump_status_spec(standing_on, jump_held, mid_jump, vy as int),
{
    let grounded_up: bool = match standing_on {
        Some(n) => n.y > 0,
        None => false,
    };
    if grounded_up {
        if jump_held {
            JumpStatus::InitiateJump
        } else {
            JumpStatus::CanJump
        }
    } else if vy >= 0 {
        if jump_held && mid_jump {
            JumpStatus::GoingUp
        } else {
            JumpStatus::StoppingUp
        }
    } else {
        JumpStatus::GoingDown
    }
}

/// The per-tick fall amplification: the boost coefficient raised to the
/// tick length. The true value never exceeds the coefficient itself, which
/// is at most two; the clamp imposes that bound on the computed value too.
pub open spec fn fall_factor_spec(c: int, dt: int) -> int {
    let f = fx_pow_spec(c, dt);
    if f > 2 * FX_ONE as int {
        2 * FX_ONE as int
    } else {
        f
    }
}

/// What one tick of the vertical controller does: the new vertical
/// velocity, the new jump memory, and the upward impulse it asked the
/// physics engine to apply (zero in all states but `InitiateJump`).
pub open spec fn jump_outcome_spec(status: JumpStatus, vy: int, dt: int, inv_mass: int, s: PlayerMovementSettings) -> (int, bool, int) {
    match status {
        JumpStatus::CanJump => (vy, false, 0),
        JumpStatus::InitiateJump => (
            vy + fx_mul_spec(s.jump_power_coefficient as int, inv_mass),
            true,
            s.jump_power_coefficient as int,
        ),
        JumpStatus::GoingUp => (vy, true, 0),
        JumpStatus::StoppingUp => {
            let braked = fx_mul_spec(vy, fx_pow_spec(s.jump_brake_coefficient as int, dt));
            let shaped = if braked < s.start_fall_before_peak as int {
                braked - fx_mul_spec(s.start_of_fall_gravity_boost as int, dt)
            } else {
                braked
            };
            (shaped, false, 0)
        }
        JumpStatus::GoingDown => {
            let shaped = if -(s.start_of_fall_range as int) < vy {
                vy - fx_mul_spec(s.start_of_fall_gravity_boost as int, dt)
            } else {
                fx_mul_spec(vy, fall_factor_spec(s.fall_boost_coefficient as int, dt))
            };
            (shaped, false, 0)
        }
    }
}

/// Applies the decided state to the velocity. An initiated jump adds its
/// impulse scaled by the inverse mass, as the physics engine would; the
/// airborne states shape the vertical speed in place.
pub fn apply_jump(status: JumpStatus, velocity: &mut Vec2, dt: i64, inv_mass: i64, settings: &PlayerMovementSettings) -> (r: (bool, Vec2))
    requires
        settings.wf(),
        0 < dt <= FX_ONE,
        0 <= inv_mass <= 16 * FX_ONE,
        -0x100_0000_0000 <= old(velocity).y <= 0x100_0000_0000,
    ensures
        final(velocity).x == old(velocity).x,
        ({
            let (vy, mid, jy) = jump_outcome_spec(status, old(velocity).y as int, dt as int, inv_mass as int, *settings);
            final(velocity).y as int == vy && r.0 == mid && r.1.y as int == jy
        }),
        r.1.x == 0,
        -0x300_0000_0000 <= final(velocity).y <= 0x300_0000_0000,
{
    match status {
        JumpStatus::CanJump => (false, Vec2 { x: 0, y: 0 }),
        JumpStatus::InitiateJump => {
            proof {
                assert(settings.jump_power_coefficient as int * inv_mass as int
                    <= 0x4000_0000_0000_0000) by (nonlinear_arith)
                    requires 0 <= settings.jump_power_coefficient as int <= 131072000,
                        0 <= inv_mass as int <= 1048576;
                lemma_fx_mul_abs_bound(settings.jump_power_coefficient as int, inv_mass as int, 131072000, 1048576);
                assert((131072000 as int * 1048576) / (FX_ONE as int) == 2097152000) by (nonlinear_arith);
            }
            let delta: i64 = fx_mul(settings.jump_power_coefficient, inv_mass);
            velocity.y = velocity.y + delta;
            (true, Vec2 { x: 0, y: settings.jump_power_coefficient })
        }
        JumpStatus::GoingUp => (true, Vec2 { x: 0, y: 0 }),
        JumpStatus::StoppingUp => {
            let bf: i64 = fx_pow(settings.jump_brake_coefficient, dt);
            proof {
                assert(velocity.y as int * bf as int <= 0x4000_0000_0000_0000
                    && -0x4000_0000_0000_0000 <= velocity.y as int * bf as int) by (nonlinear_arith)
                    requires -0x100_0000_0000 <= velocity.y as int <= 0x100_0000_0000,
                        0 <= bf as int <= 65536;
                lemma_fx_mul_abs_bound(velocity.y as int, bf as int, 0x100_0000_0000, 65536);
                assert((0x100_0000_0000 as int * 65536) / (FX_ONE as int) == 0x100_0000_0000) by (nonlinear_arith);
            }
            let braked: i64 = fx_mul(velocity.y, bf);
            if braked < settings.start_fall_before_peak {
                proof {
                    lemma_fx_mul_abs_bound(settings.start_of_fall_gravity_boost as int, dt as int, 6553600, 65536);
                    assert((6553600 as int * 65536) / (FX_ONE as int) == 6553600) by (nonlinear_arith);
                }
                velocity.y = braked - fx_mul(settings.start_of_fall_gravity_boost, dt);
            } else {
                velocity.y = braked;
            }
            (false, Vec2 { x: 0, y: 0 })
        }
        JumpStatus::GoingDown => {
            if -settings.start_of_fall_range < velocity.y {
                proof {
                    lemma_fx_mul_abs_bound(settings.start_of_fall_gravity_boost as int, dt as int, 6553600, 65536);
                    assert((6553600 as int * 65536) / (FX_ONE as int) == 6553600) by (nonlinear_arith);
                }
                velocity.y = velocity.y - fx_mul(settings.start_of_fall_gravity_boost, dt);
            } else {
                let ff: i64 = fx_pow(settings.fall_boost_coefficient, dt);
                let ffc: i64 = if ff > 2 * FX_ONE {
                    2 * FX_ONE
                } else {
                    ff
                };
                proof {
                    assert(velocity.y as int * ffc as int <= 0x4000_0000_0000_0000
                        && -0x4000_0000_0000_0000 <= velocity.y as int * ffc as int) by (nonlinear_arith)
                        requires -0x100_0000_0000 <= velocity.y as int <= 0x100_0000_0000,
                            0 <= ffc as int <= 131072;
                    lemma_fx_mul_abs_bound(velocity.y as int, ffc as int, 0x100_0000_0000, 131072);
                    assert((0x100_0000_0000 as int * 131072) / (FX_ONE as int) == 0x200_0000_0000) by (nonlinear_arith);
                }
                velocity.y = fx_mul(velocity.y, ffc);
            }
            (false, Vec2 { x: 0, y: 0 })
        }
    }
}

} // verus!
