//! Laws of the control law that span more than one function, stated and
//! proved over the same spec functions the contracts use.

use vstd::prelude::*;

use crate::control::{tick_rel, PlayerInput, TickImpulses};
use crate::fx::{
    fx_mul_spec, fx_pow_spec, lemma_fx_mul_mono, lemma_fx_mul_nonneg, lemma_fx_mul_unit,
    lemma_fx_pow_le_one, lemma_fx_pow_mono, lemma_fx_pow_zero_base, FX_ONE,
};
use crate::jump::{grounded_up_spec, jump_outcome_spec, jump_status_spec, JumpStatus};
use crate::movement::{current_speed_spec, UPHILL_MIN};
use crate::settings::PlayerMovementSettings;
use crate::slope::decayed_potential_spec;
use crate::state::PlayerControl;
use crate::vec2::Vec2;

verus! {

/// The stood-on potential left after a run of airborne ticks with the
/// given tick lengths, each one a linear decay floored at zero.
pub open spec fn potential_after_airborne(p0: int, dts: Seq<int>, coefficient: int) -> int
    decreases dts.len(),
{
    if dts.len() == 0 {
        p0
    } else {
        potential_after_airborne(decayed_potential_spec(p0, dts[0], coefficient), dts.drop_first(), coefficient)
    }
}

/// The decay accumulated over a run of airborne ticks: each tick takes
/// its length times the decay coefficient.
pub open spec fn total_decay(dts: Seq<int>, coefficient: int) -> int
    decreases dts.len(),
{
    if dts.len() == 0 {
        0
    } else {
        fx_mul_spec(dts[0], coefficient) + total_decay(dts.drop_first(), coefficient)
    }
}

pub proof fn lemma_total_decay_nonneg(dts: Seq<int>, coefficient: int)
    requires
        forall|i: int| 0 <= i < dts.len() ==> 0 <= #[trigger] dts[i],
        0 <= coefficient,
    ensures
        0 <= total_decay(dts, coefficient),
    decreases dts.len(),
{
    if dts.len() > 0 {
        lemma_fx_mul_nonneg(dts[0], coefficient);
        lemma_total_decay_nonneg(dts.drop_first(), coefficient);
    }
}

proof fn lemma_potential_decay_general(p0: int, dts: Seq<int>, coefficient: int)
    requires
        0 <= p0 <= FX_ONE as int,
        forall|i: int| 0 <= i < dts.len() ==> 0 <= #[trigger] dts[i],
        0 <= coefficient,
    ensures
        potential_after_airborne(p0, dts, coefficient) == if total_decay(dts, coefficient) >= p0 {
            0
        } else {
            p0 - total_decay(dts, coefficient)
        },
    decreases dts.len(),
{
    if dts.len() > 0 {
        lemma_fx_mul_nonneg(dts[0], coefficient);
        let p1 = decayed_potential_spec(p0, dts[0], coefficient);
        lemma_potential_decay_general(p1, dts.drop_first(), coefficient);
        lemma_total_decay_nonneg(dts.drop_first(), coefficient);
    }
}

/// The airborne potential decays linearly: starting from full confidence,
/// after any run of airborne ticks the potential is one minus the
/// accumulated decay, floored at zero and never negative. In particular it
/// reaches zero exactly when the accumulated decay `dt * coefficient`
/// reaches one, that is after one over the coefficient seconds of airtime.
pub proof fn lemma_stood_on_decay(dts: Seq<int>, coefficient: int)
    requires
        forall|i: int| 0 <= i < dts.len() ==> 0 <= #[trigger] dts[i],
        0 <= coefficient,
    ensures
        potential_after_airborne(FX_ONE as int, dts, coefficient) == if total_decay(dts, coefficient) >= FX_ONE as int {
            0
        } else {
            FX_ONE as int - total_decay(dts, coefficient)
        },
        0 <= potential_after_airborne(FX_ONE as int, dts, coefficient) <= FX_ONE as int,
        potential_after_airborne(FX_ONE as int, dts, coefficient) == 0 <==> total_decay(dts, coefficient) >= FX_ONE as int,
{
    lemma_potential_decay_general(FX_ONE as int, dts, coefficient);
    lemma_total_decay_nonneg(dts, coefficient);
}

/// Grounded on an upward surface, with no jump input, no directional
/// input, and no current tangential speed, a tick changes nothing: the
/// velocity passes through untouched and no impulse is applied. With a
/// tangential speed other than zero this does not hold: a zero target
/// still brakes the tangential motion.
pub proof fn lemma_grounded_idle_passes_through(c0: PlayerControl, v0: Vec2, n: Vec2, input: PlayerInput, dt: int, inv_mass: int, s: PlayerMovementSettings, c1: PlayerControl, v1: Vec2, imp: TickImpulses)
    requires
        s.wf(),
        0 < dt <= FX_ONE as int,
        n.y > 0,
        !input.jump_held,
        !input.move_left,
        !input.move_right,
        current_speed_spec(v0.x as int, v0.y as int, n.y as int, -(n.x as int), s.max_speed as int) == 0,
        tick_rel(c0, v0, Some(n), input, dt, inv_mass, s, c1, v1, imp),
    ensures
        v1 == v0,
        !c1.mid_jump,
        imp.jump == (Vec2 { x: 0, y: 0 }),
        imp.movement == (Vec2 { x: 0, y: 0 }),
{
    assert(jump_status_spec(Some(n), input.jump_held, c0.mid_jump, v0.y as int) == JumpStatus::CanJump);
    crate::fx::lemma_fx_mul_one_left(n.x as int);
    crate::fx::lemma_fx_mul_one_left(n.y as int);
    lemma_fx_pow_zero_base(s.impulse_exponent as int);
    assert(fx_mul_spec(0, inv_mass) == 0);
}

/// The jump memory is false whenever a tick ends grounded on an upward
/// surface without initiating a jump: landing always clears it.
pub proof fn lemma_grounded_without_jump_clears_memory(c0: PlayerControl, v0: Vec2, n: Vec2, input: PlayerInput, dt: int, inv_mass: int, s: PlayerMovementSettings, c1: PlayerControl, v1: Vec2, imp: TickImpulses)
    requires
        n.y > 0,
        !input.jump_held,
        tick_rel(c0, v0, Some(n), input, dt, inv_mass, s, c1, v1, imp),
    ensures
        !c1.mid_jump,
{
    assert(jump_status_spec(Some(n), input.jump_held, c0.mid_jump, v0.y as int) == JumpStatus::CanJump);
}

/// The grounded branch has no edge trigger: while grounded on an upward
/// surface with the jump input held, every tick initiates the jump again,
/// re-applying the full jump impulse, whatever the jump memory holds.
pub proof fn lemma_grounded_jump_retriggers(standing_on: Option<Vec2>, mid_jump: bool, vy: int, dt: int, inv_mass: int, s: PlayerMovementSettings)
    requires
        grounded_up_spec(standing_on),
    ensures
        jump_status_spec(standing_on, true, mid_jump, vy) == JumpStatus::InitiateJump,
        ({
            let (vy1, mid1, jy) = jump_outcome_spec(JumpStatus::InitiateJump, vy, dt, inv_mass, s);
            jy == s.jump_power_coefficient as int
                && mid1
                && vy1 == vy + fx_mul_spec(s.jump_power_coefficient as int, inv_mass)
        }),
{
}

/// Uphill attenuation only ever weakens the impulse: the attenuated
/// component never exceeds the unattenuated one, it shrinks strictly once
/// the attenuation power is positive, and it does not grow as the uphill
/// measure climbs toward one.
pub proof fn lemma_uphill_attenuation(c: int, u1: int, u2: int, e: int)
    requires
        0 <= c,
        UPHILL_MIN as int <= u1 <= u2 <= FX_ONE as int,
        0 <= e,
    ensures
        0 <= fx_mul_spec(c, FX_ONE as int - fx_pow_spec(u2, e)),
        fx_mul_spec(c, FX_ONE as int - fx_pow_spec(u2, e)) <= fx_mul_spec(c, FX_ONE as int - fx_pow_spec(u1, e)),
        fx_mul_spec(c, FX_ONE as int - fx_pow_spec(u1, e)) <= c,
        0 < c && 0 < fx_pow_spec(u1, e) ==> fx_mul_spec(c, FX_ONE as int - fx_pow_spec(u1, e)) < c,
{
    lemma_fx_pow_le_one(u1, e);
    lemma_fx_pow_le_one(u2, e);
    lemma_fx_pow_mono(u1, u2, e);
    let f1 = FX_ONE as int - fx_pow_spec(u1, e);
    let f2 = FX_ONE as int - fx_pow_spec(u2, e);
    lemma_fx_mul_nonneg(c, f2);
    lemma_fx_mul_mono(c, c, f2, f1);
    lemma_fx_mul_unit(c, f1);
    if 0 < c && 0 < fx_pow_spec(u1, e) {
        assert(c * f1 >= 0) by (nonlinear_arith)
            requires c >= 0, f1 >= 0;
        assert((c * f1) / 65536 < c) by (nonlinear_arith)
            requires 1 <= c, 0 <= f1 <= 65535;
    }
}

} // verus!
