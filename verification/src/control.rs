//! The per-tick control law: contact resolution, slope blending, the
//! vertical state machine and the movement impulse, composed in order.

use vstd::prelude::*;

use crate::contact::resolve_standing_surface;
use crate::fx::{fx_mul, fx_mul_spec, FX_ONE};
use crate::jump::{apply_jump, classify_jump, jump_outcome_spec, jump_status_spec};
use crate::movement::{movement_impulse, movement_impulse_spec};
use crate::settings::PlayerMovementSettings;
use crate::slope::{blended_up, blended_up_x_spec, blended_up_y_spec, decayed_potential_spec, update_stood_on};
use crate::state::{normal_wf, PlayerControl};
use crate::vec2::{lemma_fx_mul_abs_bound, Vec2};

verus! {

/// The debounced input signals one tick consumes.
#[derive(Clone, Copy, Debug, PartialEq, Eq, Structural)]
pub struct PlayerInput {
    pub move_left: bool,
    pub move_right: bool,
    pub jump_held: bool,
}

/// The impulses one tick asked the physics engine to apply, before
/// inverse-mass scaling; zero vectors where nothing was applied.
#[derive(Clone, Copy, Debug, PartialEq, Eq, Structural)]
pub struct TickImpulses {
    pub jump: Vec2,
    pub movement: Vec2,
}

/// Everything one tick does, given the resolved standing surface: the new
/// control state, the new velocity, and the impulses, as functions of the
/// old state, the input, the tick length, the inverse mass and the
/// settings snapshot.
pub open spec fn tick_rel(c0: PlayerControl, v0: Vec2, standing_on: Option<Vec2>, input: PlayerInput, dt: int, inv_mass: int, s: PlayerMovementSettings, c1: PlayerControl, v1: Vec2, imp: TickImpulses) -> bool {
    let p1 = match standing_on {
        Some(_) => FX_ONE as int,
        None => decayed_potential_spec(c0.stood_on_potential as int, dt, s.stood_on_time_coefficient as int),
    };
    let last1 = match standing_on {
        Some(n) => n,
        None => c0.last_stood_on,
    };
    let status = jump_status_spec(standing_on, input.jump_held, c0.mid_jump, v0.y as int);
    let (vy1, mid1, jy) = jump_outcome_spec(status, v0.y as int, dt, inv_mass, s);
    let upx = blended_up_x_spec(p1, last1);
    let upy = blended_up_y_spec(p1, last1);
    let (mix, miy) = movement_impulse_spec(upx, upy, v0.x as int, vy1, input.move_left, input.move_right, dt, s);
    &&& c1.mid_jump == mid1
    &&& c1.last_stood_on == last1
    &&& c1.stood_on_potential as int == p1
    &&& v1.x as int == v0.x as int + fx_mul_spec(mix, inv_mass)
    &&& v1.y as int == vy1 + fx_mul_spec(miy, inv_mass)
    &&& imp.jump.x == 0
    &&& imp.jump.y as int == jy
    &&& imp.movement.x as int == mix
    &&& imp.movement.y as int == miy
}

/// One tick of the control law. The contacts are this tick's active
/// contact normals, each oriented toward the player; the velocity is read
/// and written in place, as the physics engine's impulse application
/// would, scaled by the inverse mass. Returns the impulses that were
/// applied. With several equally upward contacts the standing surface is
/// an arbitrary one of them; everything else is a function of that choice.
pub fn control_player(control: &mut PlayerControl, velocity: &mut Vec2, contacts: &Vec<Vec2>, input: PlayerInput, dt: i64, inv_mass: i64, settings: &PlayerMovementSettings) -> (imp: TickImpulses)
    requires
        old(control).wf(),
        settings.wf(),
        0 < dt <= FX_ONE,
        0 <= inv_mass <= 16 * FX_ONE,
        -0x100_0000_0000 <= old(velocity).x <= 0x100_0000_0000,
        -0x100_0000_0000 <= old(velocity).y <= 0x100_0000_0000,
        forall|i: int| 0 <= i < contacts@.len() ==> normal_wf(#[trigger] contacts@[i]),
    ensures
        final(control).wf(),
        contacts@.len() == 0 ==> tick_rel(*old(control), *old(velocity), None::<Vec2>, input, dt as int, inv_mass as int, *settings, *final(control), *final(velocity), imp),
        contacts@.len() > 0 ==> exists|n: Vec2|
            #[trigger] contacts@.contains(n)
            && (forall|i: int| 0 <= i < contacts@.len() ==> contacts@[i].y <= n.y)
            && tick_rel(*old(control), *old(velocity), Some(n), input, dt as int, inv_mass as int, *settings, *final(control), *final(velocity), imp),
{
    let ghost c0 = *old(control);
    let ghost v0 = *old(velocity);
    let standing_on: Option<Vec2> = resolve_standing_surface(contacts);
    proof {
        match standing_on {
            Some(n) => {
                assert(contacts@.contains(n));
                let i = choose|i: int| 0 <= i < contacts@.len() && contacts@[i] == n;
                assert(normal_wf(contacts@[i]));
            }
            None => {}
        }
    }
    update_stood_on(control, standing_on, dt, settings.stood_on_time_coefficient);
    let status = classify_jump(standing_on, input.jump_held, control.mid_jump, velocity.y);
    let (new_mid, jump_imp) = apply_jump(status, velocity, dt, inv_mass, settings);
    control.mid_jump = new_mid;
    let up: Vec2 = blended_up(control);
    let move_imp: Vec2 = movement_impulse(up, *velocity, input.move_left, input.move_right, dt, settings);
    proof {
        assert(move_imp.x as int * inv_mass as int <= 0x4000_0000_0000_0000
            && -0x4000_0000_0000_0000 <= move_imp.x as int * inv_mass as int
            && move_imp.y as int * inv_mass as int <= 0x4000_0000_0000_0000
            && -0x4000_0000_0000_0000 <= move_imp.y as int * inv_mass as int) by (nonlinear_arith)
            requires -0x8_0000_0000 <= move_imp.x as int <= 0x8_0000_0000,
                -0x8_0000_0000 <= move_imp.y as int <= 0x8_0000_0000,
                0 <= inv_mass as int <= 1048576;
        lemma_fx_mul_abs_bound(move_imp.x as int, inv_mass as int, 0x8_0000_0000, 1048576);
        lemma_fx_mul_abs_bound(move_imp.y as int, inv_mass as int, 0x8_0000_0000, 1048576);
        assert((0x8_0000_0000 as int * 1048576) / (FX_ONE as int) == 0x80_0000_0000) by (nonlinear_arith);
    }
    velocity.x = velocity.x + fx_mul(move_imp.x, inv_mass);
    velocity.y = velocity.y + fx_mul(move_imp.y, inv_mass);
    let imp = TickImpulses { jump: jump_imp, movement: move_imp };
    proof {
        assert(tick_rel(c0, v0, standing_on, input, dt as int, inv_mass as int, *settings, *control, *velocity, imp));
        if contacts@.len() > 0 {
            let n = standing_on->Some_0;
            assert(contacts@.contains(n)
                && (forall|i: int| 0 <= i < contacts@.len() ==> contacts@[i].y <= n.y)
                && tick_rel(c0, v0, Some(n), input, dt as int, inv_mass as int, *settings, *control, *velocity, imp));
        }
    }
    imp
}

} // verus!
