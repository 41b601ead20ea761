//! The slope blender: stood-on potential and the blended up direction.

use vstd::prelude::*;

use crate::fx::{fx_mul, fx_mul_spec, FX_ONE};
use crate::state::{normal_wf, PlayerControl, NORMAL_BOUND};
use crate::vec2::{lemma_fx_mul_abs_bound, Vec2};

verus! {

/// One airborne tick of linear decay: the potential falls by the tick
/// length times the decay coefficient and floors at zero.
pub open spec fn decayed_potential_spec(p: int, dt: int, coefficient: int) -> int {
    let d = p - fx_mul_spec(dt, coefficient);
    if d < 0 {
        0
    } else {
        d
    }
}

/// Updates the stood-on memory. Any contact refills the potential to one
/// and remembers the resolved surface; with no contact the potential
/// decays linearly and floors at zero.
pub fn update_stood_on(control: &mut PlayerControl, standing_on: Option<Vec2>, dt: i64, stood_on_time_coefficient: i64)
    requires
        old(control).wf(),
        0 < dt <= FX_ONE,
        FX_ONE <= stood_on_time_coefficient <= 100 * FX_ONE,
        standing_on matches Some(n) ==> normal_wf(n),
    ensures
        final(control).wf(),
        final(control).mid_jump == old(control).mid_jump,
        standing_on matches Some(n) ==> final(control).last_stood_on == n
            && final(control).stood_on_potential == FX_ONE,
        standing_on is None ==> final(control).last_stood_on == old(control).last_stood_on
            && final(control).stood_on_potential as int == decayed_potential_spec(
                old(control).stood_on_potential as int,
                dt as int,
                stood_on_time_coefficient as int,
            ),
{
    match standing_on {
        Some(n) => {
            control.last_stood_on = n;
            control.stood_on_potential = FX_ONE;
        }
        None => {
            proof {
                lemma_fx_mul_abs_bound(dt as int, stood_on_time_coefficient as int, FX_ONE as int, 100 * FX_ONE as int);
                assert((FX_ONE as int * (100 * FX_ONE as int)) / (FX_ONE as int) == 100 * FX_ONE as int);
            }
            let d: i64 = fx_mul(dt, stood_on_time_coefficient);
            if control.stood_on_potential - d < 0 {
                control.stood_on_potential = 0;
            } else {
                control.stood_on_potential = control.stood_on_potential - d;
            }
        }
    }
}

/// The x coordinate of the blended up direction: the linear interpolation
/// from world-up toward the last stood-on surface by the potential.
pub open spec fn blended_up_x_spec(p: int, last: Vec2) -> int {
    fx_mul_spec(p, last.x as int)
}

/// The y coordinate of the blended up direction. World-up contributes
/// exactly its complement of the potential, since its y coordinate is one.
pub open spec fn blended_up_y_spec(p: int, last: Vec2) -> int {
    (FX_ONE as int - p) + fx_mul_spec(p, last.y as int)
}

/// The blended up direction: not necessarily unit length, consumed only as
/// a direction.
pub fn blended_up(control: &PlayerControl) -> (r: Vec2)
    requires
        control.wf(),
    ensures
        r.x as int == blended_up_x_spec(control.stood_on_potential as int, control.last_stood_on),
        r.y as int == blended_up_y_spec(control.stood_on_potential as int, control.last_stood_on),
        -NORMAL_BOUND as int <= r.x <= NORMAL_BOUND as int,
        -NORMAL_BOUND as int <= r.y <= NORMAL_BOUND as int + FX_ONE as int,
{
    let p: i64 = control.stood_on_potential;
    proof {
        lemma_fx_mul_abs_bound(p as int, control.last_stood_on.x as int, FX_ONE as int, NORMAL_BOUND as int);
        lemma_fx_mul_abs_bound(p as int, control.last_stood_on.y as int, FX_ONE as int, NORMAL_BOUND as int);
        assert((FX_ONE as int * (NORMAL_BOUND as int)) / (FX_ONE as int) == NORMAL_BOUND as int);
    }
    let bx: i64 = fx_mul(p, control.last_stood_on.x);
    let by: i64 = (FX_ONE - p) + fx_mul(p, control.last_stood_on.y);
    Vec2 { x: bx, y: by }
}

} // verus!
