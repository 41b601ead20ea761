//! The movement impulse calculator: target and current tangential speed
//! become a horizontal, slope-relative impulse with a nonlinear response
//! curve and uphill attenuation.

use vstd::prelude::*;

use crate::fx::{
    fx_div, fx_div_spec, fx_mul, fx_mul_spec, fx_pow, fx_pow_spec, isqrt, lemma_fx_pow_le_one,
    lemma_fx_pow_zero_base, lemma_sqrt_floor_mono, lemma_sqrt_floor_unique, sqrt_floor, FX_ONE,
};
use crate::settings::PlayerMovementSettings;
use crate::vec2::{dot, dot_spec, lemma_fx_mul_abs_bound, rotate_cw, Vec2};

verus! {

/// The uphill measure under which the push counts as flat and is not
/// attenuated: one hundredth, in fixed point.
pub const UPHILL_MIN: i64 = 655;

pub open spec fn sgn_spec(x: int) -> int {
    if x > 0 {
        1
    } else if x < 0 {
        -1
    } else {
        0
    }
}

/// The requested speed: minus one for left, plus one for right, zero for
/// neither or both, as a fraction of full speed.
pub open spec fn target_speed_spec(move_left: bool, move_right: bool) -> int {
    (if move_right {
        FX_ONE as int
    } else {
        0
    }) - (if move_left {
        FX_ONE as int
    } else {
        0
    })
}

/// The current tangential speed as a fraction of full speed: the velocity
/// projected on the movement axis, divided by the full speed.
pub open spec fn current_speed_spec(vx: int, vy: int, mvx: int, mvy: int, max_speed: int) -> int {
    fx_div_spec(dot_spec(vx, vy, mvx, mvy), max_speed)
}

/// The response curve: a speed error beyond one in magnitude saturates to
/// a unit response; a smaller error is raised to the response exponent,
/// keeping its sign.
pub open spec fn response_spec(err: int, e: int) -> int {
    if err > FX_ONE as int {
        FX_ONE as int
    } else if err < -(FX_ONE as int) {
        -(FX_ONE as int)
    } else if err >= 0 {
        fx_pow_spec(err, e)
    } else {
        -fx_pow_spec(-err, e)
    }
}

/// The whole calculation: the movement axis is the blended up direction
/// turned a quarter clockwise; no impulse inside the dead zone (already at
/// or past the requested speed in its own direction) or for a zero
/// response; otherwise the axis scaled by tick length, gain and response,
/// attenuated by how much it points uphill.
pub open spec fn movement_impulse_spec(upx: int, upy: int, vx: int, vy: int, move_left: bool, move_right: bool, dt: int, s: PlayerMovementSettings) -> (int, int) {
    let mvx = upy;
    let mvy = -upx;
    let cur = current_speed_spec(vx, vy, mvx, mvy, s.max_speed as int);
    let t = target_speed_spec(move_left, move_right);
    if (0 < t && t <= cur) || (t < 0 && cur <= t) {
        (0, 0)
    } else {
        let err = t - cur;
        let resp = response_spec(err, s.impulse_exponent as int);
        if resp == 0 {
            (0, 0)
        } else {
            let k = fx_mul_spec(fx_mul_spec(dt, s.impulse_coefficient as int), resp);
            let mag = sqrt_floor((mvx * mvx + mvy * mvy) as nat) as int;
            if mag == 0 {
                (0, 0)
            } else {
                let ix = fx_mul_spec(mvx, k);
                let iy = fx_mul_spec(mvy, k);
                let uphill = if k >= 0 {
                    fx_div_spec(mvy, mag)
                } else {
                    fx_div_spec(-mvy, mag)
                };
                if uphill >= UPHILL_MIN as int {
                    let eff = if sgn_spec(t) == sgn_spec(cur) {
                        s.uphill_move_exponent as int
                    } else {
                        s.downhill_brake_exponent as int
                    };
                    let factor = FX_ONE as int - fx_pow_spec(uphill, eff);
                    (fx_mul_spec(ix, factor), fx_mul_spec(iy, factor))
                } else {
                    (ix, iy)
                }
            }
        }
    }
}

fn sgn(x: i64) -> (r: i64)
    ensures
        r as int == sgn_spec(x as int),
{
    if x > 0 {
        1
    } else if x < 0 {
        -1
    } else {
        0
    }
}

/// The axis magnitude is at least each coordinate's magnitude.
proof fn lemma_mag_ge_component(c: int, other_sq: nat)
    requires
        -0x4_0000 <= c <= 0x4_0000,
    ensures
        (if c >= 0 { c } else { -c }) <= sqrt_floor((c * c + other_sq) as nat) as int,
{
    let a = if c >= 0 { c } else { -c };
    if c >= 0 {
        assert(a * a == c * c && 0 <= c * c) by (nonlinear_arith)
            requires a == c, c >= 0;
    } else {
        assert(a * a == c * c && 0 <= c * c) by (nonlinear_arith)
            requires a == -c, c < 0;
    }
    assert((a * a) as nat <= (c * c + other_sq) as nat);
    lemma_sqrt_floor_mono((a * a) as nat, (c * c + other_sq) as nat);
    assert(((a * a) as nat) < ((a + 1) * (a + 1)) as nat) by (nonlinear_arith)
        requires a >= 0;
    lemma_sqrt_floor_unique((a * a) as nat, a as nat);
}

/// Computes the movement impulse from the blended up direction, the
/// velocity after the vertical pass, and the directional input.
pub fn movement_impulse(up_now: Vec2, velocity: Vec2, move_left: bool, move_right: bool, dt: i64, settings: &PlayerMovementSettings) -> (r: Vec2)
    requires
        settings.wf(),
        0 < dt <= FX_ONE,
        -0x4_0000 <= up_now.x <= 0x4_0000,
        -0x4_0000 <= up_now.y <= 0x4_0000,
        -0x400_0000_0000 <= velocity.x <= 0x400_0000_0000,
        -0x400_0000_0000 <= velocity.y <= 0x400_0000_0000,
    ensures
        ({
            let (ix, iy) = movement_impulse_spec(up_now.x as int, up_now.y as int, velocity.x as int, velocity.y as int, move_left, move_right, dt as int, *settings);
            r.x as int == ix && r.y as int == iy
        }),
        -0x8_0000_0000 <= r.x <= 0x8_0000_0000,
        -0x8_0000_0000 <= r.y <= 0x8_0000_0000,
        !move_left && !move_right && current_speed_spec(velocity.x as int, velocity.y as int, up_now.y as int, -(up_now.x as int), settings.max_speed as int) == 0 ==> r.x == 0 && r.y == 0,
{
    let mv: Vec2 = rotate_cw(up_now);
    let d: i64 = dot(velocity, mv);
    let cur: i64 = fx_div(d, settings.max_speed);
    let mut t: i64 = 0;
    if move_left {
        t = t - FX_ONE;
    }
    if move_right {
        t = t + FX_ONE;
    }
    assert(t as int == target_speed_spec(move_left, move_right));
    if (0 < t && t <= cur) || (t < 0 && cur <= t) {
        return Vec2 { x: 0, y: 0 };
    }
    let err: i64 = t - cur;
    let resp: i64 = if err > FX_ONE {
        FX_ONE
    } else if err < -FX_ONE {
        -FX_ONE
    } else if err >= 0 {
        proof {
            lemma_fx_pow_le_one(err as int, settings.impulse_exponent as int);
            if err == 0 {
                lemma_fx_pow_zero_base(settings.impulse_exponent as int);
            }
        }
        fx_pow(err, settings.impulse_exponent)
    } else {
        proof {
            lemma_fx_pow_le_one(-err as int, settings.impulse_exponent as int);
        }
        -fx_pow(-err, settings.impulse_exponent)
    };
    assert(resp as int == response_spec(err as int, settings.impulse_exponent as int));
    assert(-FX_ONE <= resp <= FX_ONE);
    if resp == 0 {
        return Vec2 { x: 0, y: 0 };
    }
    proof {
        lemma_fx_mul_abs_bound(dt as int, settings.impulse_coefficient as int, FX_ONE as int, 6553600000);
        assert((65536 as int * 6553600000) / (FX_ONE as int) == 6553600000) by (nonlinear_arith);
    }
    let k1: i64 = fx_mul(dt, settings.impulse_coefficient);
    proof {
        assert(k1 as int * resp as int <= 0x4000_0000_0000_0000
            && -0x4000_0000_0000_0000 <= k1 as int * resp as int) by (nonlinear_arith)
            requires -6553600000 <= k1 as int <= 6553600000, -65536 <= resp as int <= 65536;
        lemma_fx_mul_abs_bound(k1 as int, resp as int, 6553600000, 65536);
        assert((6553600000 as int * 65536) / (FX_ONE as int) == 6553600000) by (nonlinear_arith);
    }
    let k: i64 = fx_mul(k1, resp);
    proof {
        assert(mv.x as int * mv.x as int + mv.y as int * mv.y as int <= 0x40_0000_0000
            && 0 <= mv.x as int * mv.x as int && 0 <= mv.y as int * mv.y as int) by (nonlinear_arith)
            requires -0x4_0000 <= mv.x as int <= 0x4_0000, -0x4_0000 <= mv.y as int <= 0x4_0000;
    }
    let mag: i64 = isqrt((mv.x * mv.x + mv.y * mv.y) as u64) as i64;
    if mag == 0 {
        return Vec2 { x: 0, y: 0 };
    }
    proof {
        assert(mv.x as int * k as int <= 0x4000_0000_0000_0000
            && -0x4000_0000_0000_0000 <= mv.x as int * k as int
            && mv.y as int * k as int <= 0x4000_0000_0000_0000
            && -0x4000_0000_0000_0000 <= mv.y as int * k as int) by (nonlinear_arith)
            requires -0x4_0000 <= mv.x as int <= 0x4_0000, -0x4_0000 <= mv.y as int <= 0x4_0000,
                -6553600000 <= k as int <= 6553600000;
        lemma_fx_mul_abs_bound(mv.x as int, k as int, 0x4_0000, 6553600000);
        lemma_fx_mul_abs_bound(mv.y as int, k as int, 0x4_0000, 6553600000);
        assert((0x4_0000 as int * 6553600000) / (FX_ONE as int) == 26214400000) by (nonlinear_arith);
        lemma_mag_ge_component(mv.y as int, (mv.x as int * mv.x as int) as nat);
    }
    let ix: i64 = fx_mul(mv.x, k);
    let iy: i64 = fx_mul(mv.y, k);
    let uphill: i64 = if k >= 0 {
        fx_div(mv.y, mag)
    } else {
        fx_div(-mv.y, mag)
    };
    if uphill >= UPHILL_MIN {
        let eff: i64 = if sgn(t) == sgn(cur) {
            settings.uphill_move_exponent
        } else {
            settings.downhill_brake_exponent
        };
        proof {
            lemma_fx_pow_le_one(uphill as int, eff as int);
        }
        let factor: i64 = FX_ONE - fx_pow(uphill, eff);
        proof {
            lemma_fx_mul_abs_bound(ix as int, factor as int, 26214400000, 65536);
            lemma_fx_mul_abs_bound(iy as int, factor as int, 26214400000, 65536);
            assert((26214400000 as int * 65536) / (FX_ONE as int) == 26214400000) by (nonlinear_arith);
        }
        Vec2 { x: fx_mul(ix, factor), y: fx_mul(iy, factor) }
    } else {
        Vec2 { x: ix, y: iy }
    }
}

} // verus!
