use platformer_control::control::{control_player, PlayerInput};
use platformer_control::resolve_standing_surface;
use platformer_control::{PlayerControl, PlayerMovementSettings, Vec2, FX_ONE};

fn fx(v: f64) -> i64 {
    (v * 65536.0).round() as i64
}

fn to_f64(v: i64) -> f64 {
    v as f64 / 65536.0
}

fn settings() -> PlayerMovementSettings {
    PlayerMovementSettings {
        max_speed: fx(20.0),
        impulse_exponent: fx(4.0),
        impulse_coefficient: fx(40_000.0),
        jump_power_coefficient: fx(1000.0),
        jump_brake_coefficient: fx(0.05),
        start_fall_before_peak: fx(20.0),
        start_of_fall_range: fx(5.0),
        start_of_fall_gravity_boost: fx(30.0),
        fall_boost_coefficient: fx(1.06),
        stood_on_time_coefficient: fx(10.0),
        uphill_move_exponent: fx(0.5),
        downhill_brake_exponent: fx(1.0),
    }
}

const DT: i64 = 1048; // about 16 milliseconds
const INV_MASS: i64 = 819; // one over a mass of 80

fn no_input() -> PlayerInput {
    PlayerInput { move_left: false, move_right: false, jump_held: false }
}

fn flat_ground() -> Vec<Vec2> {
    vec![Vec2 { x: 0, y: FX_ONE }]
}

#[test]
fn resolver_empty_is_none() {
    let contacts: Vec<Vec2> = vec![];
    assert!(resolve_standing_surface(&contacts).is_none());
}

#[test]
fn resolver_picks_most_upward_normal() {
    let contacts = vec![
        Vec2 { x: 0, y: -FX_ONE },
        Vec2 { x: 46341, y: 46341 },
        Vec2 { x: 0, y: FX_ONE },
    ];
    let n = resolve_standing_surface(&contacts).unwrap();
    assert_eq!(n.y, FX_ONE);
    assert_eq!(n.x, 0);
}

#[test]
fn resolver_tie_winner_checked_by_value_only() {
    // Two normals equally aligned with up: the winner is arbitrary, so
    // only its upward coordinate is checked, not which one it is.
    let contacts = vec![Vec2 { x: 46341, y: 46341 }, Vec2 { x: -46341, y: 46341 }];
    let n = resolve_standing_surface(&contacts).unwrap();
    assert_eq!(n.y, 46341);
}

#[test]
fn spawn_state() {
    let c = PlayerControl::spawn();
    assert!(!c.mid_jump);
    assert_eq!(c.stood_on_potential, 0);
    assert_eq!(c.last_stood_on, Vec2 { x: 0, y: FX_ONE });
}

#[test]
fn grounded_idle_is_a_pure_pass_through() {
    // Grounded, no jump input, no directional input, at rest: nothing
    // changes.
    let s = settings();
    let mut control = PlayerControl::spawn();
    let mut velocity = Vec2 { x: 0, y: 0 };
    let contacts = flat_ground();
    let imp = control_player(&mut control, &mut velocity, &contacts, no_input(), DT, INV_MASS, &s);
    assert_eq!(velocity, Vec2 { x: 0, y: 0 });
    assert_eq!(imp.jump, Vec2 { x: 0, y: 0 });
    assert_eq!(imp.movement, Vec2 { x: 0, y: 0 });
    assert!(!control.mid_jump);
    assert_eq!(control.stood_on_potential, FX_ONE);
}

#[test]
fn grounded_jump_applies_the_full_impulse() {
    let s = settings();
    let mut control = PlayerControl::spawn();
    let mut velocity = Vec2 { x: 0, y: 0 };
    let contacts = flat_ground();
    let input = PlayerInput { move_left: false, move_right: false, jump_held: true };
    let imp = control_player(&mut control, &mut velocity, &contacts, input, DT, INV_MASS, &s);
    assert!(control.mid_jump);
    // The jump impulse is the raw coefficient, before inverse-mass scaling.
    assert_eq!(imp.jump, Vec2 { x: 0, y: fx(1000.0) });
    // The velocity got the impulse scaled by the inverse mass: 1000 / 80.
    assert_eq!(velocity.y, 1000 * INV_MASS);
    assert_eq!(velocity.x, 0);
}

#[test]
fn grounded_jump_retriggers_every_held_tick() {
    // The grounded branch has no edge trigger: holding jump while still
    // grounded re-applies the impulse each tick.
    let s = settings();
    let mut control = PlayerControl::spawn();
    let mut velocity = Vec2 { x: 0, y: 0 };
    let contacts = flat_ground();
    let input = PlayerInput { move_left: false, move_right: false, jump_held: true };
    let first = control_player(&mut control, &mut velocity, &contacts, input, DT, INV_MASS, &s);
    let vy_after_first = velocity.y;
    let second = control_player(&mut control, &mut velocity, &contacts, input, DT, INV_MASS, &s);
    assert_eq!(first.jump, second.jump);
    assert_eq!(velocity.y, 2 * vy_after_first);
    assert!(control.mid_jump);
}

#[test]
fn stood_on_potential_decays_linearly_to_zero() {
    // With a decay coefficient of ten per second, the potential should
    // survive exactly one airborne tick of a twentieth of a second and
    // reach zero on the second, never going negative.
    let s = settings();
    let mut control = PlayerControl::spawn();
    let mut velocity = Vec2 { x: 0, y: 0 };
    let contacts = flat_ground();
    control_player(&mut control, &mut velocity, &contacts, no_input(), DT, INV_MASS, &s);
    assert_eq!(control.stood_on_potential, FX_ONE);
    let airborne: Vec<Vec2> = vec![];
    let half_tenth: i64 = fx(0.05);
    control_player(&mut control, &mut velocity, &airborne, no_input(), half_tenth, INV_MASS, &s);
    // One tick of 0.05 s at coefficient 10 takes half the potential.
    assert!(0 < control.stood_on_potential && control.stood_on_potential <= FX_ONE / 2);
    control_player(&mut control, &mut velocity, &airborne, no_input(), half_tenth, INV_MASS, &s);
    assert_eq!(control.stood_on_potential, 0);
    control_player(&mut control, &mut velocity, &airborne, no_input(), half_tenth, INV_MASS, &s);
    assert_eq!(control.stood_on_potential, 0);
}

#[test]
fn potential_stays_in_range_over_a_mixed_run() {
    // Whatever mix of contact and airtime the run goes through, the
    // stood-on potential never leaves the unit interval.
    let s = settings();
    let mut control = PlayerControl::spawn();
    let mut velocity = Vec2 { x: 0, y: 0 };
    let ground = flat_ground();
    let airborne: Vec<Vec2> = vec![];
    for step in 0..100u32 {
        let contacts = if step % 7 < 3 { &ground } else { &airborne };
        let dt = 200 + 37 * (step as i64 % 13);
        velocity = Vec2 { x: 0, y: 0 };
        control_player(&mut control, &mut velocity, contacts, no_input(), dt, INV_MASS, &s);
        assert!(0 <= control.stood_on_potential && control.stood_on_potential <= FX_ONE);
    }
}

#[test]
fn established_fall_is_boosted_multiplicatively() {
    // Airborne and descending faster than the start-of-fall range: the
    // vertical speed is multiplied by the fall boost raised to the tick
    // length. With boost 1.06, dt about 0.016 and a fall of -12, the new
    // speed is about -12.011.
    let s = settings();
    let mut control = PlayerControl::spawn();
    let mut velocity = Vec2 { x: 0, y: fx(-12.0) };
    let airborne: Vec<Vec2> = vec![];
    control_player(&mut control, &mut velocity, &airborne, no_input(), DT, INV_MASS, &s);
    let dt = to_f64(DT);
    let expected = -12.0 * 1.06f64.powf(dt);
    let got = to_f64(velocity.y);
    assert!((got - expected).abs() < 0.01, "got {got}, expected about {expected}");
    assert!(!control.mid_jump);
}

#[test]
fn slow_fall_gets_the_gravity_boost_instead() {
    // Descending slower than the start-of-fall range: a linear downward
    // boost applies, not the multiplicative one.
    let s = settings();
    let mut control = PlayerControl::spawn();
    let mut velocity = Vec2 { x: 0, y: fx(-1.0) };
    let airborne: Vec<Vec2> = vec![];
    control_player(&mut control, &mut velocity, &airborne, no_input(), DT, INV_MASS, &s);
    let expected = -1.0 - 30.0 * to_f64(DT);
    let got = to_f64(velocity.y);
    assert!((got - expected).abs() < 0.001, "got {got}, expected about {expected}");
}

#[test]
fn released_rise_is_braked() {
    // Airborne and rising with the jump input released: the rise is cut by
    // the brake coefficient raised to the tick length, and near the peak
    // the extra downward boost applies too.
    let s = settings();
    let mut control = PlayerControl::spawn();
    control.mid_jump = true;
    let mut velocity = Vec2 { x: 0, y: fx(10.0) };
    let airborne: Vec<Vec2> = vec![];
    control_player(&mut control, &mut velocity, &airborne, no_input(), DT, INV_MASS, &s);
    let dt = to_f64(DT);
    let expected = 10.0 * 0.05f64.powf(dt) - 30.0 * dt;
    let got = to_f64(velocity.y);
    assert!((got - expected).abs() < 0.02, "got {got}, expected about {expected}");
    assert!(!control.mid_jump);
}

#[test]
fn held_jump_rise_is_untouched() {
    // Airborne, rising, jump held and the rise is still the player's own
    // jump: gravity alone is left to act.
    let s = settings();
    let mut control = PlayerControl::spawn();
    control.mid_jump = true;
    let mut velocity = Vec2 { x: 0, y: fx(10.0) };
    let airborne: Vec<Vec2> = vec![];
    let input = PlayerInput { move_left: false, move_right: false, jump_held: true };
    control_player(&mut control, &mut velocity, &airborne, input, DT, INV_MASS, &s);
    assert_eq!(velocity.y, fx(10.0));
    assert!(control.mid_jump);
}

#[test]
fn ceiling_contact_counts_as_airborne_for_the_jump() {
    // A contact whose normal points down cannot be jumped from; the
    // vertical logic falls through to the airborne states, but the
    // stood-on memory still takes the contact.
    let s = settings();
    let mut control = PlayerControl::spawn();
    let mut velocity = Vec2 { x: 0, y: 0 };
    let ceiling = vec![Vec2 { x: 0, y: -FX_ONE }];
    let input = PlayerInput { move_left: false, move_right: false, jump_held: true };
    let imp = control_player(&mut control, &mut velocity, &ceiling, input, DT, INV_MASS, &s);
    assert_eq!(imp.jump, Vec2 { x: 0, y: 0 });
    assert!(!control.mid_jump);
    assert_eq!(control.stood_on_potential, FX_ONE);
    assert_eq!(control.last_stood_on, Vec2 { x: 0, y: -FX_ONE });
}
