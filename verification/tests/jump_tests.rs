use platformer_control::jump::{apply_jump, classify_jump, JumpStatus};
use platformer_control::{PlayerMovementSettings, Vec2, FX_ONE};

fn fx(v: f64) -> i64 {
    (v * 65536.0).round() as i64
}

fn settings() -> PlayerMovementSettings {
    PlayerMovementSettings {
        max_speed: fx(20.0),
        impulse_exponent: fx(4.0),
        impulse_coefficient: fx(40_000.0),
        jump_power_coefficient: fx(1000.0),
        jump_brake_coefficient: fx(0.05),
        start_fall_before_peak: fx(20.0),
        start_of_fall_range: fx(5.0),
        start_of_fall_gravity_boost: fx(30.0),
        fall_boost_coefficient: fx(1.06),
        stood_on_time_coefficient: fx(10.0),
        uphill_move_exponent: fx(0.5),
        downhill_brake_exponent: fx(1.0),
    }
}

const DT: i64 = 1048;
const INV_MASS: i64 = 819;

const GROUND: Option<Vec2> = Some(Vec2 { x: 0, y: FX_ONE });
const CEILING: Option<Vec2> = Some(Vec2 { x: 0, y: -FX_ONE });

#[test]
fn classify_covers_the_transition_table() {
    // Grounded with an upward contact.
    assert_eq!(classify_jump(GROUND, true, false, 0), JumpStatus::InitiateJump);
    assert_eq!(classify_jump(GROUND, true, true, 0), JumpStatus::InitiateJump);
    assert_eq!(classify_jump(GROUND, false, true, 0), JumpStatus::CanJump);
    // Airborne, rising.
    assert_eq!(classify_jump(None, true, true, fx(3.0)), JumpStatus::GoingUp);
    assert_eq!(classify_jump(None, true, false, fx(3.0)), JumpStatus::StoppingUp);
    assert_eq!(classify_jump(None, false, true, fx(3.0)), JumpStatus::StoppingUp);
    assert_eq!(classify_jump(None, false, false, 0), JumpStatus::StoppingUp);
    // Airborne, descending.
    assert_eq!(classify_jump(None, true, true, fx(-3.0)), JumpStatus::GoingDown);
    // A downward-facing contact cannot be jumped from.
    assert_eq!(classify_jump(CEILING, true, true, fx(3.0)), JumpStatus::GoingUp);
    assert_eq!(classify_jump(CEILING, true, false, fx(3.0)), JumpStatus::StoppingUp);
    assert_eq!(classify_jump(CEILING, true, true, fx(-3.0)), JumpStatus::GoingDown);
}

#[test]
fn can_jump_clears_the_memory_and_leaves_the_velocity() {
    let s = settings();
    let mut v = Vec2 { x: fx(2.0), y: fx(0.5) };
    let (mid, imp) = apply_jump(JumpStatus::CanJump, &mut v, DT, INV_MASS, &s);
    assert!(!mid);
    assert_eq!(imp, Vec2 { x: 0, y: 0 });
    assert_eq!(v, Vec2 { x: fx(2.0), y: fx(0.5) });
}

#[test]
fn initiate_jump_boosts_by_the_scaled_impulse() {
    let s = settings();
    let mut v = Vec2 { x: fx(2.0), y: 0 };
    let (mid, imp) = apply_jump(JumpStatus::InitiateJump, &mut v, DT, INV_MASS, &s);
    assert!(mid);
    assert_eq!(imp, Vec2 { x: 0, y: fx(1000.0) });
    assert_eq!(v.y, 1000 * INV_MASS);
    assert_eq!(v.x, fx(2.0));
}

#[test]
fn going_up_changes_nothing_but_keeps_the_memory() {
    let s = settings();
    let mut v = Vec2 { x: 0, y: fx(7.0) };
    let (mid, imp) = apply_jump(JumpStatus::GoingUp, &mut v, DT, INV_MASS, &s);
    assert!(mid);
    assert_eq!(imp, Vec2 { x: 0, y: 0 });
    assert_eq!(v.y, fx(7.0));
}

#[test]
fn stopping_up_brakes_without_boost_above_the_bound() {
    // A rise braked to a value still above the start-fall bound gets no
    // extra downward boost; with brake 0.05 the bound would need a very
    // large rise, so lower the boost window instead.
    let mut s = settings();
    s.start_fall_before_peak = 0;
    let mut v = Vec2 { x: 0, y: fx(10.0) };
    let (mid, _) = apply_jump(JumpStatus::StoppingUp, &mut v, DT, INV_MASS, &s);
    assert!(!mid);
    let dt = 1048 as f64 / 65536.0;
    let expected = 10.0 * 0.05f64.powf(dt);
    let got = v.y as f64 / 65536.0;
    assert!((got - expected).abs() < 0.02, "got {got}, expected about {expected}");
}

#[test]
fn going_down_boosts_gravity_inside_the_range() {
    let s = settings();
    let mut v = Vec2 { x: 0, y: fx(-2.0) };
    let (mid, _) = apply_jump(JumpStatus::GoingDown, &mut v, DT, INV_MASS, &s);
    assert!(!mid);
    let dt = 1048 as f64 / 65536.0;
    let expected = -2.0 - 30.0 * dt;
    let got = v.y as f64 / 65536.0;
    assert!((got - expected).abs() < 0.001, "got {got}, expected about {expected}");
}

#[test]
fn going_down_multiplies_past_the_range() {
    let s = settings();
    let mut v = Vec2 { x: 0, y: fx(-9.0) };
    let (mid, _) = apply_jump(JumpStatus::GoingDown, &mut v, DT, INV_MASS, &s);
    assert!(!mid);
    let dt = 1048 as f64 / 65536.0;
    let expected = -9.0 * 1.06f64.powf(dt);
    let got = v.y as f64 / 65536.0;
    assert!((got - expected).abs() < 0.01, "got {got}, expected about {expected}");
}

#[test]
fn boundary_fall_speed_takes_the_boost_branch() {
    // Exactly at the range bound the comparison is strict: minus five is
    // not greater than minus five, so the multiplicative branch applies.
    let s = settings();
    let mut v = Vec2 { x: 0, y: -s.start_of_fall_range };
    let (_, _) = apply_jump(JumpStatus::GoingDown, &mut v, DT, INV_MASS, &s);
    let dt = 1048 as f64 / 65536.0;
    let expected = -5.0 * 1.06f64.powf(dt);
    let got = v.y as f64 / 65536.0;
    assert!((got - expected).abs() < 0.01, "got {got}, expected about {expected}");
}
