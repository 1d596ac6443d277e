use particles::saturation::{cap_check, delta_applies, CapCheck, Sign};

fn sign(x: f32) -> Sign {
    if x > 0.0 {
        Sign::Positive
    } else if x < 0.0 {
        Sign::Negative
    } else {
        Sign::Zero
    }
}

fn apply_capped(v: f32, delta: f32, cap: f32) -> f32 {
    if delta_applies(sign(delta), sign(v), sign(v + delta - cap)) {
        v + delta
    } else {
        v
    }
}

#[test]
fn cap_check_table() {
    assert_eq!(cap_check(Sign::Positive, Sign::Positive), CapCheck::AtMost);
    assert_eq!(cap_check(Sign::Positive, Sign::Zero), CapCheck::AtMost);
    assert_eq!(cap_check(Sign::Positive, Sign::Negative), CapCheck::Unconditional);
    assert_eq!(cap_check(Sign::Negative, Sign::Negative), CapCheck::AtLeast);
    assert_eq!(cap_check(Sign::Negative, Sign::Zero), CapCheck::AtLeast);
    assert_eq!(cap_check(Sign::Negative, Sign::Positive), CapCheck::Unconditional);
    assert_eq!(cap_check(Sign::Zero, Sign::Positive), CapCheck::Unconditional);
}

#[test]
fn delta_applies_table() {
    assert!(delta_applies(Sign::Positive, Sign::Positive, Sign::Negative));
    assert!(delta_applies(Sign::Positive, Sign::Positive, Sign::Zero));
    assert!(!delta_applies(Sign::Positive, Sign::Positive, Sign::Positive));
    assert!(!delta_applies(Sign::Negative, Sign::Zero, Sign::Negative));
    assert!(delta_applies(Sign::Negative, Sign::Zero, Sign::Positive));
    assert!(delta_applies(Sign::Positive, Sign::Negative, Sign::Positive));
}

#[test]
fn constant_force_saturates_below_cap() {
    // nx = 1, mass = 4: a change of 0.25 per tick under a cap of 2.
    let mut vx = 0.0f32;
    for _ in 0..100 {
        vx = apply_capped(vx, 1.0 / 4.0, 2.0);
        assert!(vx <= 2.0);
    }
    assert_eq!(vx, 2.0);
    // With nx = 1 and mass 1 the last step that would pass the cap is held back.
    let mut wx = 0.0f32;
    for _ in 0..10 {
        wx = apply_capped(wx, 1.5, 2.0);
        assert!(wx <= 2.0);
    }
    assert_eq!(wx, 1.5);
}

#[test]
fn constant_force_against_motion_is_unconditional() {
    let vx = apply_capped(-5.0, 1.0, 2.0);
    assert_eq!(vx, -4.0);
    let vy = apply_capped(5.0, -1.0, -2.0);
    assert_eq!(vy, 4.0);
}
