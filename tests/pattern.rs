use particles::pattern::trail_animation;
use particles::trail::{Fraction, TrailAnimation, TrailOptions};

#[test]
fn trail_preset() {
    let h = trail_animation();
    assert_eq!(h.duration_ms, 10_000);
    assert_eq!(
        h.trail_animations,
        vec![TrailAnimation::new(TrailOptions {
            update_ms: 16,
            opacity_loss_per_update: Fraction { numerator: 1, denominator: 3 },
            diameter_fraction: Fraction { numerator: 1, denominator: 2 },
            from_ms: 0,
            until_ms: 10_000,
        })]
    );
}
