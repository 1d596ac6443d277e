use vstd::prelude::*;

use crate::trail::{Fraction, TrailAnimation, TrailHandler, TrailOptions};

verus! {

pub open spec fn fading_trail_options() -> TrailOptions {
    TrailOptions {
        update_ms: 16,
        opacity_loss_per_update: Fraction { numerator: 1, denominator: 3 },
        diameter_fraction: Fraction { numerator: 1, denominator: 2 },
        from_ms: 0,
        until_ms: 10_000,
    }
}

/// A trail on a ten-second cycle, updated every 16 ms, losing a third of
/// its opacity per update, at half the particle's diameter.
pub fn trail_animation() -> (r: TrailHandler)
    ensures
        r.duration_ms == 10_000,
        r.trail_animations@ == seq![TrailAnimation { options: fading_trail_options() }],
{
    let trail_animations = vec![
        TrailAnimation::new(
            TrailOptions {
                update_ms: 16,
                opacity_loss_per_update: Fraction { numerator: 1, denominator: 3 },
                diameter_fraction: Fraction { numerator: 1, denominator: 2 },
                from_ms: 0,
                until_ms: 10_000,
            },
        ),
    ];
    assert(trail_animations@ =~= seq![TrailAnimation { options: fading_trail_options() }]);
    TrailHandler { duration_ms: 10_000, trail_animations }
}

} // verus!
