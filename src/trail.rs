use vstd::prelude::*;

verus! {

/// An exact fraction `numerator / denominator`.
#[derive(Debug, Clone, Copy, PartialEq, Eq, Structural)]
pub struct Fraction {
    pub numerator: u32,
    pub denominator: u32,
}

/// Settings of a particle trail: how often it is updated, the opacity it
/// loses per update, its diameter as a fraction of the particle's, and the
/// window `[from_ms, until_ms)` of the trail cycle in which it runs.
#[derive(Debug, Clone, Copy, PartialEq, Eq, Structural)]
pub struct TrailOptions {
    pub update_ms: u32,
    pub opacity_loss_per_update: Fraction,
    pub diameter_fraction: Fraction,
    pub from_ms: u32,
    pub until_ms: u32,
}

/// One trail effect.
#[derive(Debug, Clone, Copy, PartialEq, Eq, Structural)]
pub struct TrailAnimation {
    pub options: TrailOptions,
}

impl TrailAnimation {
    pub fn new(options: TrailOptions) -> (r: TrailAnimation)
        ensures
            r.options == options,
    {
        TrailAnimation { options }
    }
}

/// The trail effects of a particle, on a cycle of `duration_ms`.
pub struct TrailHandler {
    pub duration_ms: u32,
    pub trail_animations: Vec<TrailAnimation>,
}

} // verus!
