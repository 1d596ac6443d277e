use rand::Rng;
use vstd::arithmetic::div_mod::{lemma_add_mod_noop, lemma_mod_bound, lemma_small_mod};
use vstd::prelude::*;

use crate::window::{phases_of, ConfigError, Phase, Timed, Timing};

verus! {

/// Relies on rand's `thread_rng().gen_range(low..high)` over `u32`: a value
/// with `low <= r < high`. It panics on an empty range, which `requires`
/// leaves out, and when the operating system cannot seed the generator.
#[verifier::external_body]
fn random_in_range(low: u32, high: u32) -> (r: u32)
    requires
        low < high,
    ensures
        low <= r < high,
{
    rand::thread_rng().gen_range(low..high)
}

/// An ordered list of forces shared by the particles of one emitter, with a
/// cycle of `duration_ms` that repeats over the emitter's life.
pub struct ForceHandler<F> {
    duration_ms: u128,
    forces: Vec<Timed<F>>,
}

impl<F> ForceHandler<F> {
    pub closed spec fn duration_spec(&self) -> u128 {
        self.duration_ms
    }

    pub closed spec fn forces_spec(&self) -> Seq<Timed<F>> {
        self.forces@
    }

    pub open spec fn wf(&self) -> bool {
        self.duration_spec() > 0
    }

    /// An empty handler with a cycle of `duration_ms`; a cycle of zero is
    /// refused.
    pub fn new(duration_ms: u128) -> (r: Result<Self, ConfigError>)
        ensures
            duration_ms > 0 <==> r is Ok,
            r matches Ok(h) ==> h.wf() && h.duration_spec() == duration_ms
                && h.forces_spec().len() == 0,
            r matches Err(e) ==> e == ConfigError::ZeroDuration,
    {
        if duration_ms == 0 {
            return Err(ConfigError::ZeroDuration);
        }
        Ok(ForceHandler { duration_ms, forces: Vec::new() })
    }

    /// Appends a force, applied after those already there.
    pub fn add(&mut self, timing: Timing, force: F)
        ensures
            final(self).duration_spec() == old(self).duration_spec(),
            final(self).forces_spec() == old(self).forces_spec().push(
                Timed { timing, effect: force },
            ),
    {
        self.forces.push(Timed { timing, effect: force });
    }

    pub fn duration_ms(&self) -> (r: u128)
        ensures
            r == self.duration_spec(),
    {
        self.duration_ms
    }

    pub fn len(&self) -> (r: usize)
        ensures
            r == self.forces_spec().len(),
    {
        self.forces.len()
    }

    pub fn force(&self, i: usize) -> (r: &F)
        requires
            i < self.forces_spec().len(),
        ensures
            *r == self.forces_spec()[i as int].effect,
    {
        &self.forces[i].effect
    }

    /// The position in the cycle after `elapsed_ms` of the emitter's life.
    pub fn cycle_ms(&self, elapsed_ms: u128) -> (r: u128)
        requires
            self.wf(),
        ensures
            r == elapsed_ms % self.duration_spec(),
    {
        elapsed_ms % self.duration_ms
    }

    /// The phase of each force, in order, after `elapsed_ms` of the
    /// emitter's life.
    pub fn phases(&self, elapsed_ms: u128) -> (r: Vec<Phase>)
        requires
            self.wf(),
        ensures
            r@.len() == self.forces_spec().len(),
            forall|i: int|
                0 <= i < r@.len() ==> r@[i] == self.forces_spec()[i].timing.phase_spec(
                    (elapsed_ms % self.duration_spec()) as int,
                ),
    {
        let cycle = self.cycle_ms(elapsed_ms);
        phases_of(&self.forces, cycle)
    }
}

/// An ordered list of animations of an emitter's own emission parameters,
/// on a repeating cycle that starts when the emitter is created.
pub struct EmitterAnimationHandler<A> {
    animations: Vec<Timed<A>>,
    duration_ms: u32,
}

impl<A> EmitterAnimationHandler<A> {
    pub closed spec fn duration_spec(&self) -> u32 {
        self.duration_ms
    }

    pub closed spec fn animations_spec(&self) -> Seq<Timed<A>> {
        self.animations@
    }

    pub open spec fn wf(&self) -> bool {
        self.duration_spec() > 0
    }

    /// A handler over `animations` with a cycle of `duration_ms`; a cycle of
    /// zero is refused.
    pub fn new(duration_ms: u32, animations: Vec<Timed<A>>) -> (r: Result<Self, ConfigError>)
        ensures
            duration_ms > 0 <==> r is Ok,
            r matches Ok(h) ==> h.wf() && h.duration_spec() == duration_ms
                && h.animations_spec() == animations@,
            r matches Err(e) ==> e == ConfigError::ZeroDuration,
    {
        if duration_ms == 0 {
            return Err(ConfigError::ZeroDuration);
        }
        Ok(EmitterAnimationHandler { animations, duration_ms })
    }

    pub fn len(&self) -> (r: usize)
        ensures
            r == self.animations_spec().len(),
    {
        self.animations.len()
    }

    pub fn animation(&self, i: usize) -> (r: &A)
        requires
            i < self.animations_spec().len(),
        ensures
            *r == self.animations_spec()[i as int].effect,
    {
        &self.animations[i].effect
    }

    /// The position in the cycle after `elapsed_ms` of the emitter's life.
    pub fn cycle_ms(&self, elapsed_ms: u128) -> (r: u32)
        requires
            self.wf(),
        ensures
            r == (elapsed_ms as int) % (self.duration_spec() as int),
    {
        proof {
            lemma_mod_bound(elapsed_ms as int, self.duration_ms as int);
        }
        (elapsed_ms % (self.duration_ms as u128)) as u32
    }

    /// The phase of each animation, in order, after `elapsed_ms` of the
    /// emitter's life.
    pub fn phases(&self, elapsed_ms: u128) -> (r: Vec<Phase>)
        requires
            self.wf(),
        ensures
            r@.len() == self.animations_spec().len(),
            forall|i: int|
                0 <= i < r@.len() ==> r@[i] == self.animations_spec()[i].timing.phase_spec(
                    (elapsed_ms as int) % (self.duration_spec() as int),
                ),
    {
        let cycle = self.cycle_ms(elapsed_ms);
        phases_of(&self.animations, cycle as u128)
    }
}

/// The time handed to particle animations: the position in the repeating
/// cycle, and the particle's whole age.
#[derive(Debug, Clone, Copy, PartialEq, Eq, Structural)]
pub struct AnimationTime {
    pub cycle_ms: u32,
    pub total_ms: u128,
}

/// Where in its cycle the animation of each particle starts.
#[derive(Debug, Clone, Copy, PartialEq, Eq, Structural)]
pub enum StartAnimationAt {
    /// At the start of the cycle.
    Zero,
    /// At a random point of the cycle.
    Random,
    /// At a random point of `[start, end)` within the cycle.
    RangeMs(u32, u32),
}

/// What a particle animation handler is built from.
pub struct AnimationOptions<A> {
    pub animations: Vec<Timed<A>>,
    pub duration_ms: u32,
    pub start_at: StartAnimationAt,
}

impl<A> AnimationOptions<A> {
    pub fn new(duration_ms: u32, start_at: StartAnimationAt, animations: Vec<Timed<A>>) -> (r:
        Self)
        ensures
            r.duration_ms == duration_ms,
            r.start_at == start_at,
            r.animations@ == animations@,
    {
        AnimationOptions { animations, duration_ms, start_at }
    }
}

/// Why a handler with this cycle and start would be refused, if it would.
pub open spec fn options_error(duration_ms: u32, start_at: StartAnimationAt) -> Option<
    ConfigError,
> {
    if duration_ms == 0 {
        Some(ConfigError::ZeroDuration)
    } else {
        match start_at {
            StartAnimationAt::RangeMs(start, end) => if end <= start {
                Some(ConfigError::EmptyOffsetRange)
            } else if duration_ms < end {
                Some(ConfigError::OffsetRangeOutsideCycle)
            } else {
                None
            },
            _ => None,
        }
    }
}

/// The offsets that a handler built with `start_at` may pick.
pub open spec fn offset_allowed(duration_ms: u32, start_at: StartAnimationAt, offset: u32) -> bool {
    match start_at {
        StartAnimationAt::Zero => offset == 0,
        StartAnimationAt::Random => offset < duration_ms,
        StartAnimationAt::RangeMs(start, end) => start <= offset < end,
    }
}

/// An ordered list of particle animations with a repeating cycle, shifted by
/// a phase offset chosen once so that particles do not pulse in lockstep.
pub struct AnimationHandler<A> {
    animation_offset_ms: u32,
    animations: Vec<Timed<A>>,
    duration_ms: u32,
}

impl<A> AnimationHandler<A> {
    pub closed spec fn duration_spec(&self) -> u32 {
        self.duration_ms
    }

    pub closed spec fn offset_spec(&self) -> u32 {
        self.animation_offset_ms
    }

    pub closed spec fn animations_spec(&self) -> Seq<Timed<A>> {
        self.animations@
    }

    pub open spec fn wf(&self) -> bool {
        &&& self.duration_spec() > 0
        &&& self.offset_spec() < self.duration_spec()
    }

    /// A handler built from `options` with the phase offset `offset_ms`;
    /// refused when the options are, or when `start_at` does not allow that
    /// offset.
    pub fn with_offset(options: AnimationOptions<A>, offset_ms: u32) -> (r: Result<Self, ConfigError>)
        ensures
            options_error(options.duration_ms, options.start_at) is None && offset_allowed(
                options.duration_ms,
                options.start_at,
                offset_ms,
            ) <==> r is Ok,
            r matches Ok(h) ==> {
                &&& h.wf()
                &&& h.duration_spec() == options.duration_ms
                &&& h.animations_spec() == options.animations@
                &&& h.offset_spec() == offset_ms
            },
            r matches Err(e) ==> match options_error(options.duration_ms, options.start_at) {
                Some(o) => e == o,
                None => e == ConfigError::OffsetOutsideRange,
            },
    {
        let duration_ms = options.duration_ms;
        if duration_ms == 0 {
            return Err(ConfigError::ZeroDuration);
        }
        let allowed = match options.start_at {
            StartAnimationAt::Zero => offset_ms == 0,
            StartAnimationAt::Random => offset_ms < duration_ms,
            StartAnimationAt::RangeMs(start, end) => {
                if end <= start {
                    return Err(ConfigError::EmptyOffsetRange);
                }
                if duration_ms < end {
                    return Err(ConfigError::OffsetRangeOutsideCycle);
                }
                start <= offset_ms && offset_ms < end
            },
        };
        if !allowed {
            return Err(ConfigError::OffsetOutsideRange);
        }
        Ok(AnimationHandler { animation_offset_ms: offset_ms, animations: options.animations, duration_ms })
    }

    /// A handler built from `options`, with its phase offset drawn as
    /// `start_at` says; refused when the cycle is zero or the offset range
    /// is empty or reaches past the cycle.
    pub fn new(options: AnimationOptions<A>) -> (r: Result<Self, ConfigError>)
        ensures
            options_error(options.duration_ms, options.start_at) is None <==> r is Ok,
            r matches Ok(h) ==> {
                &&& h.wf()
                &&& h.duration_spec() == options.duration_ms
                &&& h.animations_spec() == options.animations@
                &&& offset_allowed(options.duration_ms, options.start_at, h.offset_spec())
            },
            r matches Err(e) ==> options_error(options.duration_ms, options.start_at) == Some(e),
    {
        let duration_ms = options.duration_ms;
        if duration_ms == 0 {
            return Err(ConfigError::ZeroDuration);
        }
        let offset_ms = match options.start_at {
            StartAnimationAt::Zero => 0,
            StartAnimationAt::Random => random_in_range(0, duration_ms),
            StartAnimationAt::RangeMs(start, end) => {
                if end <= start {
                    return Err(ConfigError::EmptyOffsetRange);
                }
                if duration_ms < end {
                    return Err(ConfigError::OffsetRangeOutsideCycle);
                }
                random_in_range(start, end)
            },
        };
        Self::with_offset(options, offset_ms)
    }

    pub fn offset_ms(&self) -> (r: u32)
        ensures
            r == self.offset_spec(),
    {
        self.animation_offset_ms
    }

    pub fn len(&self) -> (r: usize)
        ensures
            r == self.animations_spec().len(),
    {
        self.animations.len()
    }

    pub fn animation(&self, i: usize) -> (r: &A)
        requires
            i < self.animations_spec().len(),
        ensures
            *r == self.animations_spec()[i as int].effect,
    {
        &self.animations[i].effect
    }

    /// The animation time of a particle of age `elapsed_ms`: its age shifted
    /// by the phase offset, taken modulo the cycle.
    pub fn time_at(&self, elapsed_ms: u128) -> (r: AnimationTime)
        requires
            self.wf(),
        ensures
            r.cycle_ms == (elapsed_ms as int + self.offset_spec() as int) % (self.duration_spec() as int),
            r.total_ms == elapsed_ms,
    {
        let d = self.duration_ms as u128;
        let o = self.animation_offset_ms as u128;
        proof {
            lemma_mod_bound(elapsed_ms as int, d as int);
            lemma_small_mod(o as nat, d as nat);
            lemma_add_mod_noop(elapsed_ms as int, o as int, d as int);
            lemma_mod_bound((elapsed_ms % d) + o, d as int);
        }
        let cycle = ((elapsed_ms % d) + o) % d;
        AnimationTime { cycle_ms: cycle as u32, total_ms: elapsed_ms }
    }

    /// The phase of each animation, in order, at `time`.
    pub fn phases(&self, time: &AnimationTime) -> (r: Vec<Phase>)
        ensures
            r@.len() == self.animations_spec().len(),
            forall|i: int|
                0 <= i < r@.len() ==> r@[i] == self.animations_spec()[i].timing.phase_spec(
                    time.cycle_ms as int,
                ),
    {
        phases_of(&self.animations, time.cycle_ms as u128)
    }
}

} // verus!
