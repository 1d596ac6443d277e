use vstd::prelude::*;

use crate::window::ConfigError;

verus! {

/// When something was spawned and how long it lives, in milliseconds of the
/// simulation clock. For an emitter, `iteration` is the number of the last
/// emission window in which it emitted, `None` before its first emission.
#[derive(Debug, Clone, Copy, PartialEq, Eq, Structural)]
pub struct LifeCycle {
    pub spawned_at: u128,
    pub duration_ms: u128,
    pub iteration: Option<u128>,
}

/// How an emitter emits: `particles_per_emission` particles once in every
/// window of `delay_between_emission_ms`.
#[derive(Debug, Clone, Copy, PartialEq, Eq, Structural)]
pub struct EmitSchedule {
    pub particles_per_emission: u32,
    pub delay_between_emission_ms: u32,
}

/// What an emitter does on one tick.
#[derive(Debug, Clone, Copy, PartialEq, Eq, Structural)]
pub enum EmitterStep {
    /// Its time is over and no particle of it is left: it goes.
    Despawn,
    /// Nothing this tick.
    Wait,
    /// A new emission window has begun: spawn `count` particles.
    Emit { iteration: u128, count: u32 },
}

impl EmitSchedule {
    pub open spec fn wf(self) -> bool {
        self.delay_between_emission_ms > 0
    }

    /// A schedule; a delay of zero between emissions is refused.
    pub fn new(particles_per_emission: u32, delay_between_emission_ms: u32) -> (r: Result<
        EmitSchedule,
        ConfigError,
    >)
        ensures
            delay_between_emission_ms > 0 ==> r == Ok::<EmitSchedule, ConfigError>(
                EmitSchedule { particles_per_emission, delay_between_emission_ms },
            ),
            delay_between_emission_ms == 0 ==> r == Err::<EmitSchedule, ConfigError>(
                ConfigError::ZeroDelay,
            ),
    {
        if delay_between_emission_ms == 0 {
            Err(ConfigError::ZeroDelay)
        } else {
            Ok(EmitSchedule { particles_per_emission, delay_between_emission_ms })
        }
    }
}

/// The elapsed time of `l` at `now`, and whether its time is over.
pub open spec fn elapsed_spec(l: LifeCycle, now: int) -> int {
    now - l.spawned_at
}

pub open spec fn expired_spec(l: LifeCycle, now: int) -> bool {
    l.duration_ms < elapsed_spec(l, now)
}

/// The emission window that `now` falls in.
pub open spec fn window_index(l: LifeCycle, s: EmitSchedule, now: int) -> int {
    elapsed_spec(l, now) / (s.delay_between_emission_ms as int)
}

/// One tick of an emitter at `now` with `live` particles of it alive: the
/// new lifecycle and what to do.
pub open spec fn step_spec(l: LifeCycle, s: EmitSchedule, now: int, live: int) -> (
    LifeCycle,
    EmitterStep,
) {
    if expired_spec(l, now) {
        (l, if live == 0 { EmitterStep::Despawn } else { EmitterStep::Wait })
    } else if l.iteration == Some(window_index(l, s, now) as u128) {
        (l, EmitterStep::Wait)
    } else {
        (
            LifeCycle { iteration: Some(window_index(l, s, now) as u128), ..l },
            EmitterStep::Emit {
                iteration: window_index(l, s, now) as u128,
                count: s.particles_per_emission,
            },
        )
    }
}

impl LifeCycle {
    /// A lifecycle that starts at `spawned_at` and lasts `duration_ms`;
    /// a duration of zero is refused.
    pub fn new(spawned_at: u128, duration_ms: u128) -> (r: Result<LifeCycle, ConfigError>)
        ensures
            duration_ms > 0 ==> r == Ok::<LifeCycle, ConfigError>(
                LifeCycle { spawned_at, duration_ms, iteration: None },
            ),
            duration_ms == 0 ==> r == Err::<LifeCycle, ConfigError>(ConfigError::ZeroDuration),
    {
        if duration_ms == 0 {
            Err(ConfigError::ZeroDuration)
        } else {
            Ok(LifeCycle { spawned_at, duration_ms, iteration: None })
        }
    }

    /// Milliseconds since the spawn, at simulation time `total_elapsed_ms`.
    pub fn elapsed_ms(&self, total_elapsed_ms: u128) -> (r: u128)
        requires
            self.spawned_at <= total_elapsed_ms,
        ensures
            r == elapsed_spec(*self, total_elapsed_ms as int),
    {
        total_elapsed_ms - self.spawned_at
    }

    /// Whether the lifetime has run out at `total_elapsed_ms`: more than
    /// `duration_ms` has passed since the spawn.
    pub fn is_expired(&self, total_elapsed_ms: u128) -> (r: bool)
        requires
            self.spawned_at <= total_elapsed_ms,
        ensures
            r == expired_spec(*self, total_elapsed_ms as int),
    {
        self.duration_ms < self.elapsed_ms(total_elapsed_ms)
    }

    /// One tick of an emitter at `total_elapsed_ms`, with `live_particles` of
    /// its particles alive. Once its time is over it waits for its particles
    /// to go and then despawns; before that it emits once in each emission
    /// window, on the first tick that falls in it.
    pub fn step(&mut self, schedule: &EmitSchedule, total_elapsed_ms: u128, live_particles: usize) -> (r:
        EmitterStep)
        requires
            schedule.wf(),
            old(self).spawned_at <= total_elapsed_ms,
        ensures
            (*final(self), r) == step_spec(
                *old(self),
                *schedule,
                total_elapsed_ms as int,
                live_particles as int,
            ),
    {
        if self.is_expired(total_elapsed_ms) {
            if live_particles == 0 {
                return EmitterStep::Despawn;
            } else {
                return EmitterStep::Wait;
            }
        }
        let new_iteration = self.elapsed_ms(total_elapsed_ms)
            / (schedule.delay_between_emission_ms as u128);
        if self.iteration == Some(new_iteration) {
            return EmitterStep::Wait;
        }
        self.iteration = Some(new_iteration);
        EmitterStep::Emit { iteration: new_iteration, count: schedule.particles_per_emission }
    }
}

/// The lifecycle of an emitter after it ticked at each time of `ticks` in
/// turn, within its duration.
pub open spec fn after_ticks(l: LifeCycle, s: EmitSchedule, ticks: Seq<u128>) -> LifeCycle
    decreases ticks.len(),
{
    if ticks.len() == 0 {
        l
    } else {
        step_spec(after_ticks(l, s, ticks.drop_last()), s, ticks.last() as int, 1).0
    }
}

/// The iteration numbers of the emissions made by those ticks, in order.
pub open spec fn emissions(l: LifeCycle, s: EmitSchedule, ticks: Seq<u128>) -> Seq<u128>
    decreases ticks.len(),
{
    if ticks.len() == 0 {
        Seq::empty()
    } else {
        let before = emissions(l, s, ticks.drop_last());
        match step_spec(after_ticks(l, s, ticks.drop_last()), s, ticks.last() as int, 1).1 {
            EmitterStep::Emit { iteration, .. } => before.push(iteration),
            _ => before,
        }
    }
}

proof fn lemma_next_window(a: int, b: int, d: int)
    requires
        0 <= a <= b <= a + d,
        0 < d,
    ensures
        b / d == a / d || b / d == a / d + 1,
{
    assert(a / d <= b / d <= a / d + 1) by (nonlinear_arith)
        requires
            0 <= a <= b <= a + d,
            0 < d,
    ;
}

/// Emission cadence: an emitter that has not emitted yet, ticked within its
/// duration at times that never go back, no two consecutive ones more than
/// one delay apart and the first inside the first emission window, emits
/// exactly once in each emission window up to that of the last tick, in
/// order: its emissions are numbered 0, 1, ..., (elapsed at the last tick) /
/// delay, however the ticks fall against the window boundaries.
pub proof fn lemma_emission_cadence(l: LifeCycle, s: EmitSchedule, ticks: Seq<u128>)
    requires
        l.iteration is None,
        s.wf(),
        ticks.len() > 0,
        forall|i: int|
            0 <= i < ticks.len() ==> l.spawned_at <= ticks[i] && !expired_spec(l, ticks[i] as int),
        forall|i: int|
            0 < i < ticks.len() ==> ticks[i - 1] <= #[trigger] ticks[i] <= ticks[i - 1]
                + s.delay_between_emission_ms,
        ticks[0] - l.spawned_at < s.delay_between_emission_ms,
    ensures
        emissions(l, s, ticks) == Seq::new(
            (window_index(l, s, ticks.last() as int) + 1) as nat,
            |i: int| i as u128,
        ),
        after_ticks(l, s, ticks) == (LifeCycle {
            iteration: Some(window_index(l, s, ticks.last() as int) as u128),
            ..l
        }),
    decreases ticks.len(),
{
    let d = s.delay_between_emission_ms as int;
    let last = ticks.last() as int;
    let prev = ticks.drop_last();
    if ticks.len() == 1 {
        assert(prev.len() == 0);
        assert(window_index(l, s, last) == 0) by (nonlinear_arith)
            requires
                0 <= last - l.spawned_at < d,
                window_index(l, s, last) == (last - l.spawned_at) / d,
        ;
        assert(after_ticks(l, s, prev) == l);
        assert(emissions(l, s, prev) == Seq::<u128>::empty());
        assert(!expired_spec(l, last)) by {
            assert(ticks[0] == last);
        }
        assert(emissions(l, s, ticks) == Seq::<u128>::empty().push(0));
        assert(emissions(l, s, ticks) =~= Seq::new(1, |i: int| i as u128));
    } else {
        assert forall|i: int| 0 < i < prev.len() implies prev[i - 1] <= #[trigger] prev[i] <= prev[i - 1]
            + s.delay_between_emission_ms by {
            assert(prev[i] == ticks[i] && prev[i - 1] == ticks[i - 1]);
        }
        assert forall|i: int| 0 <= i < prev.len() implies l.spawned_at <= prev[i]
            && !expired_spec(l, prev[i] as int) by {
            assert(prev[i] == ticks[i]);
        }
        lemma_emission_cadence(l, s, prev);
        let p = prev.last() as int;
        assert(p == ticks[ticks.len() - 2]);
        let q = window_index(l, s, p);
        let q2 = window_index(l, s, last);
        lemma_next_window(p - l.spawned_at, last - l.spawned_at, d);
        assert(0 <= q) by (nonlinear_arith)
            requires
                0 <= p - l.spawned_at,
                0 < d,
                q == (p - l.spawned_at) / d,
        ;
        assert(q2 <= last - l.spawned_at) by (nonlinear_arith)
            requires
                0 <= last - l.spawned_at,
                0 < d,
                q2 == (last - l.spawned_at) / d,
        ;
        if q2 == q {
            assert(emissions(l, s, ticks) =~= Seq::new((q2 + 1) as nat, |i: int| i as u128));
        } else {
            assert(emissions(l, s, ticks) =~= Seq::new((q2 + 1) as nat, |i: int| i as u128));
        }
    }
}

proof fn lemma_window_bounds(l: LifeCycle, s: EmitSchedule, now: int)
    requires
        s.wf(),
        l.spawned_at <= now <= u128::MAX,
    ensures
        0 <= window_index(l, s, now) <= elapsed_spec(l, now),
{
    let e = elapsed_spec(l, now);
    let d = s.delay_between_emission_ms as int;
    assert(0 <= e / d <= e) by (nonlinear_arith)
        requires
            0 <= e,
            0 < d,
    ;
}

/// Emissions never repeat: an emitter that has not emitted yet, ticked at
/// times that never go back and all within its duration, emits in strictly
/// increasing emission windows, none later than the window of the last tick,
/// however many ticks fall in one window; afterwards it holds the window of
/// the last tick.
pub proof fn lemma_emissions_never_repeat(l: LifeCycle, s: EmitSchedule, ticks: Seq<u128>)
    requires
        l.iteration is None,
        s.wf(),
        forall|i: int|
            0 <= i < ticks.len() ==> l.spawned_at <= ticks[i] && !expired_spec(l, ticks[i] as int),
        forall|i: int| 0 < i < ticks.len() ==> ticks[i - 1] <= #[trigger] ticks[i],
    ensures
        forall|i: int, j: int|
            0 <= i < j < emissions(l, s, ticks).len() ==> emissions(l, s, ticks)[i] < emissions(
                l,
                s,
                ticks,
            )[j],
        ticks.len() > 0 ==> forall|i: int|
            0 <= i < emissions(l, s, ticks).len() ==> emissions(l, s, ticks)[i] <= window_index(
                l,
                s,
                ticks.last() as int,
            ),
        ticks.len() > 0 ==> after_ticks(l, s, ticks) == (LifeCycle {
            iteration: Some(window_index(l, s, ticks.last() as int) as u128),
            ..l
        }),
    decreases ticks.len(),
{
    if ticks.len() > 0 {
        let prev = ticks.drop_last();
        let last = ticks.last() as int;
        assert forall|i: int| 0 < i < prev.len() implies prev[i - 1] <= #[trigger] prev[i] by {
            assert(prev[i] == ticks[i] && prev[i - 1] == ticks[i - 1]);
        }
        assert forall|i: int| 0 <= i < prev.len() implies l.spawned_at <= prev[i]
            && !expired_spec(l, prev[i] as int) by {
            assert(prev[i] == ticks[i]);
        }
        lemma_emissions_never_repeat(l, s, prev);
        assert(l.spawned_at <= ticks[ticks.len() - 1] && !expired_spec(l, last));
        lemma_window_bounds(l, s, last);
        let q2 = window_index(l, s, last);
        if prev.len() == 0 {
            assert(after_ticks(l, s, prev) == l);
            assert(emissions(l, s, prev) == Seq::<u128>::empty());
            assert(emissions(l, s, ticks) =~= seq![q2 as u128]);
        } else {
            let p = prev.last() as int;
            assert(p == ticks[ticks.len() - 2]);
            assert(l.spawned_at <= p);
            lemma_window_bounds(l, s, p);
            let q = window_index(l, s, p);
            let d = s.delay_between_emission_ms as int;
            assert(q <= q2) by (nonlinear_arith)
                requires
                    0 <= p - l.spawned_at <= last - l.spawned_at,
                    0 < d,
                    q == (p - l.spawned_at) / d,
                    q2 == (last - l.spawned_at) / d,
            ;
            let before = emissions(l, s, prev);
            if q2 != q {
                assert(emissions(l, s, ticks) == before.push(q2 as u128));
            } else {
                assert(emissions(l, s, ticks) == before);
            }
        }
    }
}

} // verus!
