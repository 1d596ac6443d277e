use vstd::prelude::*;

verus! {

/// Why a configuration was refused at construction.
#[derive(Debug, Clone, Copy, PartialEq, Eq, Structural)]
pub enum ConfigError {
    /// A repeating cycle or a lifetime of zero milliseconds.
    ZeroDuration,
    /// A delay of zero milliseconds between two emissions.
    ZeroDelay,
    /// A time window whose start is not before its end.
    EmptyWindow,
    /// A phase-offset range whose start is not before its end.
    EmptyOffsetRange,
    /// A phase-offset range that reaches past the end of the cycle.
    OffsetRangeOutsideCycle,
    /// A phase offset that the chosen start does not allow.
    OffsetOutsideRange,
}

/// The half-open interval `[from_ms, until_ms)` of a cycle during which an
/// effect applies.
#[derive(Debug, Clone, Copy, PartialEq, Eq, Structural)]
pub struct TimeWindow {
    pub from_ms: u128,
    pub until_ms: u128,
}

/// How far a cycle time has advanced into a window: `elapsed_ms` out of
/// `span_ms`, so the window fraction is `elapsed_ms / span_ms`.
#[derive(Debug, Clone, Copy, PartialEq, Eq, Structural)]
pub struct Progress {
    pub elapsed_ms: u128,
    pub span_ms: u128,
}

impl TimeWindow {
    pub open spec fn contains_spec(self, cycle_ms: int) -> bool {
        self.from_ms <= cycle_ms < self.until_ms
    }

    pub open spec fn progress_spec(self, cycle_ms: int) -> Progress {
        Progress {
            elapsed_ms: (cycle_ms - self.from_ms) as u128,
            span_ms: (self.until_ms - self.from_ms) as u128,
        }
    }

    /// A window from `from_ms` up to, not including, `until_ms`; refused
    /// when it would hold no instant.
    pub fn new(from_ms: u128, until_ms: u128) -> (r: Result<TimeWindow, ConfigError>)
        ensures
            from_ms < until_ms ==> r == Ok::<TimeWindow, ConfigError>(
                TimeWindow { from_ms, until_ms },
            ),
            until_ms <= from_ms ==> r == Err::<TimeWindow, ConfigError>(ConfigError::EmptyWindow),
    {
        if from_ms < until_ms {
            Ok(TimeWindow { from_ms, until_ms })
        } else {
            Err(ConfigError::EmptyWindow)
        }
    }

    /// Whether the effect applies at `cycle_ms`: the start is included, the
    /// end is not.
    pub fn contains(&self, cycle_ms: u128) -> (r: bool)
        ensures
            r == self.contains_spec(cycle_ms as int),
    {
        self.from_ms <= cycle_ms && cycle_ms < self.until_ms
    }

    /// Where `cycle_ms` stands inside the window, or `None` outside it.
    pub fn progress(&self, cycle_ms: u128) -> (r: Option<Progress>)
        ensures
            r == (if self.contains_spec(cycle_ms as int) {
                Some(self.progress_spec(cycle_ms as int))
            } else {
                None
            }),
            r matches Some(p) ==> p.elapsed_ms < p.span_ms,
    {
        if self.contains(cycle_ms) {
            Some(Progress { elapsed_ms: cycle_ms - self.from_ms, span_ms: self.until_ms - self.from_ms })
        } else {
            None
        }
    }
}

/// When an effect of a handler applies within the handler's cycle.
#[derive(Debug, Clone, Copy, PartialEq, Eq, Structural)]
pub enum Timing {
    /// At every instant of the cycle.
    Always,
    /// Only inside the window.
    Within(TimeWindow),
}

/// What an effect should do at a given cycle time.
#[derive(Debug, Clone, Copy, PartialEq, Eq, Structural)]
pub enum Phase {
    /// It does nothing.
    Idle,
    /// It applies, and is not tied to a window.
    Active,
    /// It applies, this far into its window.
    Within(Progress),
}

impl Timing {
    pub open spec fn phase_spec(self, cycle_ms: int) -> Phase {
        match self {
            Timing::Always => Phase::Active,
            Timing::Within(w) => if w.contains_spec(cycle_ms) {
                Phase::Within(w.progress_spec(cycle_ms))
            } else {
                Phase::Idle
            },
        }
    }

    /// The phase of an effect with this timing at `cycle_ms`.
    pub fn phase(&self, cycle_ms: u128) -> (r: Phase)
        ensures
            r == self.phase_spec(cycle_ms as int),
    {
        match self {
            Timing::Always => Phase::Active,
            Timing::Within(w) => match w.progress(cycle_ms) {
                Some(p) => Phase::Within(p),
                None => Phase::Idle,
            },
        }
    }
}

/// An effect together with the part of the cycle in which it applies.
pub struct Timed<E> {
    pub timing: Timing,
    pub effect: E,
}

/// The phase of each effect of `effects` at `cycle_ms`, in their order.
pub fn phases_of<E>(effects: &Vec<Timed<E>>, cycle_ms: u128) -> (r: Vec<Phase>)
    ensures
        r@.len() == effects@.len(),
        forall|i: int|
            0 <= i < effects@.len() ==> r@[i] == effects@[i].timing.phase_spec(cycle_ms as int),
{
    let mut r: Vec<Phase> = Vec::new();
    let mut i: usize = 0;
    while i < effects.len()
        invariant
            i <= effects@.len(),
            r@.len() == i,
            forall|j: int| 0 <= j < i ==> r@[j] == effects@[j].timing.phase_spec(cycle_ms as int),
        decreases effects@.len() - i,
    {
        let p = effects[i].timing.phase(cycle_ms);
        r.push(p);
        i = i + 1;
    }
    r
}

} // verus!
