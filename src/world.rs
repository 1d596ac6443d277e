use vstd::prelude::*;

use crate::lifecycle::{expired_spec, step_spec, EmitSchedule, EmitterStep, LifeCycle};
use crate::window::ConfigError;

verus! {

/// An emitter in the arena: its lifecycle and schedule, the lifetime it
/// gives its particles, and whatever else its user keeps with it.
pub struct EmitterEntry<E> {
    pub life: LifeCycle,
    pub schedule: EmitSchedule,
    pub particle_lifetime_ms: u128,
    pub data: E,
}

/// A particle in the arena: the index of the emitter that spawned it, its
/// lifecycle, and whatever else its user keeps with it.
pub struct ParticleEntry<P> {
    pub owner: usize,
    pub life: LifeCycle,
    pub data: P,
}

/// The number of particles of `ps` spawned by emitter `e`.
pub open spec fn owned_count<P>(ps: Seq<ParticleEntry<P>>, e: int) -> nat
    decreases ps.len(),
{
    if ps.len() == 0 {
        0
    } else {
        owned_count(ps.drop_last(), e) + if ps.last().owner == e {
            1nat
        } else {
            0nat
        }
    }
}

proof fn lemma_owned_count_bound<P>(ps: Seq<ParticleEntry<P>>, e: int)
    ensures
        owned_count(ps, e) <= ps.len(),
    decreases ps.len(),
{
    if ps.len() > 0 {
        lemma_owned_count_bound(ps.drop_last(), e);
    }
}

proof fn lemma_owned_count_zero<P>(ps: Seq<ParticleEntry<P>>, e: int)
    requires
        owned_count(ps, e) == 0,
    ensures
        forall|i: int| 0 <= i < ps.len() ==> #[trigger] ps[i].owner != e,
    decreases ps.len(),
{
    if ps.len() > 0 {
        lemma_owned_count_zero(ps.drop_last(), e);
        assert forall|i: int| 0 <= i < ps.len() implies #[trigger] ps[i].owner != e by {
            if i < ps.len() - 1 {
                assert(ps[i] == ps.drop_last()[i]);
            }
        }
    }
}

/// The number of emitters of `slots` that have not despawned.
pub open spec fn live_slot_count<E>(slots: Seq<Option<EmitterEntry<E>>>) -> nat
    decreases slots.len(),
{
    if slots.len() == 0 {
        0
    } else {
        live_slot_count(slots.drop_last()) + if slots.last() is Some {
            1nat
        } else {
            0nat
        }
    }
}

proof fn lemma_live_slot_count_bound<E>(slots: Seq<Option<EmitterEntry<E>>>)
    ensures
        live_slot_count(slots) <= slots.len(),
    decreases slots.len(),
{
    if slots.len() > 0 {
        lemma_live_slot_count_bound(slots.drop_last());
    }
}

/// Why an emitter with these settings would be refused, if it would.
pub open spec fn emitter_error(duration_ms: u128, schedule: EmitSchedule, particle_lifetime_ms: u128) -> Option<
    ConfigError,
> {
    if duration_ms == 0 || particle_lifetime_ms == 0 {
        Some(ConfigError::ZeroDuration)
    } else if schedule.delay_between_emission_ms == 0 {
        Some(ConfigError::ZeroDelay)
    } else {
        None
    }
}

/// An emitter slot after one tick at `now` with `live` particles of its
/// emitter alive, and what the emitter does; an empty slot stays empty.
pub open spec fn slot_after<E>(slot: Option<EmitterEntry<E>>, now: int, live: int) -> (
    Option<EmitterEntry<E>>,
    EmitterStep,
) {
    match slot {
        None => (None, EmitterStep::Wait),
        Some(en) => {
            let (life, step) = step_spec(en.life, en.schedule, now, live);
            (
                if step == EmitterStep::Despawn {
                    None
                } else {
                    Some(EmitterEntry { life, ..en })
                },
                step,
            )
        },
    }
}

/// The particles of `ps` whose mark in `marks` is false, in order.
pub open spec fn unmarked<P>(ps: Seq<ParticleEntry<P>>, marks: Seq<bool>) -> Seq<ParticleEntry<P>>
    decreases ps.len(),
{
    if ps.len() == 0 {
        Seq::empty()
    } else {
        let rest = unmarked(ps.drop_last(), marks);
        if marks[ps.len() - 1] {
            rest
        } else {
            rest.push(ps.last())
        }
    }
}

proof fn lemma_unmarked_prefix<P>(ps: Seq<ParticleEntry<P>>, marks: Seq<bool>, k: int)
    requires
        0 <= k < ps.len(),
    ensures
        unmarked(ps.take(k + 1), marks) == if marks[k] {
            unmarked(ps.take(k), marks)
        } else {
            unmarked(ps.take(k), marks).push(ps[k])
        },
{
    assert(ps.take(k + 1).drop_last() =~= ps.take(k));
}

/// Whether a particle is kept by a cull at `now`.
pub open spec fn survives<P>(now: int) -> spec_fn(ParticleEntry<P>) -> bool {
    |p: ParticleEntry<P>| !expired_spec(p.life, now)
}

/// The emitters and particles of a simulation. An emitter keeps its index
/// for good; its slot is emptied when it despawns, which it does only once no
/// particle of it is left, so every particle's emitter can be looked up.
pub struct World<E, P> {
    emitters: Vec<Option<EmitterEntry<E>>>,
    particles: Vec<ParticleEntry<P>>,
}

impl<E, P> World<E, P> {
    pub closed spec fn emitters_spec(&self) -> Seq<Option<EmitterEntry<E>>> {
        self.emitters@
    }

    pub closed spec fn particles_spec(&self) -> Seq<ParticleEntry<P>> {
        self.particles@
    }

    pub open spec fn wf(&self) -> bool {
        &&& forall|i: int|
            0 <= i < self.emitters_spec().len() ==> (#[trigger] self.emitters_spec()[i] matches Some(
                en,
            ) ==> en.schedule.wf())
        &&& forall|j: int|
            0 <= j < self.particles_spec().len() ==> {
                &&& (#[trigger] self.particles_spec()[j]).owner < self.emitters_spec().len()
                &&& self.emitters_spec()[self.particles_spec()[j].owner as int] is Some
            }
    }

    /// An arena with no emitter and no particle.
    pub fn new() -> (r: Self)
        ensures
            r.wf(),
            r.emitters_spec().len() == 0,
            r.particles_spec().len() == 0,
    {
        World { emitters: Vec::new(), particles: Vec::new() }
    }

    /// Adds an emitter spawned at `spawned_at` that emits for `duration_ms`
    /// and gives its particles `particle_lifetime_ms`, and returns its index;
    /// a zero duration, lifetime or delay is refused.
    pub fn add_emitter(
        &mut self,
        spawned_at: u128,
        duration_ms: u128,
        schedule: EmitSchedule,
        particle_lifetime_ms: u128,
        data: E,
    ) -> (r: Result<usize, ConfigError>)
        requires
            old(self).wf(),
        ensures
            final(self).wf(),
            final(self).particles_spec() == old(self).particles_spec(),
            emitter_error(duration_ms, schedule, particle_lifetime_ms) is None <==> r is Ok,
            r matches Err(e) ==> emitter_error(duration_ms, schedule, particle_lifetime_ms) == Some(
                e,
            ) && final(self).emitters_spec() == old(self).emitters_spec(),
            r matches Ok(id) ==> id == old(self).emitters_spec().len()
                && final(self).emitters_spec() == old(self).emitters_spec().push(
                Some(
                    EmitterEntry {
                        life: LifeCycle { spawned_at, duration_ms, iteration: None },
                        schedule,
                        particle_lifetime_ms,
                        data,
                    },
                ),
            ),
    {
        if duration_ms == 0 || particle_lifetime_ms == 0 {
            return Err(ConfigError::ZeroDuration);
        }
        if schedule.delay_between_emission_ms == 0 {
            return Err(ConfigError::ZeroDelay);
        }
        let id = self.emitters.len();
        let entry = EmitterEntry {
            life: LifeCycle { spawned_at, duration_ms, iteration: None },
            schedule,
            particle_lifetime_ms,
            data,
        };
        self.emitters.push(Some(entry));
        assert forall|j: int| 0 <= j < self.particles_spec().len() implies {
            &&& (#[trigger] self.particles_spec()[j]).owner < self.emitters_spec().len()
            &&& self.emitters_spec()[self.particles_spec()[j].owner as int] is Some
        } by {
            assert(old(self).emitters_spec()[self.particles_spec()[j].owner as int] is Some);
        }
        Ok(id)
    }

    /// The number of emitter slots, emptied ones included.
    pub fn emitter_slots(&self) -> (r: usize)
        ensures
            r == self.emitters_spec().len(),
    {
        self.emitters.len()
    }

    /// The emitter at `id`, or `None` once it has despawned.
    pub fn emitter(&self, id: usize) -> (r: Option<&EmitterEntry<E>>)
        requires
            id < self.emitters_spec().len(),
        ensures
            r is Some <==> self.emitters_spec()[id as int] is Some,
            r matches Some(en) ==> self.emitters_spec()[id as int] == Some(*en),
    {
        match &self.emitters[id] {
            Some(en) => Some(en),
            None => None,
        }
    }

    /// The number of emitters that have not despawned.
    pub fn live_emitters(&self) -> (r: usize)
        ensures
            r == live_slot_count(self.emitters_spec()),
    {
        let mut n: usize = 0;
        let mut i: usize = 0;
        while i < self.emitters.len()
            invariant
                i <= self.emitters@.len(),
                n == live_slot_count(self.emitters@.take(i as int)),
            decreases self.emitters@.len() - i,
        {
            proof {
                let t = self.emitters@.take(i as int + 1);
                assert(t.drop_last() =~= self.emitters@.take(i as int));
                lemma_live_slot_count_bound(self.emitters@.take(i as int));
            }
            if self.emitters[i].is_some() {
                n = n + 1;
            }
            i = i + 1;
        }
        assert(self.emitters@.take(i as int) =~= self.emitters@);
        n
    }

    /// The number of particles alive.
    pub fn particle_count(&self) -> (r: usize)
        ensures
            r == self.particles_spec().len(),
    {
        self.particles.len()
    }

    pub fn particle(&self, i: usize) -> (r: &ParticleEntry<P>)
        requires
            i < self.particles_spec().len(),
        ensures
            *r == self.particles_spec()[i as int],
    {
        &self.particles[i]
    }

    /// The number of live particles that emitter `id` spawned.
    pub fn live_particles(&self, id: usize) -> (r: usize)
        ensures
            r == owned_count(self.particles_spec(), id as int),
    {
        let mut n: usize = 0;
        let mut i: usize = 0;
        while i < self.particles.len()
            invariant
                i <= self.particles@.len(),
                n == owned_count(self.particles@.take(i as int), id as int),
            decreases self.particles@.len() - i,
        {
            proof {
                let t = self.particles@.take(i as int + 1);
                assert(t.drop_last() =~= self.particles@.take(i as int));
                lemma_owned_count_bound(self.particles@.take(i as int), id as int);
            }
            if self.particles[i].owner == id {
                n = n + 1;
            }
            i = i + 1;
        }
        assert(self.particles@.take(i as int) =~= self.particles@);
        n
    }

    /// One tick of emitter `id` at `now`: it steps its schedule, with its
    /// own live particles counted, and its slot is emptied if it despawns.
    pub fn tick_emitter(&mut self, id: usize, now: u128) -> (r: EmitterStep)
        requires
            old(self).wf(),
            id < old(self).emitters_spec().len(),
            old(self).emitters_spec()[id as int] matches Some(en) && en.life.spawned_at <= now,
        ensures
            final(self).wf(),
            final(self).particles_spec() == old(self).particles_spec(),
            ({
                let (slot, step) = slot_after(
                    old(self).emitters_spec()[id as int],
                    now as int,
                    owned_count(old(self).particles_spec(), id as int) as int,
                );
                &&& r == step
                &&& final(self).emitters_spec() == old(self).emitters_spec().update(id as int, slot)
            }),
    {
        let live = self.live_particles(id);
        let step = match &mut self.emitters[id] {
            Some(en) => en.life.step(&en.schedule, now, live),
            None => EmitterStep::Wait,
        };
        if step == EmitterStep::Despawn {
            self.emitters[id] = None;
            proof {
                lemma_owned_count_zero(self.particles@, id as int);
            }
        }
        proof {
            assert forall|j: int| 0 <= j < self.particles_spec().len() implies {
                &&& (#[trigger] self.particles_spec()[j]).owner < self.emitters_spec().len()
                &&& self.emitters_spec()[self.particles_spec()[j].owner as int] is Some
            } by {
                assert(old(self).emitters_spec()[self.particles_spec()[j].owner as int] is Some);
            }
        }
        step
    }

    /// Spawns a particle of emitter `owner` at `now`, living as long as the
    /// emitter gives its particles, and returns its index.
    pub fn spawn_particle(&mut self, owner: usize, now: u128, data: P) -> (r: usize)
        requires
            old(self).wf(),
            owner < old(self).emitters_spec().len(),
            old(self).emitters_spec()[owner as int] is Some,
        ensures
            final(self).wf(),
            final(self).emitters_spec() == old(self).emitters_spec(),
            r == old(self).particles_spec().len(),
            final(self).particles_spec() == old(self).particles_spec().push(
                ParticleEntry {
                    owner,
                    life: LifeCycle {
                        spawned_at: now,
                        duration_ms: old(self).emitters_spec()[owner as int]->0.particle_lifetime_ms,
                        iteration: None,
                    },
                    data,
                },
            ),
    {
        let lifetime = match &self.emitters[owner] {
            Some(en) => en.particle_lifetime_ms,
            None => 0,
        };
        let r = self.particles.len();
        self.particles.push(
            ParticleEntry {
                owner,
                life: LifeCycle { spawned_at: now, duration_ms: lifetime, iteration: None },
                data,
            },
        );
        proof {
            assert forall|j: int| 0 <= j < self.particles_spec().len() implies {
                &&& (#[trigger] self.particles_spec()[j]).owner < self.emitters_spec().len()
                &&& self.emitters_spec()[self.particles_spec()[j].owner as int] is Some
            } by {
                if j < r {
                    assert(self.particles_spec()[j] == old(self).particles_spec()[j]);
                }
            }
        }
        r
    }

    /// Removes particle `i`, as when it leaves the bounds, and hands back
    /// what its user kept with it.
    pub fn remove_particle(&mut self, i: usize) -> (r: P)
        requires
            old(self).wf(),
            i < old(self).particles_spec().len(),
        ensures
            final(self).wf(),
            final(self).emitters_spec() == old(self).emitters_spec(),
            final(self).particles_spec() == old(self).particles_spec().remove(i as int),
            r == old(self).particles_spec()[i as int].data,
    {
        let p = self.particles.remove(i);
        proof {
            assert forall|j: int| 0 <= j < self.particles_spec().len() implies {
                &&& (#[trigger] self.particles_spec()[j]).owner < self.emitters_spec().len()
                &&& self.emitters_spec()[self.particles_spec()[j].owner as int] is Some
            } by {
                if j < i {
                    assert(self.particles_spec()[j] == old(self).particles_spec()[j]);
                } else {
                    assert(self.particles_spec()[j] == old(self).particles_spec()[j + 1]);
                }
            }
        }
        p.data
    }

    /// Removes every particle whose lifetime has run out at `now`, keeping
    /// the others in order, and returns how many went.
    pub fn cull_expired(&mut self, now: u128) -> (r: usize)
        requires
            old(self).wf(),
            forall|j: int|
                0 <= j < old(self).particles_spec().len() ==> (#[trigger] old(
                    self,
                ).particles_spec()[j]).life.spawned_at <= now,
        ensures
            final(self).wf(),
            final(self).emitters_spec() == old(self).emitters_spec(),
            final(self).particles_spec() == old(self).particles_spec().filter(
                survives::<P>(now as int),
            ),
            r == old(self).particles_spec().len() - final(self).particles_spec().len(),
    {
        let old_len = self.particles.len();
        let ghost old_ps = self.particles@;
        let ghost f = survives::<P>(now as int);
        let ghost mut k: int = 0;
        let mut i: usize = 0;
        proof {
            reveal(Seq::filter);
            assert(old_ps.take(0) =~= Seq::<ParticleEntry<P>>::empty());
            assert(old_ps.skip(0) =~= old_ps);
            assert(old_ps.take(0).filter(f) =~= Seq::<ParticleEntry<P>>::empty());
            assert(self.particles@ =~= old_ps.take(0).filter(f) + old_ps.skip(0));
        }
        while i < self.particles.len()
            invariant
                0 <= k <= old_ps.len(),
                self.emitters@ == old(self).emitters@,
                self.particles@ == old_ps.take(k).filter(f) + old_ps.skip(k),
                i == old_ps.take(k).filter(f).len(),
                f == survives::<P>(now as int),
                old_ps == old(self).particles@,
                forall|j: int|
                    0 <= j < old_ps.len() ==> (#[trigger] old_ps[j]).life.spawned_at <= now,
                forall|j: int|
                    0 <= j < self.particles@.len() ==> {
                        &&& (#[trigger] self.particles@[j]).owner < self.emitters@.len()
                        &&& self.emitters@[self.particles@[j].owner as int] is Some
                    },
            decreases old_ps.len() - k,
        {
            proof {
                reveal(Seq::filter);
                assert(k < old_ps.len());
                assert(self.particles@[i as int] == old_ps[k]);
                assert(old_ps.take(k + 1).drop_last() =~= old_ps.take(k));
                assert(old_ps.take(k + 1).last() == old_ps[k]);
                assert(old_ps.skip(k) =~= seq![old_ps[k]] + old_ps.skip(k + 1));
            }
            let ghost before = self.particles@;
            if self.particles[i].life.is_expired(now) {
                self.particles.remove(i);
                proof {
                    assert(!f(old_ps[k]));
                    assert(self.particles@ =~= old_ps.take(k + 1).filter(f) + old_ps.skip(k + 1));
                    assert forall|j: int| 0 <= j < self.particles@.len() implies {
                        &&& (#[trigger] self.particles@[j]).owner < self.emitters@.len()
                        &&& self.emitters@[self.particles@[j].owner as int] is Some
                    } by {
                        if j < i {
                            assert(self.particles@[j] == before[j]);
                        } else {
                            assert(self.particles@[j] == before[j + 1]);
                        }
                    }
                }
            } else {
                i = i + 1;
                proof {
                    assert(f(old_ps[k]));
                    assert(self.particles@ =~= old_ps.take(k + 1).filter(f) + old_ps.skip(k + 1));
                }
            }
            proof {
                k = k + 1;
            }
        }
        proof {
            assert(old_ps.take(k).filter(f).len() + old_ps.skip(k).len() == i);
            assert(k == old_ps.len());
            assert(old_ps.take(k) =~= old_ps);
            assert(old_ps.skip(k) =~= Seq::<ParticleEntry<P>>::empty());
            assert(self.particles@ =~= old_ps.filter(f));
            old_ps.lemma_filter_len(f);
        }
        old_len - self.particles.len()
    }

    /// What the user keeps with particle `i`, to change in place.
    pub fn particle_data_mut(&mut self, i: usize) -> (r: &mut P)
        requires
            i < old(self).particles_spec().len(),
        ensures
            *r == old(self).particles_spec()[i as int].data,
            final(self).emitters_spec() == old(self).emitters_spec(),
            final(self).particles_spec() == old(self).particles_spec().update(
                i as int,
                ParticleEntry { data: *final(r), ..old(self).particles_spec()[i as int] },
            ),
    {
        &mut self.particles[i].data
    }

    /// What the user keeps with emitter `id`, to change in place.
    pub fn emitter_data_mut(&mut self, id: usize) -> (r: Option<&mut E>)
        requires
            id < old(self).emitters_spec().len(),
        ensures
            old(self).emitters_spec()[id as int] is None ==> r is None && final(self).emitters_spec()
                == old(self).emitters_spec(),
            old(self).emitters_spec()[id as int] matches Some(en) ==> r matches Some(d) && *d
                == en.data && final(self).emitters_spec() == old(self).emitters_spec().update(
                id as int,
                Some(EmitterEntry { data: *final(d), ..en }),
            ),
            final(self).particles_spec() == old(self).particles_spec(),
    {
        match &mut self.emitters[id] {
            Some(en) => Some(&mut en.data),
            None => None,
        }
    }

    /// One tick of every emitter at `now`, in index order: what each slot's
    /// emitter does, `Wait` for an emptied slot.
    pub fn tick_emitters(&mut self, now: u128) -> (r: Vec<EmitterStep>)
        requires
            old(self).wf(),
            forall|i: int|
                0 <= i < old(self).emitters_spec().len() ==> (#[trigger] old(
                    self,
                ).emitters_spec()[i] matches Some(en) ==> en.life.spawned_at <= now),
        ensures
            final(self).wf(),
            final(self).particles_spec() == old(self).particles_spec(),
            final(self).emitters_spec().len() == old(self).emitters_spec().len(),
            r@.len() == old(self).emitters_spec().len(),
            forall|i: int|
                0 <= i < r@.len() ==> (final(self).emitters_spec()[i], #[trigger] r@[i])
                    == slot_after(
                    old(self).emitters_spec()[i],
                    now as int,
                    owned_count(old(self).particles_spec(), i) as int,
                ),
    {
        let mut r: Vec<EmitterStep> = Vec::new();
        let mut id: usize = 0;
        while id < self.emitters.len()
            invariant
                self.wf(),
                id <= self.emitters_spec().len(),
                self.emitters_spec().len() == old(self).emitters_spec().len(),
                self.particles_spec() == old(self).particles_spec(),
                r@.len() == id,
                forall|i: int|
                    id <= i < self.emitters_spec().len() ==> #[trigger] self.emitters_spec()[i]
                        == old(self).emitters_spec()[i],
                forall|i: int|
                    0 <= i < id ==> (self.emitters_spec()[i], #[trigger] r@[i]) == slot_after(
                        old(self).emitters_spec()[i],
                        now as int,
                        owned_count(old(self).particles_spec(), i) as int,
                    ),
                forall|i: int|
                    0 <= i < old(self).emitters_spec().len() ==> (#[trigger] old(
                        self,
                    ).emitters_spec()[i] matches Some(en) ==> en.life.spawned_at <= now),
            decreases self.emitters_spec().len() - id,
        {
            let ghost before = self.emitters_spec();
            let step = if self.emitter(id).is_some() {
                assert(self.emitters_spec()[id as int] == old(self).emitters_spec()[id as int]);
                self.tick_emitter(id, now)
            } else {
                EmitterStep::Wait
            };
            r.push(step);
            proof {
                assert forall|i: int|
                    0 <= i < id + 1 implies (self.emitters_spec()[i], #[trigger] r@[i]) == slot_after(
                        old(self).emitters_spec()[i],
                        now as int,
                        owned_count(old(self).particles_spec(), i) as int,
                    ) by {
                    if i < id {
                        assert(self.emitters_spec()[i] == before[i]);
                    }
                }
            }
            id = id + 1;
        }
        r
    }

    /// Removes at once every particle whose mark is set, as for particles
    /// found outside their emitter's bounds, keeping the others in order,
    /// and returns how many went. `marks` holds one mark per particle.
    pub fn remove_marked(&mut self, marks: &Vec<bool>) -> (r: usize)
        requires
            old(self).wf(),
            marks@.len() == old(self).particles_spec().len(),
        ensures
            final(self).wf(),
            final(self).emitters_spec() == old(self).emitters_spec(),
            final(self).particles_spec() == unmarked(old(self).particles_spec(), marks@),
            r == old(self).particles_spec().len() - final(self).particles_spec().len(),
    {
        let old_len = self.particles.len();
        let ghost old_ps = self.particles@;
        let mut i: usize = 0;
        let mut k: usize = 0;
        proof {
            assert(old_ps.take(0) =~= Seq::<ParticleEntry<P>>::empty());
            assert(old_ps.skip(0) =~= old_ps);
            assert(self.particles@ =~= unmarked(old_ps.take(0), marks@) + old_ps.skip(0));
        }
        while k < old_len
            invariant
                0 <= i <= k <= old_len,
                old_len == old_ps.len(),
                marks@.len() == old_len,
                self.emitters@ == old(self).emitters@,
                self.particles@ == unmarked(old_ps.take(k as int), marks@) + old_ps.skip(k as int),
                i == unmarked(old_ps.take(k as int), marks@).len(),
                old_ps == old(self).particles@,
                forall|j: int|
                    0 <= j < self.particles@.len() ==> {
                        &&& (#[trigger] self.particles@[j]).owner < self.emitters@.len()
                        &&& self.emitters@[self.particles@[j].owner as int] is Some
                    },
            decreases old_len - k,
        {
            proof {
                lemma_unmarked_prefix(old_ps, marks@, k as int);
                assert(old_ps.skip(k as int) =~= seq![old_ps[k as int]] + old_ps.skip(k + 1));
                assert(self.particles@[i as int] == old_ps[k as int]);
            }
            let ghost before = self.particles@;
            if marks[k] {
                self.particles.remove(i);
                proof {
                    assert(self.particles@ =~= unmarked(old_ps.take(k + 1), marks@) + old_ps.skip(
                        k + 1,
                    ));
                    assert forall|j: int| 0 <= j < self.particles@.len() implies {
                        &&& (#[trigger] self.particles@[j]).owner < self.emitters@.len()
                        &&& self.emitters@[self.particles@[j].owner as int] is Some
                    } by {
                        if j < i {
                            assert(self.particles@[j] == before[j]);
                        } else {
                            assert(self.particles@[j] == before[j + 1]);
                        }
                    }
                }
            } else {
                i = i + 1;
                proof {
                    assert(self.particles@ =~= unmarked(old_ps.take(k + 1), marks@) + old_ps.skip(
                        k + 1,
                    ));
                }
            }
            k = k + 1;
        }
        proof {
            assert(old_ps.take(k as int) =~= old_ps);
            assert(old_ps.skip(k as int) =~= Seq::<ParticleEntry<P>>::empty());
            assert(self.particles@ =~= unmarked(old_ps, marks@));
        }
        old_len - self.particles.len()
    }
}

} // verus!
