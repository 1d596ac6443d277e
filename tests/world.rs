use particles::lifecycle::{EmitSchedule, EmitterStep};
use particles::window::ConfigError;
use particles::world::World;

#[test]
fn end_to_end_emitter_run() {
    let mut world: World<(), ()> = World::new();
    let schedule = EmitSchedule::new(1, 1000).unwrap();
    let id = world.add_emitter(0, 3000, schedule, 500, ()).unwrap();
    let mut spawn_events = 0;
    let mut despawned_at = None;
    let mut t: u128 = 0;
    while t <= 3100 {
        let steps = world.tick_emitters(t);
        for (i, step) in steps.iter().enumerate() {
            match step {
                EmitterStep::Emit { count, .. } => {
                    spawn_events += 1;
                    for _ in 0..*count {
                        world.spawn_particle(i, t, ());
                    }
                }
                EmitterStep::Despawn => despawned_at = despawned_at.or(Some(t)),
                EmitterStep::Wait => {}
            }
        }
        world.cull_expired(t);
        t += 16;
    }
    assert_eq!(spawn_events, 3);
    assert_eq!(world.particle_count(), 0);
    assert_eq!(world.live_particles(id), 0);
    assert!(world.emitter(id).is_none());
    assert_eq!(world.live_emitters(), 0);
    assert!(despawned_at.unwrap() <= 3100);
}

#[test]
fn emitter_waits_for_its_particles() {
    let mut world: World<(), u32> = World::new();
    let schedule = EmitSchedule::new(2, 100).unwrap();
    let id = world.add_emitter(0, 150, schedule, 1000, ()).unwrap();
    assert_eq!(world.tick_emitters(0), vec![EmitterStep::Emit { iteration: 0, count: 2 }]);
    world.spawn_particle(id, 0, 7);
    world.spawn_particle(id, 0, 8);
    assert_eq!(world.live_particles(id), 2);
    assert_eq!(world.tick_emitter(id, 200), EmitterStep::Wait);
    assert!(world.emitter(id).is_some());
    assert_eq!(world.remove_particle(0), 7);
    assert_eq!(world.live_particles(id), 1);
    assert_eq!(world.tick_emitter(id, 210), EmitterStep::Wait);
    assert_eq!(world.cull_expired(1001), 1);
    assert_eq!(world.tick_emitters(1001), vec![EmitterStep::Despawn]);
    assert!(world.emitter(id).is_none());
    assert_eq!(world.tick_emitters(1100), vec![EmitterStep::Wait]);
}

#[test]
fn cull_keeps_live_particles_in_order() {
    let mut world: World<(), char> = World::new();
    let schedule = EmitSchedule::new(1, 10).unwrap();
    let a = world.add_emitter(0, 10_000, schedule, 100, ()).unwrap();
    let b = world.add_emitter(0, 10_000, schedule, 300, ()).unwrap();
    world.spawn_particle(a, 0, 'p');
    world.spawn_particle(b, 0, 'q');
    world.spawn_particle(a, 50, 'r');
    world.spawn_particle(b, 50, 's');
    assert_eq!(world.live_particles(a), 2);
    assert_eq!(world.live_particles(b), 2);
    assert_eq!(world.live_emitters(), 2);
    assert_eq!(world.particle(2).life.duration_ms, 100);
    assert_eq!(world.particle(3).life.duration_ms, 300);
    assert_eq!(world.cull_expired(120), 1);
    assert_eq!(world.particle_count(), 3);
    assert_eq!(world.particle(0).data, 'q');
    assert_eq!(world.particle(1).data, 'r');
    assert_eq!(world.particle(2).data, 's');
    assert_eq!(world.cull_expired(151), 1);
    assert_eq!(world.live_particles(a), 0);
    assert_eq!(world.live_particles(b), 2);
}

#[test]
fn data_can_be_changed_in_place() {
    let mut world: World<i32, i32> = World::new();
    let schedule = EmitSchedule::new(1, 10).unwrap();
    let id = world.add_emitter(0, 100, schedule, 100, 1).unwrap();
    let p = world.spawn_particle(id, 0, 10);
    *world.particle_data_mut(p) += 5;
    assert_eq!(world.particle(p).data, 15);
    *world.emitter_data_mut(id).unwrap() += 1;
    assert_eq!(world.emitter(id).unwrap().data, 2);
    assert_eq!(world.emitter_slots(), 1);
}

#[test]
fn emitter_settings_are_checked() {
    let mut world: World<(), ()> = World::new();
    let ok = EmitSchedule::new(1, 10).unwrap();
    let zero_delay = EmitSchedule { particles_per_emission: 1, delay_between_emission_ms: 0 };
    assert_eq!(world.add_emitter(0, 0, ok, 10, ()), Err(ConfigError::ZeroDuration));
    assert_eq!(world.add_emitter(0, 10, ok, 0, ()), Err(ConfigError::ZeroDuration));
    assert_eq!(world.add_emitter(0, 10, zero_delay, 10, ()), Err(ConfigError::ZeroDelay));
    assert_eq!(world.emitter_slots(), 0);
    assert_eq!(world.add_emitter(0, 10, ok, 10, ()), Ok(0));
}

#[test]
fn marked_particles_are_removed_together() {
    // Particles below a lower bound of y = 0 are marked by the embedding
    // program; the arena removes exactly the marked ones.
    let mut world: World<(), (f32, f32, f32)> = World::new();
    let schedule = EmitSchedule::new(1, 10).unwrap();
    let id = world.add_emitter(0, 1000, schedule, 1000, ()).unwrap();
    world.spawn_particle(id, 0, (5., -1., 0.));
    world.spawn_particle(id, 0, (5., 1., 0.));
    world.spawn_particle(id, 0, (0., -0.5, 2.));
    let marks: Vec<bool> = (0..world.particle_count())
        .map(|i| world.particle(i).data.1 < 0.)
        .collect();
    assert_eq!(marks, vec![true, false, true]);
    assert_eq!(world.remove_marked(&marks), 2);
    assert_eq!(world.particle_count(), 1);
    assert_eq!(world.particle(0).data, (5., 1., 0.));
    assert_eq!(world.remove_marked(&vec![false]), 0);
    assert_eq!(world.particle_count(), 1);
}
