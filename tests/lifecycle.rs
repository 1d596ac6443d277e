use particles::lifecycle::{EmitSchedule, EmitterStep, LifeCycle};
use particles::window::ConfigError;

#[test]
fn emission_cadence_with_16ms_ticks() {
    let schedule = EmitSchedule::new(1, 100).unwrap();
    let mut life = LifeCycle::new(0, 10_000).unwrap();
    let mut emitted = Vec::new();
    let mut t: u128 = 0;
    while t < 1000 {
        if let EmitterStep::Emit { iteration, count } = life.step(&schedule, t, 0) {
            assert_eq!(count, 1);
            emitted.push(iteration);
        }
        t += 16;
    }
    assert_eq!(emitted, (0..10).collect::<Vec<u128>>());
}

#[test]
fn emission_cadence_with_unaligned_start() {
    // Ticks every 7 ms from a spawn at 3 ms: one emission per 100 ms window.
    let schedule = EmitSchedule::new(4, 100).unwrap();
    let mut life = LifeCycle::new(3, 10_000).unwrap();
    let mut emitted = Vec::new();
    let mut t: u128 = 3;
    while t < 1003 {
        if let EmitterStep::Emit { iteration, count } = life.step(&schedule, t, 0) {
            assert_eq!(count, 4);
            emitted.push(iteration);
        }
        t += 7;
    }
    assert_eq!(emitted, (0..10).collect::<Vec<u128>>());
}

#[test]
fn no_second_emission_in_the_same_window() {
    let schedule = EmitSchedule::new(2, 100).unwrap();
    let mut life = LifeCycle::new(0, 1000).unwrap();
    assert_eq!(life.step(&schedule, 150, 0), EmitterStep::Emit { iteration: 1, count: 2 });
    assert_eq!(life.iteration, Some(1));
    assert_eq!(life.step(&schedule, 150, 0), EmitterStep::Wait);
    assert_eq!(life.step(&schedule, 199, 0), EmitterStep::Wait);
    assert_eq!(life.step(&schedule, 200, 0), EmitterStep::Emit { iteration: 2, count: 2 });
}

#[test]
fn emitter_out_of_time() {
    let schedule = EmitSchedule::new(1, 100).unwrap();
    let mut life = LifeCycle::new(50, 1000).unwrap();
    // At exactly its duration it still emits.
    assert_eq!(life.step(&schedule, 1050, 3), EmitterStep::Emit { iteration: 10, count: 1 });
    // Past it, it waits for its particles, then despawns.
    assert_eq!(life.step(&schedule, 1051, 3), EmitterStep::Wait);
    assert_eq!(life.step(&schedule, 1051, 0), EmitterStep::Despawn);
}

#[test]
fn lifecycle_elapsed_and_expiry() {
    let life = LifeCycle::new(1000, 500).unwrap();
    assert_eq!(life.elapsed_ms(1200), 200);
    assert!(!life.is_expired(1500));
    assert!(life.is_expired(1501));
    assert_eq!(life.iteration, None);
}

#[test]
fn zero_settings_are_refused() {
    assert_eq!(LifeCycle::new(0, 0), Err(ConfigError::ZeroDuration));
    assert_eq!(EmitSchedule::new(1, 0), Err(ConfigError::ZeroDelay));
    assert_eq!(
        EmitSchedule::new(0, 5),
        Ok(EmitSchedule { particles_per_emission: 0, delay_between_emission_ms: 5 })
    );
}
