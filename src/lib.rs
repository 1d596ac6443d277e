//! Particle emission engine: time windows, effect handlers with repeating
//! cycles, emitter schedules and lifecycles, the cap policy of saturating
//! forces, and an arena that keeps emitters and the particles they spawned.
//! Positions, velocities, colours and the effects that change them are
//! floating-point values and are left to the embedding program, which
//! stores them with each emitter and particle of the arena.

pub mod clock;
pub mod handlers;
pub mod lifecycle;
pub mod pattern;
pub mod saturation;
pub mod trail;
pub mod window;
pub mod world;
