//! A deterministic, fixed-memory particle simulation core.
//!
//! Particles fall, land and collide; dust drifts and fades. This crate holds
//! the part of that engine that is exact: the random generator, the two
//! fixed-capacity pools, spawning and removal, the collision scan with its
//! cooldown rule, and the outputs and message of the latest event. Positions,
//! speeds and timers are real-valued and belong to the host, which tells the
//! engine what it observed in each frame and receives the words drawn for it.
//!
//! A frame runs in this order, and the generator's words are drawn in it:
//!
//! 1. The host moves the particles and calls
//!    [`ParticlesSystem::update_particles`] with the landings. Where the pass
//!    hands out a word for the spawn decision and the host decides to spawn,
//!    it calls [`ParticlesSystem::activate_particle`].
//! 2. The host moves the dust and calls [`ParticlesSystem::update_dust`] with
//!    the specks that faded.
//! 3. The host tests the particles for contact and calls
//!    [`ParticlesSystem::check_collisions`]. Where a pair collided, it encodes
//!    the word handed out and calls [`ParticlesSystem::record_collision`].

pub mod laws;
pub mod message;
pub mod pool;
pub mod rng;
pub mod scan;
pub mod seed;
pub mod settings;
pub mod system;
pub mod view;

pub use pool::Pool;
pub use settings::Settings;
pub use seed::{DustSeed, ParticleSeed};
pub use system::{CollisionPass, DustPass, ParticlePass, ParticlesSystem};
