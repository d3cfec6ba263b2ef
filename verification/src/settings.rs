//! The whole-number part of the configuration: capacities, screen geometry
//! and the generator's seed. The engine reads it and never changes it; a
//! host replaces it as a unit.

use vstd::prelude::*;

verus! {

/// The settings that the engine and its host share.
#[derive(Clone, Copy, Debug, PartialEq, Eq, Structural)]
pub struct Settings {
    /// How many particles the engine aims to keep alive.
    pub max_particles: usize,
    /// The upper limit of the dust population.
    pub max_dust: usize,
    /// The storage reserved for particles.
    pub max_particles_array: usize,
    /// The storage reserved for dust.
    pub max_dust_array: usize,
    /// The width of the screen.
    pub screen_width: i32,
    /// The height of the screen.
    pub screen_height: i32,
    /// The height of the ground line.
    pub ground_level: i32,
    /// The brightest a speck of dust can be.
    pub dust_brightness_max: u8,
    /// The word that the generator starts from.
    pub rng_seed: u32,
}

impl Settings {
    /// The settings of a small screen with six particles and fifty specks
    /// of dust.
    pub open spec fn defaults() -> Settings {
        Settings {
            max_particles: 6,
            max_dust: 50,
            max_particles_array: 12,
            max_dust_array: 50,
            screen_width: 320,
            screen_height: 170,
            ground_level: 150,
            dust_brightness_max: 5,
            rng_seed: 0x12345678,
        }
    }

    /// The dust population that the engine tops up to: eight specks for
    /// each particle of the target, and never more than `max_dust`.
    pub open spec fn spec_dust_target(self) -> nat {
        if self.max_particles * 8 < self.max_dust {
            (self.max_particles * 8) as nat
        } else {
            self.max_dust as nat
        }
    }

    /// The storage can hold what the targets ask for: the particle target
    /// and both bounds of the dust population fit their arrays.
    pub open spec fn consistent(self) -> bool {
        &&& self.max_particles <= self.max_particles_array
        &&& self.max_dust <= self.max_dust_array
        &&& self.max_particles * 8 <= self.max_dust_array
    }

    /// Computes the dust target without overflow, however large the
    /// particle target is.
    pub fn dust_target(self) -> (target: usize)
        ensures
            target == self.spec_dust_target(),
            target <= self.max_dust,
    {
        if self.max_particles <= self.max_dust / 8 {
            self.max_particles * 8
        } else {
            self.max_dust
        }
    }

    /// Tests whether the storage can hold what the targets ask for.
    pub fn is_consistent(self) -> (ok: bool)
        ensures
            ok == self.consistent(),
    {
        self.max_particles <= self.max_particles_array && self.max_dust <= self.max_dust_array
            && self.max_particles <= self.max_dust_array / 8
    }
}

impl Default for Settings {
    fn default() -> (settings: Self)
        ensures
            settings == Settings::defaults(),
    {
        Settings {
            max_particles: 6,
            max_dust: 50,
            max_particles_array: 12,
            max_dust_array: 50,
            screen_width: 320,
            screen_height: 170,
            ground_level: 150,
            dust_brightness_max: 5,
            rng_seed: 0x12345678,
        }
    }
}

} // verus!
