//! What an engine is to its contracts, and what each pass of a frame makes
//! of it.

use vstd::prelude::*;
use crate::message::ground_message;
use crate::pool::{count_active, fill_lowest, without_marked};
use crate::rng::{xorshift32, xorshift32_nth};
use crate::seed::{nth_dust_spawn, DustSeed};
use crate::settings::Settings;

verus! {

/// What an engine is, to its contracts.
pub struct SystemView {
    /// The particle slots: `true` for an active one.
    pub particles: Seq<bool>,
    /// The dust slots: `true` for an active one.
    pub dust: Seq<bool>,
    /// The output of the latest ground impact.
    pub last_ground_output: u16,
    /// The output of the latest collision.
    pub collision_output: u16,
    /// The message of the latest event.
    pub message: Seq<char>,
    /// Whether the host wants the message shown.
    pub verbose: bool,
    /// The generator's state.
    pub rng_state: u32,
    /// The settings in force.
    pub settings: Settings,
}

/// The slots that the host reports as landed.
pub open spec fn landing_marks(landings: Seq<Option<u16>>) -> Seq<bool> {
    Seq::new(landings.len(), |i: int| landings[i] is Some)
}

/// The output of the highest slot below `n` that holds an active particle
/// reported as landed, if there is one.
pub open spec fn last_landing(
    active: Seq<bool>,
    landings: Seq<Option<u16>>,
    n: int,
) -> Option<u16>
    decreases n,
{
    if n <= 0 {
        None
    } else if active[n - 1] && landings[n - 1] is Some {
        landings[n - 1]
    } else {
        last_landing(active, landings, n - 1)
    }
}

impl SystemView {
    /// The engine once the landings of a pass are taken in: every active
    /// particle that landed is gone, and the last of them in slot order has
    /// left its output and its message.
    pub open spec fn after_landings(self, landings: Seq<Option<u16>>) -> SystemView {
        let particles = without_marked(self.particles, landing_marks(landings));
        match last_landing(self.particles, landings, self.particles.len() as int) {
            Some(output) => SystemView {
                particles: particles,
                last_ground_output: output,
                message: ground_message(output),
                ..self
            },
            None => SystemView { particles: particles, ..self },
        }
    }

    /// Fewer particles are alive than the settings aim for.
    pub open spec fn spawn_due(self) -> bool {
        count_active(self.particles) < self.settings.max_particles
    }

    /// The engine after a particle pass: the landings are taken in and,
    /// where a spawn is due, one word is drawn for the host to decide on.
    pub open spec fn after_particle_pass(self, landings: Seq<Option<u16>>) -> SystemView {
        let landed = self.after_landings(landings);
        if landed.spawn_due() {
            SystemView { rng_state: xorshift32(landed.rng_state), ..landed }
        } else {
            landed
        }
    }

    /// How many specks the engine spawns once `kept` are left: as many as
    /// it takes to reach the dust target, or to fill the pool where the
    /// pool is smaller than the target.
    pub open spec fn dust_shortfall(self, kept: Seq<bool>) -> nat {
        let target = self.settings.spec_dust_target();
        let reach = if target < kept.len() {
            target
        } else {
            kept.len()
        };
        if count_active(kept) < reach {
            (reach - count_active(kept)) as nat
        } else {
            0
        }
    }

    /// The engine after a dust pass: the faded specks are gone, and the
    /// lowest free slots are filled with new ones, six words drawn for
    /// each.
    pub open spec fn after_dust_pass(self, expired: Seq<bool>) -> SystemView {
        let kept = without_marked(self.dust, expired);
        let spawns = self.dust_shortfall(kept);
        SystemView {
            dust: fill_lowest(kept, spawns),
            rng_state: xorshift32_nth(self.rng_state, 6 * spawns),
            ..self
        }
    }

    /// The seed of the speck that a dust pass spawns in `slot`, if it
    /// spawns one there. New specks are spawned one after the other, lowest
    /// free slot first.
    pub open spec fn dust_spawn(self, expired: Seq<bool>, slot: int) -> Option<DustSeed> {
        let kept = without_marked(self.dust, expired);
        nth_dust_spawn(kept, self.rng_state, self.dust_shortfall(kept), slot)
    }
}

} // verus!
