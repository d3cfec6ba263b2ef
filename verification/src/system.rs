//! The engine: two pools, the generator's state, the outputs of the latest
//! events and their message.
//!
//! A frame runs in passes. For each pass the host hands in what it observed
//! of the moving bodies (which particles reached the ground and with what
//! output, which specks of dust faded, which particles touch) and gets back
//! what the engine decided: the slots it freed and filled, and the words it
//! drew for the host to turn into positions and speeds.

use vstd::prelude::*;
use crate::message::{
    collision_message, message_as_str, message_new, message_text, write_collision_message,
    write_ground_message,
};
use crate::pool::{
    count_active, fill_lowest, is_first_free, is_full, lemma_count_full, lemma_count_update,
    lemma_fill_next, lemma_fill_none, lemma_free_before_monotone, marked_active, without_marked,
    Pool,
};
use crate::rng::{lemma_xorshift32_nth_add, next_state, xorshift32, xorshift32_nth};
use crate::scan::{contact_rows, lemma_scan_row_inactive, scan_pair, scan_row, scan_rows, scan_start};
use crate::seed::{dust_seed, nth_dust_spawn, particle_seed, DustSeed, ParticleSeed};
use crate::settings::Settings;
use crate::view::{landing_marks, last_landing, SystemView};

verus! {

/// What a dust pass did.
#[derive(Clone, Copy, Debug)]
pub struct DustPass<const MAX_DUST: usize> {
    /// How many specks faded and were removed.
    pub expired: usize,
    /// For each slot, the seed of the speck spawned in it, if one was.
    pub spawned: [Option<DustSeed>; MAX_DUST],
}

/// What a particle pass did.
#[derive(Clone, Copy, Debug, PartialEq, Eq, Structural)]
pub struct ParticlePass {
    /// How many particles landed and were removed.
    pub landed: usize,
    /// The word drawn for the spawn decision, where a spawn was due.
    pub spawn_roll: Option<u32>,
}

/// What a collision scan did.
#[derive(Clone, Copy, Debug)]
pub struct CollisionPass<const MAX_PARTICLES: usize> {
    /// For each particle slot, whether the particle in it collided.
    pub stamped: [bool; MAX_PARTICLES],
    /// The word drawn for the last collision, if there was one.
    pub last_draw: Option<u32>,
}

/// Spawning one more speck, in the lowest slot still free, adds that
/// slot's seed and leaves the seeds of all other slots as they were.
proof fn lemma_dust_spawn_step(kept: Seq<bool>, rng: u32, count: nat, slot: int)
    requires
        is_first_free(fill_lowest(kept, count), slot),
    ensures
        fill_lowest(kept, count).update(slot, true) == fill_lowest(kept, count + 1),
        nth_dust_spawn(kept, rng, count + 1, slot) == Some(
            dust_seed(slot, xorshift32_nth(rng, 6 * count)),
        ),
        forall|other: int|
            0 <= other < kept.len() && other != slot ==> #[trigger] nth_dust_spawn(
                kept,
                rng,
                count + 1,
                other,
            ) == nth_dust_spawn(kept, rng, count, other),
        xorshift32_nth(xorshift32_nth(rng, 6 * count), 6) == xorshift32_nth(rng, 6 * (count + 1)),
{
    lemma_fill_next(kept, count, slot);
    lemma_xorshift32_nth_add(rng, 6 * count, 6);
    assert forall|other: int| 0 <= other < kept.len() && other != slot implies nth_dust_spawn(
        kept,
        rng,
        count + 1,
        other,
    ) == nth_dust_spawn(kept, rng, count, other) by {
        if other < slot {
            lemma_free_before_monotone(kept, other, slot);
        } else {
            lemma_free_before_monotone(kept, slot, other);
        }
    }
}

/// The engine, with room for `MAX_PARTICLES` particles and `MAX_DUST`
/// specks of dust.
pub struct ParticlesSystem<const MAX_PARTICLES: usize, const MAX_DUST: usize> {
    particle_pool: Pool<MAX_PARTICLES>,
    dust_pool: Pool<MAX_DUST>,
    last_ground_output: u16,
    collision_output: u16,
    verbose_message: heapless::String<128>,
    /// Whether the host wants the message shown. The engine keeps the flag
    /// and never reads it.
    pub verbose: bool,
    rng_state: u32,
    settings: Settings,
}

impl<const MAX_PARTICLES: usize, const MAX_DUST: usize> View for ParticlesSystem<
    MAX_PARTICLES,
    MAX_DUST,
> {
    type V = SystemView;

    closed spec fn view(&self) -> SystemView {
        SystemView {
            particles: self.particle_pool@,
            dust: self.dust_pool@,
            last_ground_output: self.last_ground_output,
            collision_output: self.collision_output,
            message: message_text(self.verbose_message),
            verbose: self.verbose,
            rng_state: self.rng_state,
            settings: self.settings,
        }
    }
}

impl<const MAX_PARTICLES: usize, const MAX_DUST: usize> ParticlesSystem<MAX_PARTICLES, MAX_DUST> {
    /// The pools of an engine hold exactly as many slots as its type says.
    pub proof fn lemma_capacity(self)
        ensures
            self@.particles.len() == MAX_PARTICLES,
            self@.dust.len() == MAX_DUST,
    {
        self.particle_pool.lemma_len();
        self.dust_pool.lemma_len();
    }

    /// An engine at rest: every slot free, both outputs zero, no message,
    /// the generator seeded from the settings.
    pub fn new(settings: Settings) -> (system: Self)
        ensures
            system@ == (SystemView {
                particles: Seq::new(MAX_PARTICLES as nat, |i: int| false),
                dust: Seq::new(MAX_DUST as nat, |i: int| false),
                last_ground_output: 0,
                collision_output: 0,
                message: Seq::<char>::empty(),
                verbose: false,
                rng_state: settings.rng_seed,
                settings: settings,
            }),
    {
        ParticlesSystem {
            particle_pool: Pool::new(),
            dust_pool: Pool::new(),
            last_ground_output: 0,
            collision_output: 0,
            verbose_message: message_new(),
            verbose: false,
            rng_state: settings.rng_seed,
            settings,
        }
    }

    /// Replaces the settings. Nothing else changes: live particles and dust
    /// stay as they are and the generator is not seeded anew.
    pub fn update_settings(&mut self, settings: Settings)
        ensures
            final(self)@ == (SystemView { settings: settings, ..old(self)@ }),
    {
        self.settings = settings;
    }

    /// The settings in force.
    pub fn settings(&self) -> (settings: Settings)
        ensures
            settings == self@.settings,
    {
        self.settings
    }

    /// The output of the latest ground impact and that of the latest
    /// collision; each is zero until its first event, and each lies within
    /// the 16-bit range.
    pub fn get_outputs(&self) -> (outputs: (u16, u16))
        ensures
            outputs.0 == self@.last_ground_output,
            outputs.1 == self@.collision_output,
            0 <= outputs.0 <= 65535,
            0 <= outputs.1 <= 65535,
    {
        (self.last_ground_output, self.collision_output)
    }

    /// The message of the latest event; empty until the first event.
    pub fn message(&self) -> (text: &str)
        ensures
            text@ == self@.message,
    {
        message_as_str(&self.verbose_message)
    }

    /// The generator's state.
    pub fn rng_state(&self) -> (state: u32)
        ensures
            state == self@.rng_state,
    {
        self.rng_state
    }

    /// The number of active particles: always the number of active slots
    /// of the particle pool, and never more than the pool holds.
    pub fn active_particles(&self) -> (n: usize)
        ensures
            n == count_active(self@.particles),
            n <= MAX_PARTICLES,
    {
        self.particle_pool.live()
    }

    /// The number of active specks of dust: always the number of active
    /// slots of the dust pool, and never more than the pool holds.
    pub fn active_dust(&self) -> (n: usize)
        ensures
            n == count_active(self@.dust),
            n <= MAX_DUST,
    {
        self.dust_pool.live()
    }

    /// Whether particle slot `i` is active; an index past the pool is not.
    pub fn particle_active(&self, i: usize) -> (active: bool)
        ensures
            active == (i < MAX_PARTICLES && self@.particles[i as int]),
    {
        self.particle_pool.is_active(i)
    }

    /// Whether dust slot `i` is active; an index past the pool is not.
    pub fn dust_active(&self, i: usize) -> (active: bool)
        ensures
            active == (i < MAX_DUST && self@.dust[i as int]),
    {
        self.dust_pool.is_active(i)
    }

    /// Draws one word: the generator takes one step and the word is its new
    /// state.
    pub fn random(&mut self) -> (word: u32)
        ensures
            word == xorshift32(old(self)@.rng_state),
            final(self)@ == (SystemView { rng_state: word, ..old(self)@ }),
    {
        self.rng_state = next_state(self.rng_state);
        self.rng_state
    }

    /// Spawns a particle in the lowest free slot and draws its five words.
    /// With no free slot nothing is spawned and nothing is drawn.
    pub fn activate_particle(&mut self) -> (seed: Option<ParticleSeed>)
        ensures
            match seed {
                Some(s) => {
                    &&& is_first_free(old(self)@.particles, s.slot as int)
                    &&& s == particle_seed(s.slot as int, old(self)@.rng_state)
                    &&& final(self)@ == (SystemView {
                        particles: old(self)@.particles.update(s.slot as int, true),
                        rng_state: xorshift32_nth(old(self)@.rng_state, 5),
                        ..old(self)@
                    })
                },
                None => is_full(old(self)@.particles) && final(self)@ == old(self)@,
            },
    {
        match self.particle_pool.activate() {
            Some(slot) => {
                proof {
                    reveal_with_fuel(xorshift32_nth, 6);
                }
                let size = self.random();
                let x = self.random();
                let sway = self.random();
                let sway_speed = self.random();
                let particle_type = self.random();
                Some(ParticleSeed { slot, size, x, sway, sway_speed, particle_type })
            },
            None => None,
        }
    }

    /// Spawns a speck of dust in the lowest free slot and draws its six
    /// words. With no free slot nothing is spawned and nothing is drawn.
    pub fn activate_dust(&mut self) -> (seed: Option<DustSeed>)
        ensures
            match seed {
                Some(s) => {
                    &&& is_first_free(old(self)@.dust, s.slot as int)
                    &&& s == dust_seed(s.slot as int, old(self)@.rng_state)
                    &&& final(self)@ == (SystemView {
                        dust: old(self)@.dust.update(s.slot as int, true),
                        rng_state: xorshift32_nth(old(self)@.rng_state, 6),
                        ..old(self)@
                    })
                },
                None => is_full(old(self)@.dust) && final(self)@ == old(self)@,
            },
    {
        match self.dust_pool.activate() {
            Some(slot) => {
                proof {
                    reveal_with_fuel(xorshift32_nth, 7);
                }
                let x = self.random();
                let y = self.random();
                let dx = self.random();
                let dy = self.random();
                let brightness = self.random();
                let life = self.random();
                Some(DustSeed { slot, x, y, dx, dy, brightness, life })
            },
            None => None,
        }
    }

    /// Takes in the landings of a frame. `landings[i]` is `Some(output)`
    /// where the host saw the particle in slot `i` reach the ground, with
    /// the output encoded from that particle as it was on impact; entries
    /// for free slots are ignored.
    ///
    /// The last landed particle in slot order leaves its output and its
    /// message; then, and not before the scan is over, all landed
    /// particles are removed; then, where fewer particles are left than
    /// the settings aim for, one word is drawn and handed out for the
    /// spawn decision.
    pub fn update_particles(
        &mut self,
        landings: &[Option<u16>; MAX_PARTICLES],
    ) -> (pass: ParticlePass)
        ensures
            final(self)@ == old(self)@.after_particle_pass(landings@),
            pass.landed == count_active(
                marked_active(old(self)@.particles, landing_marks(landings@)),
            ),
            pass.landed + count_active(final(self)@.particles) == count_active(
                old(self)@.particles,
            ),
            pass.spawn_roll == if old(self)@.after_landings(landings@).spawn_due() {
                Some(xorshift32(old(self)@.rng_state))
            } else {
                None
            },
    {
        proof {
            self.lemma_capacity();
        }
        let mut to_deactivate = [false;MAX_PARTICLES];
        let mut last: Option<u16> = None;
        let mut i: usize = 0;
        while i < MAX_PARTICLES
            invariant
                i <= MAX_PARTICLES,
                *self == *old(self),
                self@.particles.len() == MAX_PARTICLES,
                last == last_landing(self@.particles, landings@, i as int),
                forall|j: int|
                    0 <= j < i ==> #[trigger] to_deactivate@[j] == (self@.particles[j]
                        && landings@[j] is Some),
                forall|j: int| i <= j < MAX_PARTICLES ==> !#[trigger] to_deactivate@[j],
            decreases MAX_PARTICLES - i,
        {
            if self.particle_pool.is_active(i) {
                if let Some(output) = landings[i] {
                    last = Some(output);
                    to_deactivate[i] = true;
                }
            }
            i = i + 1;
        }
        if let Some(output) = last {
            self.last_ground_output = output;
            write_ground_message(&mut self.verbose_message, output);
        }
        proof {
            assert(without_marked(self@.particles, to_deactivate@) =~= without_marked(
                self@.particles,
                landing_marks(landings@),
            ));
            assert(marked_active(self@.particles, to_deactivate@) =~= marked_active(
                self@.particles,
                landing_marks(landings@),
            ));
        }
        let landed = self.particle_pool.release(&to_deactivate);
        let spawn_roll = if self.particle_pool.live() < self.settings.max_particles {
            Some(self.random())
        } else {
            None
        };
        ParticlePass { landed, spawn_roll }
    }

    /// Takes in the dust that faded in a frame and tops the dust up.
    /// `expired[i]` is `true` where the host saw the speck in slot `i` run
    /// out of life; entries for free slots are ignored.
    ///
    /// Faded specks are removed first. Then specks are spawned, each in the
    /// lowest free slot, until the population reaches the dust target or
    /// the pool is full.
    pub fn update_dust(&mut self, expired: &[bool; MAX_DUST]) -> (pass: DustPass<MAX_DUST>)
        ensures
            final(self)@ == old(self)@.after_dust_pass(expired@),
            pass.expired == count_active(marked_active(old(self)@.dust, expired@)),
            forall|slot: int|
                0 <= slot < MAX_DUST ==> #[trigger] pass.spawned@[slot] == old(self)@.dust_spawn(
                    expired@,
                    slot,
                ),
    {
        proof {
            self.lemma_capacity();
        }
        let faded = self.dust_pool.release(expired);
        let target = self.settings.dust_target();
        let reach = if target < MAX_DUST {
            target
        } else {
            MAX_DUST
        };
        let ghost kept = self@.dust;
        let ghost start = self@;
        let ghost mut count: nat = 0;
        let mut spawned: [Option<DustSeed>; MAX_DUST] = [None;MAX_DUST];
        proof {
            lemma_fill_none(kept);
        }
        assert(self@ == (SystemView { dust: self@.dust, rng_state: self@.rng_state, ..start }));
        while self.dust_pool.live() < reach
            invariant
                reach <= MAX_DUST,
                kept.len() == MAX_DUST,
                self@.dust == fill_lowest(kept, count),
                self@.rng_state == xorshift32_nth(start.rng_state, 6 * count),
                self@ == (SystemView { dust: self@.dust, rng_state: self@.rng_state, ..start }),
                count_active(self@.dust) == count_active(kept) + count,
                count == 0 || count_active(kept) + count <= reach,
                forall|slot: int|
                    0 <= slot < MAX_DUST ==> #[trigger] spawned@[slot] == nth_dust_spawn(
                        kept,
                        start.rng_state,
                        count,
                        slot,
                    ),
            decreases reach - count_active(self@.dust),
        {
            let ghost before = self@;
            proof {
                lemma_count_full(before.dust);
            }
            if let Some(seed) = self.activate_dust() {
                proof {
                    lemma_dust_spawn_step(kept, start.rng_state, count, seed.slot as int);
                    lemma_count_update(before.dust, seed.slot as int, true);
                    count = count + 1;
                }
                spawned[seed.slot] = Some(seed);
            }
        }
        DustPass { expired: faded, spawned }
    }

    /// Scans all pairs of active particles for collisions, lowest slots
    /// first. `contact[i][j]`, read for `i < j` only, says whether the boxes
    /// of the particles in slots `i` and `j` touch; `cooled[i]` says whether
    /// the cooldown of the particle in slot `i` had run out when the scan
    /// began; `rearm` says whether a particle that has just collided may
    /// collide again at once, which is so only with a cooldown of zero.
    ///
    /// A pair collides where its boxes touch and both particles are
    /// eligible. Each collision draws one word. The host turns the last
    /// word into the collision output and hands it to `record_collision`.
    /// Only slots that are active when the scan runs take part: a particle
    /// removed by this frame's particle pass is no longer among them.
    pub fn check_collisions(
        &mut self,
        contact: &[[bool; MAX_PARTICLES]; MAX_PARTICLES],
        cooled: &[bool; MAX_PARTICLES],
        rearm: bool,
    ) -> (pass: CollisionPass<MAX_PARTICLES>)
        ensures
            ({
                let scan = scan_rows(
                    scan_start(cooled@, old(self)@.rng_state),
                    old(self)@.particles,
                    contact_rows(*contact),
                    rearm,
                    MAX_PARTICLES as int,
                );
                &&& final(self)@ == (SystemView { rng_state: scan.rng_state, ..old(self)@ })
                &&& pass.stamped@ == scan.stamped
                &&& pass.last_draw == scan.last_draw
            }),
    {
        proof {
            self.lemma_capacity();
        }
        let ghost active = self@.particles;
        let ghost table = contact_rows(*contact);
        let ghost mut scan = scan_start(cooled@, self@.rng_state);
        let mut eligible: [bool; MAX_PARTICLES] = *cooled;
        let mut stamped: [bool; MAX_PARTICLES] = [false;MAX_PARTICLES];
        let mut last_draw: Option<u32> = None;
        assert(stamped@ =~= scan.stamped);
        let mut i: usize = 0;
        while i < MAX_PARTICLES
            invariant
                i <= MAX_PARTICLES,
                active.len() == MAX_PARTICLES,
                active == old(self)@.particles,
                table == contact_rows(*contact),
                self@ == (SystemView { rng_state: scan.rng_state, ..old(self)@ }),
                scan == scan_rows(
                    scan_start(cooled@, old(self)@.rng_state),
                    active,
                    table,
                    rearm,
                    i as int,
                ),
                eligible@ == scan.eligible,
                stamped@ == scan.stamped,
                last_draw == scan.last_draw,
            decreases MAX_PARTICLES - i,
        {
            let ghost row_start = scan;
            if self.particle_pool.is_active(i) {
                let mut j: usize = i + 1;
                while j < MAX_PARTICLES
                    invariant
                        i < j <= MAX_PARTICLES,
                        active.len() == MAX_PARTICLES,
                        active == old(self)@.particles,
                        active[i as int],
                        table == contact_rows(*contact),
                        self@ == (SystemView { rng_state: scan.rng_state, ..old(self)@ }),
                        scan == scan_row(row_start, active, table, rearm, i as int, j as int),
                        eligible@ == scan.eligible,
                        stamped@ == scan.stamped,
                        last_draw == scan.last_draw,
                    decreases MAX_PARTICLES - j,
                {
                    if self.particle_pool.is_active(j) && contact[i][j] && eligible[i]
                        && eligible[j] {
                        let draw = self.random();
                        last_draw = Some(draw);
                        stamped[i] = true;
                        stamped[j] = true;
                        eligible[i] = rearm;
                        eligible[j] = rearm;
                    }
                    proof {
                        scan = scan_pair(scan, active, table, rearm, i as int, j as int);
                    }
                    j = j + 1;
                }
            } else {
                proof {
                    lemma_scan_row_inactive(
                        row_start,
                        active,
                        table,
                        rearm,
                        i as int,
                        MAX_PARTICLES as int,
                    );
                }
            }
            i = i + 1;
        }
        CollisionPass { stamped, last_draw }
    }

    /// Records a collision's output: it becomes the collision output and
    /// the message names it.
    pub fn record_collision(&mut self, output: u16)
        ensures
            final(self)@ == (SystemView {
                collision_output: output,
                message: collision_message(output),
                ..old(self)@
            }),
    {
        self.collision_output = output;
        write_collision_message(&mut self.verbose_message, output);
    }
}

} // verus!
