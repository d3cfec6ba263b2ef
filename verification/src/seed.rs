//! The words that the engine draws for a new particle or speck of dust.
//! The engine hands them out raw; each field names what its word is for.

use vstd::prelude::*;
use crate::pool::free_before;
use crate::rng::xorshift32_nth;

verus! {

/// The words drawn for a new particle, in the order in which they are
/// drawn, and the slot that the particle fills.
#[derive(Clone, Copy, Debug, PartialEq, Eq, Structural)]
pub struct ParticleSeed {
    /// The slot that was activated.
    pub slot: usize,
    /// First draw: the size.
    pub size: u32,
    /// Second draw: the horizontal position.
    pub x: u32,
    /// Third draw: the sway angle.
    pub sway: u32,
    /// Fourth draw: the sway speed.
    pub sway_speed: u32,
    /// Fifth draw: the type.
    pub particle_type: u32,
}

/// The words drawn for a new speck of dust, in the order in which they are
/// drawn, and the slot that the speck fills.
#[derive(Clone, Copy, Debug, PartialEq, Eq, Structural)]
pub struct DustSeed {
    /// The slot that was activated.
    pub slot: usize,
    /// First draw: the horizontal position.
    pub x: u32,
    /// Second draw: the vertical position.
    pub y: u32,
    /// Third draw: the horizontal speed.
    pub dx: u32,
    /// Fourth draw: the vertical speed.
    pub dy: u32,
    /// Fifth draw: the brightness.
    pub brightness: u32,
    /// Sixth draw: the lifetime.
    pub life: u32,
}

/// The seed of a particle in `slot`, drawn from a generator in state `rng`.
pub open spec fn particle_seed(slot: int, rng: u32) -> ParticleSeed {
    ParticleSeed {
        slot: slot as usize,
        size: xorshift32_nth(rng, 1),
        x: xorshift32_nth(rng, 2),
        sway: xorshift32_nth(rng, 3),
        sway_speed: xorshift32_nth(rng, 4),
        particle_type: xorshift32_nth(rng, 5),
    }
}

/// The seed of a speck of dust in `slot`, drawn from a generator in state
/// `rng`.
pub open spec fn dust_seed(slot: int, rng: u32) -> DustSeed {
    DustSeed {
        slot: slot as usize,
        x: xorshift32_nth(rng, 1),
        y: xorshift32_nth(rng, 2),
        dx: xorshift32_nth(rng, 3),
        dy: xorshift32_nth(rng, 4),
        brightness: xorshift32_nth(rng, 5),
        life: xorshift32_nth(rng, 6),
    }
}

/// The seed in `slot` once `count` specks have been spawned into the
/// lowest free slots of `kept`, from a generator that started in `rng`.
pub open spec fn nth_dust_spawn(
    kept: Seq<bool>,
    rng: u32,
    count: nat,
    slot: int,
) -> Option<DustSeed> {
    let rank = free_before(kept, slot);
    if !kept[slot] && rank < count {
        Some(dust_seed(slot, xorshift32_nth(rng, 6 * rank)))
    } else {
        None
    }
}

} // verus!
