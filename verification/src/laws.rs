//! What holds of the engine in every state and for every input. Each law
//! is stated over the same views and functions as the contracts of the
//! engine's operations, and proved from their definitions.

use vstd::prelude::*;
use crate::pool::{
    count_active, fill_lowest, is_first_free, is_full, lemma_count_bound, lemma_count_empty,
    lemma_count_fill_lowest, lemma_count_full, lemma_count_update, lemma_count_without_marked,
    lemma_first_free_exists, lemma_free_before_all, marked_active, without_marked,
};
use crate::rng::{xorshift32, xorshift32_nth};
use crate::scan::{pair_fires, scan_pair, scan_row, scan_rows, scan_start, Scan};
use crate::view::{landing_marks, last_landing, SystemView};

verus! {

/// A particle pass never adds a particle: the population after it is the
/// population before it less the particles that landed.
pub proof fn law_particle_pass_only_removes(before: SystemView, landings: Seq<Option<u16>>)
    requires
        landings.len() == before.particles.len(),
    ensures
        count_active(before.after_particle_pass(landings).particles) + count_active(
            marked_active(before.particles, landing_marks(landings)),
        ) == count_active(before.particles),
        forall|i: int|
            0 <= i < before.particles.len() && #[trigger] before.after_particle_pass(
                landings,
            ).particles[i] ==> before.particles[i],
{
    lemma_count_without_marked(before.particles, landing_marks(landings));
}

/// The spawn bound. A particle pass hands out a word for the spawn decision
/// only while fewer particles are alive than the settings aim for, and a
/// spawn adds one particle. So a spawn that follows the pass leaves no more
/// particles alive than the target, and a pass without a spawn leaves no
/// more alive than there were.
pub proof fn law_spawn_bound(before: SystemView, landings: Seq<Option<u16>>, slot: int)
    requires
        landings.len() == before.particles.len(),
    ensures
        ({
            let after = before.after_particle_pass(landings);
            &&& count_active(after.particles) <= count_active(before.particles)
            &&& before.after_landings(landings).spawn_due() && is_first_free(after.particles, slot)
                ==> count_active(after.particles.update(slot, true)) == count_active(
                after.particles,
            ) + 1 && count_active(after.particles.update(slot, true))
                <= before.settings.max_particles
        }),
{
    let after = before.after_particle_pass(landings);
    law_particle_pass_only_removes(before, landings);
    if is_first_free(after.particles, slot) {
        lemma_count_update(after.particles, slot, true);
    }
}

/// Where the particle pool holds at least as many slots as the settings aim
/// to keep alive, a spawn that is due always finds a free slot.
pub proof fn law_due_spawn_finds_slot(state: SystemView)
    requires
        state.spawn_due(),
        state.settings.max_particles <= state.particles.len(),
    ensures
        !is_full(state.particles),
        exists|slot: int| is_first_free(state.particles, slot),
{
    lemma_count_full(state.particles);
    let slot = lemma_first_free_exists(state.particles);
}

/// A particle that reaches the ground in a frame is gone when the frame's
/// particle pass is over, and the ground output is that of a particle that
/// landed in this pass: the one in the highest slot.
pub proof fn law_landed_particles_leave(before: SystemView, landings: Seq<Option<u16>>, i: int)
    requires
        landings.len() == before.particles.len(),
        0 <= i < before.particles.len(),
        before.particles[i],
        landings[i] is Some,
    ensures
        ({
            let after = before.after_particle_pass(landings);
            &&& !after.particles[i]
            &&& exists|k: int|
                {
                    &&& i <= k < before.particles.len()
                    &&& before.particles[k]
                    &&& #[trigger] landings[k] == Some(after.last_ground_output)
                    &&& forall|j: int|
                        k < j < before.particles.len() ==> !(before.particles[j]
                            && #[trigger] landings[j] is Some)
                }
        }),
{
    let n = before.particles.len() as int;
    let k = lemma_last_landing(before.particles, landings, n, i);
    assert(landings[k] == Some(before.after_particle_pass(landings).last_ground_output));
}

/// Where a landed particle sits below `n`, `last_landing` names the output
/// of the highest such particle.
proof fn lemma_last_landing(
    active: Seq<bool>,
    landings: Seq<Option<u16>>,
    n: int,
    i: int,
) -> (k: int)
    requires
        0 <= i < n,
        active[i],
        landings[i] is Some,
    ensures
        i <= k < n,
        active[k],
        landings[k] is Some,
        last_landing(active, landings, n) == landings[k],
        forall|j: int| k < j < n ==> !(active[j] && #[trigger] landings[j] is Some),
    decreases n,
{
    if active[n - 1] && landings[n - 1] is Some {
        n - 1
    } else {
        lemma_last_landing(active, landings, n - 1, i)
    }
}

/// Where no particle landed, the ground output and the message stay as they
/// were.
pub proof fn law_no_landing_no_output(before: SystemView, landings: Seq<Option<u16>>)
    requires
        landings.len() == before.particles.len(),
        forall|i: int|
            0 <= i < before.particles.len() ==> !(before.particles[i] && #[trigger] landings[i]
                is Some),
    ensures
        before.after_particle_pass(landings).last_ground_output == before.last_ground_output,
        before.after_particle_pass(landings).message == before.message,
        before.after_particle_pass(landings).particles == before.particles,
{
    lemma_no_landing(before.particles, landings, before.particles.len() as int);
    assert(without_marked(before.particles, landing_marks(landings)) =~= before.particles);
}

proof fn lemma_no_landing(active: Seq<bool>, landings: Seq<Option<u16>>, n: int)
    requires
        n <= active.len(),
        forall|i: int| 0 <= i < n ==> !(active[i] && #[trigger] landings[i] is Some),
    ensures
        last_landing(active, landings, n) is None,
    decreases n,
{
    if n > 0 {
        lemma_no_landing(active, landings, n - 1);
    }
}

/// The life of dust. A speck that fades in a frame is removed once: it
/// counts for one in the number of removed specks, and its slot is active
/// afterwards only if the same pass spawned a new speck into it.
pub proof fn law_faded_dust_leaves(before: SystemView, expired: Seq<bool>, i: int)
    requires
        expired.len() == before.dust.len(),
        0 <= i < before.dust.len(),
        before.dust[i],
        expired[i],
    ensures
        !without_marked(before.dust, expired)[i],
        marked_active(before.dust, expired)[i],
        count_active(without_marked(before.dust, expired)) + count_active(
            marked_active(before.dust, expired),
        ) == count_active(before.dust),
        before.after_dust_pass(expired).dust[i] <==> before.dust_spawn(expired, i) is Some,
{
    lemma_count_without_marked(before.dust, expired);
}

/// The dust population after a pass: the specks that did not fade, topped
/// up to the dust target, or to the pool's capacity where that is less. A
/// population already at or over the target is left alone.
pub proof fn law_dust_population(before: SystemView, expired: Seq<bool>)
    requires
        expired.len() == before.dust.len(),
    ensures
        ({
            let kept = count_active(without_marked(before.dust, expired));
            let after = count_active(before.after_dust_pass(expired).dust);
            let target = before.settings.spec_dust_target();
            let capacity = before.dust.len();
            &&& after <= capacity
            &&& kept >= target ==> after == kept
            &&& kept < target <= capacity ==> after == target
            &&& kept < target && capacity < target ==> after == capacity
            &&& before.after_dust_pass(expired).rng_state == xorshift32_nth(
                before.rng_state,
                (6 * (after - kept)) as nat,
            )
        }),
{
    let kept = without_marked(before.dust, expired);
    let spawns = before.dust_shortfall(kept);
    lemma_count_fill_lowest(kept, spawns);
    lemma_free_before_all(kept);
    lemma_count_bound(kept);
    lemma_count_bound(fill_lowest(kept, spawns));
}

/// What every state of a collision scan satisfies.
spec fn scan_sound(scan: Scan, cooled: Seq<bool>, rng_state: u32, active: Seq<bool>, rearm: bool)
    -> bool {
    &&& scan.eligible.len() == active.len()
    &&& scan.stamped.len() == active.len()
    &&& forall|i: int|
        0 <= i < active.len() && #[trigger] scan.stamped[i] ==> active[i] && cooled[i]
    &&& forall|i: int| 0 <= i < active.len() && #[trigger] scan.eligible[i] ==> cooled[i]
    &&& !rearm ==> forall|i: int|
        0 <= i < active.len() && #[trigger] scan.stamped[i] ==> !scan.eligible[i]
    &&& !rearm ==> count_active(scan.stamped) == 2 * scan.fired
    &&& scan.rng_state == xorshift32_nth(rng_state, scan.fired)
    &&& scan.last_draw == if scan.fired > 0 {
        Some(scan.rng_state)
    } else {
        None
    }
}

proof fn lemma_scan_pair_sound(
    scan: Scan,
    cooled: Seq<bool>,
    rng_state: u32,
    active: Seq<bool>,
    contact: Seq<Seq<bool>>,
    rearm: bool,
    i: int,
    j: int,
)
    requires
        scan_sound(scan, cooled, rng_state, active, rearm),
        0 <= i < j < active.len(),
    ensures
        scan_sound(scan_pair(scan, active, contact, rearm, i, j), cooled, rng_state, active, rearm),
{
    if pair_fires(scan, active, contact, i, j) {
        let next = scan_pair(scan, active, contact, rearm, i, j);
        lemma_count_update(scan.stamped, i, true);
        lemma_count_update(scan.stamped.update(i, true), j, true);
        assert(xorshift32_nth(rng_state, scan.fired + 1) == xorshift32(
            xorshift32_nth(rng_state, scan.fired),
        ));
    }
}

proof fn lemma_scan_row_sound(
    scan: Scan,
    cooled: Seq<bool>,
    rng_state: u32,
    active: Seq<bool>,
    contact: Seq<Seq<bool>>,
    rearm: bool,
    i: int,
    end: int,
)
    requires
        scan_sound(scan, cooled, rng_state, active, rearm),
        0 <= i,
        end <= active.len(),
    ensures
        scan_sound(
            scan_row(scan, active, contact, rearm, i, end),
            cooled,
            rng_state,
            active,
            rearm,
        ),
    decreases end - i,
{
    if end > i + 1 {
        lemma_scan_row_sound(scan, cooled, rng_state, active, contact, rearm, i, end - 1);
        lemma_scan_pair_sound(
            scan_row(scan, active, contact, rearm, i, end - 1),
            cooled,
            rng_state,
            active,
            contact,
            rearm,
            i,
            end - 1,
        );
    }
}

proof fn lemma_scan_rows_sound(
    cooled: Seq<bool>,
    rng_state: u32,
    active: Seq<bool>,
    contact: Seq<Seq<bool>>,
    rearm: bool,
    rows: int,
)
    requires
        cooled.len() == active.len(),
        rows <= active.len(),
    ensures
        scan_sound(
            scan_rows(scan_start(cooled, rng_state), active, contact, rearm, rows),
            cooled,
            rng_state,
            active,
            rearm,
        ),
    decreases rows,
{
    if rows > 0 {
        lemma_scan_rows_sound(cooled, rng_state, active, contact, rearm, rows - 1);
        lemma_scan_row_sound(
            scan_rows(scan_start(cooled, rng_state), active, contact, rearm, rows - 1),
            cooled,
            rng_state,
            active,
            contact,
            rearm,
            rows - 1,
            active.len() as int,
        );
    } else {
        lemma_count_empty(scan_start(cooled, rng_state).stamped);
    }
}

/// The collision cooldown. Only active particles whose cooldown has run
/// out collide. Unless a cooldown of zero re-arms them at once, no particle
/// collides twice in one scan: every collision stamps two particles that
/// were not stamped before. Each collision draws exactly one word, and the
/// word handed out is the last one drawn.
pub proof fn law_collision_cooldown(
    cooled: Seq<bool>,
    rng_state: u32,
    active: Seq<bool>,
    contact: Seq<Seq<bool>>,
    rearm: bool,
)
    requires
        cooled.len() == active.len(),
    ensures
        ({
            let scan = scan_rows(
                scan_start(cooled, rng_state),
                active,
                contact,
                rearm,
                active.len() as int,
            );
            &&& scan.stamped.len() == active.len()
            &&& forall|i: int|
                0 <= i < active.len() && #[trigger] scan.stamped[i] ==> active[i] && cooled[i]
            &&& !rearm ==> count_active(scan.stamped) == 2 * scan.fired
            &&& scan.rng_state == xorshift32_nth(rng_state, scan.fired)
            &&& scan.last_draw == if scan.fired > 0 {
                Some(scan.rng_state)
            } else {
                None
            }
        }),
{
    lemma_scan_rows_sound(cooled, rng_state, active, contact, rearm, active.len() as int);
}

} // verus!
