//! The collision scan: all pairs of particle slots, lowest first, each pair
//! colliding where its boxes touch and both particles are past their
//! cooldown.

use vstd::prelude::*;
use crate::rng::xorshift32;

verus! {

/// The state of a collision scan between two pairs.
pub struct Scan {
    /// For each particle slot, whether its cooldown lets it collide now.
    pub eligible: Seq<bool>,
    /// For each particle slot, whether it has collided in this scan.
    pub stamped: Seq<bool>,
    /// The generator's state.
    pub rng_state: u32,
    /// How many pairs have collided in this scan.
    pub fired: nat,
    /// The word drawn for the latest collision of this scan.
    pub last_draw: Option<u32>,
}

/// The scan before its first pair: the eligible particles are those whose
/// cooldown had run out when the frame began.
pub open spec fn scan_start(cooled: Seq<bool>, rng_state: u32) -> Scan {
    Scan {
        eligible: cooled,
        stamped: Seq::new(cooled.len(), |i: int| false),
        rng_state: rng_state,
        fired: 0,
        last_draw: None,
    }
}

/// The pair `(i, j)` collides: both slots are active, their boxes touch,
/// and both are eligible.
pub open spec fn pair_fires(
    scan: Scan,
    active: Seq<bool>,
    contact: Seq<Seq<bool>>,
    i: int,
    j: int,
) -> bool {
    active[i] && active[j] && contact[i][j] && scan.eligible[i] && scan.eligible[j]
}

/// The scan after the pair `(i, j)`. A collision draws one word and stamps
/// both particles; from then on each of them is eligible only if a stamped
/// particle is at once eligible again (`rearm`).
pub open spec fn scan_pair(
    scan: Scan,
    active: Seq<bool>,
    contact: Seq<Seq<bool>>,
    rearm: bool,
    i: int,
    j: int,
) -> Scan {
    if pair_fires(scan, active, contact, i, j) {
        let draw = xorshift32(scan.rng_state);
        Scan {
            eligible: scan.eligible.update(i, rearm).update(j, rearm),
            stamped: scan.stamped.update(i, true).update(j, true),
            rng_state: draw,
            fired: scan.fired + 1,
            last_draw: Some(draw),
        }
    } else {
        scan
    }
}

/// The scan after the pairs `(i, j)` with `i < j < end`, lowest `j` first.
pub open spec fn scan_row(
    scan: Scan,
    active: Seq<bool>,
    contact: Seq<Seq<bool>>,
    rearm: bool,
    i: int,
    end: int,
) -> Scan
    decreases end - i,
{
    if end <= i + 1 {
        scan
    } else {
        scan_pair(scan_row(scan, active, contact, rearm, i, end - 1), active, contact, rearm, i, end - 1)
    }
}

/// The scan after the rows of all slots below `rows`, lowest slot first,
/// each row running up to the last slot.
pub open spec fn scan_rows(
    scan: Scan,
    active: Seq<bool>,
    contact: Seq<Seq<bool>>,
    rearm: bool,
    rows: int,
) -> Scan
    decreases rows,
{
    if rows <= 0 {
        scan
    } else {
        scan_row(
            scan_rows(scan, active, contact, rearm, rows - 1),
            active,
            contact,
            rearm,
            rows - 1,
            active.len() as int,
        )
    }
}

/// A table of contacts as a sequence of rows.
pub open spec fn contact_rows<const N: usize>(contact: [[bool; N]; N]) -> Seq<Seq<bool>> {
    Seq::new(N as nat, |i: int| contact@[i]@)
}

/// The row of a free slot changes nothing.
pub proof fn lemma_scan_row_inactive(
    scan: Scan,
    active: Seq<bool>,
    contact: Seq<Seq<bool>>,
    rearm: bool,
    i: int,
    end: int,
)
    requires
        !active[i],
    ensures
        scan_row(scan, active, contact, rearm, i, end) == scan,
    decreases end - i,
{
    if end > i + 1 {
        lemma_scan_row_inactive(scan, active, contact, rearm, i, end - 1);
    }
}

} // verus!
