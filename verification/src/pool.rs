//! Fixed-capacity pools of slots. A slot is either active (it holds a live
//! entity) or free. Nothing is ever allocated: a pool is an array of flags
//! and a counter, and the counter always equals the number of active slots.

use vstd::prelude::*;

verus! {

/// How many slots of `flags` are active.
pub open spec fn count_active(flags: Seq<bool>) -> nat
    decreases flags.len(),
{
    if flags.len() == 0 {
        0
    } else {
        count_active(flags.drop_last()) + if flags.last() {
            1nat
        } else {
            0nat
        }
    }
}

/// How many slots below index `i` are free.
pub open spec fn free_before(flags: Seq<bool>, i: int) -> nat
    decreases i,
{
    if i <= 0 {
        0
    } else {
        free_before(flags, i - 1) + if flags[i - 1] {
            0nat
        } else {
            1nat
        }
    }
}

/// `i` is the lowest free slot of `flags`.
pub open spec fn is_first_free(flags: Seq<bool>, i: int) -> bool {
    &&& 0 <= i < flags.len()
    &&& !flags[i]
    &&& forall|j: int| 0 <= j < i ==> flags[j]
}

/// No slot of `flags` is free.
pub open spec fn is_full(flags: Seq<bool>) -> bool {
    forall|j: int| 0 <= j < flags.len() ==> flags[j]
}

/// The flags after the `k` lowest free slots have been activated.
pub open spec fn fill_lowest(flags: Seq<bool>, k: nat) -> Seq<bool> {
    Seq::new(flags.len(), |i: int| flags[i] || free_before(flags, i) < k)
}

/// The flags after every marked slot has been freed.
pub open spec fn without_marked(flags: Seq<bool>, marks: Seq<bool>) -> Seq<bool> {
    Seq::new(flags.len(), |i: int| flags[i] && !marks[i])
}

/// The slots that are both active and marked.
pub open spec fn marked_active(flags: Seq<bool>, marks: Seq<bool>) -> Seq<bool> {
    Seq::new(flags.len(), |i: int| flags[i] && marks[i])
}

/// A pool whose slots are all free counts nothing.
pub proof fn lemma_count_empty(flags: Seq<bool>)
    requires
        forall|j: int| 0 <= j < flags.len() ==> !flags[j],
    ensures
        count_active(flags) == 0,
    decreases flags.len(),
{
    if flags.len() > 0 {
        lemma_count_empty(flags.drop_last());
    }
}

/// The count of active slots never exceeds the number of slots.
pub proof fn lemma_count_bound(flags: Seq<bool>)
    ensures
        count_active(flags) <= flags.len(),
    decreases flags.len(),
{
    if flags.len() > 0 {
        lemma_count_bound(flags.drop_last());
    }
}

/// Changing one slot changes the count by that slot alone.
pub proof fn lemma_count_update(flags: Seq<bool>, i: int, value: bool)
    requires
        0 <= i < flags.len(),
    ensures
        count_active(flags.update(i, value)) + (if flags[i] {
            1int
        } else {
            0int
        }) == count_active(flags) + (if value {
            1int
        } else {
            0int
        }),
    decreases flags.len(),
{
    let changed = flags.update(i, value);
    if i == flags.len() - 1 {
        assert(changed.drop_last() =~= flags.drop_last());
    } else {
        assert(changed.drop_last() =~= flags.drop_last().update(i, value));
        lemma_count_update(flags.drop_last(), i, value);
    }
}

/// A pool with no free slot has every slot counted, and one whose count
/// equals its length has no free slot.
pub proof fn lemma_count_full(flags: Seq<bool>)
    ensures
        is_full(flags) <==> count_active(flags) == flags.len(),
    decreases flags.len(),
{
    if flags.len() > 0 {
        let rest = flags.drop_last();
        lemma_count_full(rest);
        lemma_count_bound(rest);
        if is_full(flags) {
            assert forall|j: int| 0 <= j < rest.len() implies rest[j] by {
                assert(rest[j] == flags[j]);
            }
        }
        if count_active(flags) == flags.len() {
            assert forall|j: int| 0 <= j < flags.len() implies flags[j] by {
                if j < rest.len() {
                    assert(rest[j] == flags[j]);
                }
            }
        }
    }
}

/// Active and free slots together make up the pool.
pub proof fn lemma_free_before_all(flags: Seq<bool>)
    ensures
        free_before(flags, flags.len() as int) + count_active(flags) == flags.len(),
    decreases flags.len(),
{
    if flags.len() > 0 {
        let rest = flags.drop_last();
        lemma_free_before_all(rest);
        lemma_free_before_prefix(flags, rest, rest.len() as int);
    }
}

/// `free_before` reads only the slots below its index.
pub proof fn lemma_free_before_prefix(a: Seq<bool>, b: Seq<bool>, i: int)
    requires
        0 <= i <= a.len(),
        i <= b.len(),
        forall|j: int| 0 <= j < i ==> a[j] == b[j],
    ensures
        free_before(a, i) == free_before(b, i),
    decreases i,
{
    if i > 0 {
        lemma_free_before_prefix(a, b, i - 1);
    }
}

/// `free_before` never goes down as the index goes up, and it steps over a
/// free slot by exactly one.
pub proof fn lemma_free_before_monotone(flags: Seq<bool>, i: int, j: int)
    requires
        0 <= i <= j,
    ensures
        free_before(flags, i) <= free_before(flags, j),
        i < j && !flags[i] ==> free_before(flags, i) < free_before(flags, j),
    decreases j - i,
{
    if i < j {
        lemma_free_before_monotone(flags, i, j - 1);
    }
}

/// Where the `k` lowest free slots are already filled, the lowest slot
/// still free is the free slot of rank `k`, and filling it too gives the
/// pool with its `k + 1` lowest free slots filled.
pub proof fn lemma_fill_next(flags: Seq<bool>, k: nat, slot: int)
    requires
        is_first_free(fill_lowest(flags, k), slot),
    ensures
        !flags[slot],
        free_before(flags, slot) == k,
        fill_lowest(flags, k).update(slot, true) == fill_lowest(flags, k + 1),
{
    let filled = fill_lowest(flags, k);
    assert(!filled[slot]);
    assert forall|t: int| 0 <= t < slot implies flags[t] || free_before(flags, t) < k by {
        assert(filled[t]);
    }
    lemma_rank_below_filled(flags, k, slot);
    assert forall|i: int| 0 <= i < flags.len() implies filled.update(slot, true)[i] == fill_lowest(
        flags,
        k + 1,
    )[i] by {
        if i < slot {
            lemma_free_before_monotone(flags, i, slot);
        } else if i > slot {
            lemma_free_before_monotone(flags, slot, i);
        }
    }
    assert(filled.update(slot, true) =~= fill_lowest(flags, k + 1));
}

/// Where every free slot below `i` has a rank under `k`, at most `k` slots
/// below `i` are free.
proof fn lemma_rank_below_filled(flags: Seq<bool>, k: nat, i: int)
    requires
        0 <= i <= flags.len(),
        forall|t: int| 0 <= t < i ==> flags[t] || free_before(flags, t) < k,
    ensures
        free_before(flags, i) <= k,
    decreases i,
{
    if i > 0 {
        lemma_rank_below_filled(flags, k, i - 1);
    }
}

/// Filling no slot changes nothing.
pub proof fn lemma_fill_none(flags: Seq<bool>)
    ensures
        fill_lowest(flags, 0) == flags,
{
    assert(fill_lowest(flags, 0) =~= flags);
}

/// Filling the `k` lowest free slots raises the count by `k`, or by the
/// number of free slots where fewer than `k` are free.
pub proof fn lemma_count_fill_lowest(flags: Seq<bool>, k: nat)
    ensures
        count_active(fill_lowest(flags, k)) == count_active(flags) + if k < free_before(
            flags,
            flags.len() as int,
        ) {
            k
        } else {
            free_before(flags, flags.len() as int)
        },
    decreases flags.len(),
{
    if flags.len() > 0 {
        let rest = flags.drop_last();
        let last = flags.len() - 1;
        lemma_count_fill_lowest(rest, k);
        lemma_free_before_prefix(flags, rest, last);
        assert forall|i: int| 0 <= i < rest.len() implies fill_lowest(flags, k).drop_last()[i]
            == fill_lowest(rest, k)[i] by {
            lemma_free_before_prefix(flags, rest, i);
        }
        assert(fill_lowest(flags, k).drop_last() =~= fill_lowest(rest, k));
    }
}

/// A pool that is not full has a lowest free slot.
pub proof fn lemma_first_free_exists(flags: Seq<bool>) -> (slot: int)
    requires
        !is_full(flags),
    ensures
        is_first_free(flags, slot),
    decreases flags.len(),
{
    let rest = flags.drop_last();
    if is_full(rest) {
        let last = flags.len() - 1;
        assert forall|j: int| 0 <= j < last implies flags[j] by {
            assert(rest[j]);
        }
        last
    } else {
        let slot = lemma_first_free_exists(rest);
        assert forall|j: int| 0 <= j < slot implies flags[j] by {
            assert(rest[j]);
        }
        assert(rest[slot] == flags[slot]);
        slot
    }
}

/// Removing the marked slots lowers the count by the number of slots that
/// were both active and marked.
pub proof fn lemma_count_without_marked(flags: Seq<bool>, marks: Seq<bool>)
    requires
        flags.len() == marks.len(),
    ensures
        count_active(without_marked(flags, marks)) + count_active(marked_active(flags, marks))
            == count_active(flags),
    decreases flags.len(),
{
    if flags.len() > 0 {
        lemma_count_without_marked(flags.drop_last(), marks.drop_last());
        assert(without_marked(flags, marks).drop_last() =~= without_marked(
            flags.drop_last(),
            marks.drop_last(),
        ));
        assert(marked_active(flags, marks).drop_last() =~= marked_active(
            flags.drop_last(),
            marks.drop_last(),
        ));
    }
}

/// A pool of `N` slots.
pub struct Pool<const N: usize> {
    slots: [bool; N],
    live: usize,
}

impl<const N: usize> View for Pool<N> {
    type V = Seq<bool>;

    /// The slots' flags, lowest index first: `true` for an active slot.
    closed spec fn view(&self) -> Seq<bool> {
        self.slots@
    }
}

/// Activates the free slot `i`.
fn occupy<const N: usize>(slots: &mut [bool; N], live: &mut usize, i: usize)
    requires
        i < N,
        !old(slots)@[i as int],
        *old(live) == count_active(old(slots)@),
    ensures
        final(slots)@ == old(slots)@.update(i as int, true),
        *final(live) == count_active(final(slots)@),
    no_unwind
{
    proof {
        lemma_count_update(slots@, i as int, true);
        lemma_count_bound(slots@.update(i as int, true));
    }
    slots[i] = true;
    assert(slots@ =~= old(slots)@.update(i as int, true));
    *live = *live + 1;
}

/// Frees every active slot that `marks` names and returns how many it freed.
fn vacate<const N: usize>(
    slots: &mut [bool; N],
    live: &mut usize,
    marks: &[bool; N],
) -> (freed: usize)
    requires
        *old(live) == count_active(old(slots)@),
    ensures
        final(slots)@ == without_marked(old(slots)@, marks@),
        *final(live) == count_active(final(slots)@),
        freed == count_active(marked_active(old(slots)@, marks@)),
    no_unwind
{
    let mut freed: usize = 0;
    let mut i: usize = 0;
    while i < N
        invariant
            i <= N,
            *live == count_active(slots@),
            forall|j: int| 0 <= j < i ==> #[trigger] slots@[j] == (old(slots)@[j] && !marks@[j]),
            forall|j: int| i <= j < N ==> #[trigger] slots@[j] == old(slots)@[j],
            freed == count_active(marked_active(old(slots)@, marks@).take(i as int)),
            freed <= i,
        decreases N - i,
    {
        let ghost before = slots@;
        let ghost hits = marked_active(old(slots)@, marks@);
        proof {
            assert(hits.take(i + 1).drop_last() =~= hits.take(i as int));
        }
        assert(before[i as int] == old(slots)@[i as int]);
        if slots[i] && marks[i] {
            proof {
                lemma_count_update(before, i as int, false);
            }
            slots[i] = false;
            assert(slots@ =~= before.update(i as int, false));
            *live = *live - 1;
            freed = freed + 1;
        }
        assert(slots@[i as int] == (old(slots)@[i as int] && !marks@[i as int]));
        assert(forall|j: int| 0 <= j < i ==> slots@[j] == before[j]);
        i = i + 1;
    }
    proof {
        let hits = marked_active(old(slots)@, marks@);
        let kept = without_marked(old(slots)@, marks@);
        assert(hits.take(N as int) =~= hits);
        assert forall|j: int| 0 <= j < N implies slots@[j] == kept[j] by {
            assert(slots@[j] == (old(slots)@[j] && !marks@[j]));
        }
        assert(slots@ =~= kept);
    }
    freed
}

impl<const N: usize> Pool<N> {
    #[verifier::type_invariant]
    spec fn counted(self) -> bool {
        self.live == count_active(self.slots@)
    }

    /// A pool always has exactly `N` slots.
    pub proof fn lemma_len(self)
        ensures
            self@.len() == N,
    {
    }

    /// A pool with every slot free.
    pub fn new() -> (pool: Self)
        ensures
            pool@ == Seq::new(N as nat, |i: int| false),
    {
        let slots = [false;N];
        proof {
            lemma_count_empty(slots@);
            assert(slots@ =~= Seq::new(N as nat, |i: int| false));
        }
        Pool { slots, live: 0 }
    }

    /// The number of slots.
    pub fn capacity(&self) -> (n: usize)
        ensures
            n == N,
            n == self@.len(),
    {
        N
    }

    /// The number of active slots.
    pub fn live(&self) -> (n: usize)
        ensures
            n == count_active(self@),
            n <= N,
    {
        proof {
            use_type_invariant(self);
            lemma_count_bound(self.slots@);
        }
        self.live
    }

    /// Whether slot `i` is active. An index past the end names no slot and
    /// counts as not active.
    pub fn is_active(&self, i: usize) -> (active: bool)
        ensures
            active == (i < N && self@[i as int]),
    {
        i < N && self.slots[i]
    }

    /// The lowest free slot, if there is one.
    pub fn first_free(&self) -> (slot: Option<usize>)
        ensures
            match slot {
                Some(i) => is_first_free(self@, i as int),
                None => is_full(self@),
            },
    {
        let mut i: usize = 0;
        while i < N
            invariant
                i <= N,
                forall|j: int| 0 <= j < i ==> self.slots@[j],
            decreases N - i,
        {
            if !self.slots[i] {
                return Some(i);
            }
            i = i + 1;
        }
        None
    }

    /// Activates the lowest free slot and returns its index. A full pool is
    /// left as it is.
    pub fn activate(&mut self) -> (slot: Option<usize>)
        ensures
            match slot {
                Some(i) => is_first_free(old(self)@, i as int) && final(self)@ == old(self)@.update(
                    i as int,
                    true,
                ),
                None => is_full(old(self)@) && final(self)@ == old(self)@,
            },
    {
        proof {
            use_type_invariant(&*self);
        }
        let slot = self.first_free();
        if let Some(i) = slot {
            occupy(&mut self.slots, &mut self.live, i);
        }
        slot
    }

    /// Frees every active slot that `marks` names and returns how many it
    /// freed. Marks on free slots change nothing.
    pub fn release(&mut self, marks: &[bool; N]) -> (freed: usize)
        ensures
            final(self)@ == without_marked(old(self)@, marks@),
            freed == count_active(marked_active(old(self)@, marks@)),
            count_active(final(self)@) + freed == count_active(old(self)@),
    {
        proof {
            use_type_invariant(&*self);
            lemma_count_without_marked(self.slots@, marks@);
        }
        vacate(&mut self.slots, &mut self.live, marks)
    }
}

} // verus!
