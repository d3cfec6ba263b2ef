//! The 32-bit xorshift generator that drives every random choice of the
//! simulation. The generator works on whole words: how a word becomes a
//! number in a range is up to the host that consumes it.

use vstd::prelude::*;

verus! {

/// One step of the generator: shift left by 13, right by 17, left by 5,
/// folding each shifted word back in with exclusive or.
pub open spec fn xorshift32(state: u32) -> u32 {
    let a = state ^ (state << 13);
    let b = a ^ (a >> 17);
    b ^ (b << 5)
}

/// The state reached from `state` after `n` steps.
pub open spec fn xorshift32_nth(state: u32, n: nat) -> u32
    decreases n,
{
    if n == 0 {
        state
    } else {
        xorshift32(xorshift32_nth(state, (n - 1) as nat))
    }
}

/// Advances the generator by one step and returns the new state, which is
/// also the word drawn.
pub fn next_state(state: u32) -> (next: u32)
    ensures
        next == xorshift32(state),
{
    let a: u32 = state ^ (state << 13);
    let b: u32 = a ^ (a >> 17);
    b ^ (b << 5)
}

/// A nonzero state never steps to zero, and zero steps to zero.
pub proof fn lemma_xorshift32_nonzero(state: u32)
    ensures
        xorshift32(state) == 0 <==> state == 0,
{
    assert(xorshift32(state) == 0 <==> state == 0) by (bit_vector);
}

/// Taking `m` steps and then `n` more is taking `m + n` steps.
pub proof fn lemma_xorshift32_nth_add(state: u32, m: nat, n: nat)
    ensures
        xorshift32_nth(xorshift32_nth(state, m), n) == xorshift32_nth(state, m + n),
    decreases n,
{
    if n > 0 {
        lemma_xorshift32_nth_add(state, m, (n - 1) as nat);
        assert((m + n - 1) as nat == m + (n - 1) as nat);
    }
}

/// A generator seeded with a nonzero word never reaches zero, and one
/// seeded with zero never leaves it.
pub proof fn lemma_xorshift32_nth_nonzero(state: u32, n: nat)
    ensures
        xorshift32_nth(state, n) == 0 <==> state == 0,
    decreases n,
{
    if n > 0 {
        lemma_xorshift32_nth_nonzero(state, (n - 1) as nat);
        lemma_xorshift32_nonzero(xorshift32_nth(state, (n - 1) as nat));
    }
}

} // verus!
