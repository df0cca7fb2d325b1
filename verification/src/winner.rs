//! The winner resolver: a deterministic index into the frozen participant
//! list, computed from the revealed secret alone.

use vstd::prelude::*;

verus! {

/// The winning list index for a given secret and participant count:
/// `secret mod count`. Deliberately plain modulo — the protocol's fairness
/// claim rests on the unpredictability of the secret, not on distributional
/// uniformity, so the bias when the secret's domain is not a multiple of
/// `count` is kept as specified.
pub open spec fn winner_index_of(secret: u64, count: u32) -> u32
    recommends
        count >= 1,
{
    (secret % (count as u64)) as u32
}

/// Recomputes the winner index from public data, so any party holding the
/// revealed secret and the frozen participant count can audit the outcome.
pub fn compute_winner_index(secret: u64, count: u32) -> (r: u32)
    requires
        count >= 1,
    ensures
        r == winner_index_of(secret, count),
        r < count,
{
    (secret % (count as u64)) as u32
}

/// The winner index always lands inside the frozen participant list.
pub proof fn lemma_winner_index_in_range(secret: u64, count: u32)
    requires
        count >= 1,
    ensures
        winner_index_of(secret, count) < count,
{
}

} // verus!
