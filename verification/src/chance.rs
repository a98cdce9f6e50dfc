//! The one place where chance enters.

use vstd::prelude::*;
use rand::seq::SliceRandom;

verus! {

/// Calls `SliceRandom::choose` of `rand` on the entries of `pool`, with the generator that
/// `rand::thread_rng` hands out.
///
/// Trusted: `choose` returns `None` for an empty slice and otherwise one of the elements of the
/// slice. Which one is left open.
#[verifier::external_body]
pub(crate) fn choose_entry(pool: &Vec<usize>) -> (choice: Option<usize>)
    ensures
        choice is None <==> pool@.len() == 0,
        choice matches Some(entry) ==> pool@.contains(entry),
{
    pool.choose(&mut rand::thread_rng()).copied()
}

/// One entry of a pool that has entries, picked at random.
pub fn pick(pool: &Vec<usize>) -> (entry: usize)
    requires
        pool@.len() > 0,
    ensures
        pool@.contains(entry),
{
    match choose_entry(pool) {
        Some(entry) => entry,
        None => vstd::pervasive::unreached(),
    }
}

} // verus!
