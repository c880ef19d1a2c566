//! The two draws of chance that the client makes.

use vstd::prelude::*;

verus! {

/// `rand::Rng::gen_range` over `0..n`, on the thread's own generator: some index below `n`. Which
/// one is left to chance.
#[verifier::external_body]
pub(crate) fn random_below(n: usize) -> (r: usize)
    requires
        n > 0,
    ensures
        r < n,
{
    rand::Rng::gen_range(&mut rand::thread_rng(), 0..n)
}

/// `rand::random` at `usize`: any value at all, left to chance.
#[verifier::external_body]
pub(crate) fn random_word() -> usize {
    rand::random::<usize>()
}

} // verus!
