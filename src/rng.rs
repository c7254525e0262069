use vstd::prelude::*;

use rand::rngs::ThreadRng;
use rand::seq::SliceRandom;
use rand::Rng;

verus! {

/// The thread-local random number generator of `rand`, carried through opaquely.
#[verifier::external_type_specification]
#[verifier::external_body]
pub struct ExThreadRng(ThreadRng);

/// Relies on `rand::thread_rng`: a handle to the thread's generator; nothing is known of it.
#[verifier::external_body]
pub fn thread_rng() -> (r: ThreadRng) {
    rand::thread_rng()
}

/// Relies on `SliceRandom::shuffle`, which permutes the slice in place by swaps.
#[verifier::external_body]
pub(crate) fn shuffle_indices(v: &mut Vec<usize>, rng: &mut ThreadRng)
    ensures
        final(v)@.to_multiset() == old(v)@.to_multiset(),
        final(v)@.len() == old(v)@.len(),
{
    v.as_mut_slice().shuffle(rng);
}

/// Relies on `Rng::gen_range` over `0..n`, which yields a value below `n` and panics only on an
/// empty range.
#[verifier::external_body]
pub(crate) fn below(rng: &mut ThreadRng, n: u64) -> (r: u64)
    requires
        n > 0,
    ensures
        r < n,
{
    rng.gen_range(0..n)
}

} // verus!
