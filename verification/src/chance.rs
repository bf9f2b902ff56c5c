use vstd::prelude::*;

use rand::rngs::ThreadRng;
use rand::seq::SliceRandom;
use rand::Rng;

use crate::wave::MobKind;

verus! {

/// The thread-local random generator of `rand`.
#[verifier::external_type_specification]
#[verifier::external_body]
pub struct ExThreadRng(ThreadRng);

/// `rand::rng`: a handle to the thread-local random generator. Nothing is
/// promised of the numbers it will give.
#[verifier::external_body]
pub(crate) fn thread_rng() -> ThreadRng {
    rand::rng()
}

/// `SliceRandom::shuffle` on `v`: the same kinds, each as often, in an order
/// drawn at random. Which order is left unsaid.
#[verifier::external_body]
pub(crate) fn shuffle_kinds(v: &mut Vec<MobKind>, rng: &mut ThreadRng)
    ensures
        final(v)@.to_multiset() == old(v)@.to_multiset(),
{
    v.shuffle(rng);
}

/// `Rng::random_range(0..n)`: a number below `n` drawn at random. Which one
/// is left unsaid; `n` must not be 0 (the call panics on an empty range).
#[verifier::external_body]
pub(crate) fn random_below(rng: &mut ThreadRng, n: usize) -> (r: usize)
    requires
        n > 0,
    ensures
        r < n,
{
    rng.random_range(0..n)
}

} // verus!
