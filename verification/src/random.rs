//! What the library has from `rand`. Nothing in this file is proved: each
//! contract says, of every outcome, what `rand` is built to keep.

use rand::distributions::{Distribution, WeightedError, WeightedIndex};
use rand::rngs::ThreadRng;
use rand::seq::IteratorRandom;
use vstd::prelude::*;

verus! {

/// `WeightedError` of `rand`: why no distribution could be made.
#[verifier::external_type_specification]
#[verifier::external_body]
pub struct ExWeightedError(WeightedError);

/// `ThreadRng` of `rand`: a handle on the random number generator of a thread.
#[verifier::external_type_specification]
#[verifier::external_body]
pub struct ExThreadRng(ThreadRng);

/// A distribution over the positions of a list of weights: a `WeightedIndex`
/// of `rand`.
#[verifier::external_body]
pub struct WeightedPositions {
    inner: WeightedIndex<u16>,
}

/// The weights that a distribution was made of, in their order.
pub uninterp spec fn spec_weights_of(distribution: WeightedPositions) -> Seq<u16>;

/// `thread_rng` of `rand`: the random number generator of the running thread.
#[verifier::external_body]
pub(crate) fn thread_rng() -> ThreadRng {
    rand::thread_rng()
}

/// `WeightedIndex::new` of `rand`, on two weights. It adds the weights up in
/// their own type, so they have to fit. It gives a distribution over the
/// positions of the weights unless all of them are 0.
#[verifier::external_body]
pub(crate) fn new_weighted_index(weights: &[u16; 2]) -> (made: Result<
    WeightedPositions,
    WeightedError,
>)
    requires
        weights@[0] + weights@[1] <= u16::MAX,
    ensures
        made is Ok <==> weights@[0] + weights@[1] > 0,
        made matches Ok(distribution) ==> spec_weights_of(distribution) == weights@,
{
    match WeightedIndex::new(weights) {
        Ok(inner) => Ok(WeightedPositions { inner }),
        Err(error) => Err(error),
    }
}

/// `sample` of `rand`'s `WeightedIndex`: one draw. Whatever the generator
/// gives, the result is the position of one of the weights, and of one that is
/// not 0.
#[verifier::external_body]
pub(crate) fn sample_index(distribution: &WeightedPositions, rng: &mut ThreadRng) -> (index: usize)
    ensures
        index < spec_weights_of(*distribution).len(),
        spec_weights_of(*distribution)[index as int] > 0,
{
    distribution.inner.sample(rng)
}

/// `choose` of `rand`'s `IteratorRandom`, on the items of a list: one of them,
/// picked at random, and `None` if and only if there is none.
#[verifier::external_body]
pub(crate) fn choose_item<'a>(items: &'a Vec<Vec<u8>>, rng: &mut ThreadRng) -> (chosen: Option<
    &'a Vec<u8>,
>)
    ensures
        chosen is None <==> items@.len() == 0,
        chosen matches Some(item) ==> exists|i: int|
            0 <= i < items@.len() && items@[i]@ == item@,
{
    items.iter().choose(rng)
}

} // verus!
