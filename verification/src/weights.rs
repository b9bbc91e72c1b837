//! The weight store: how often each category is drawn, as weights that always
//! sum to `TOTAL_WEIGHT`.
//!
//! A store is changed by `set` alone, which either replaces the whole vector or
//! leaves it as it was, so that a reader who holds the store sees a vector that
//! sums to the total.

use vstd::prelude::*;
use crate::category::CATEGORY_COUNT;

verus! {

/// What the weights of all categories sum to.
pub const TOTAL_WEIGHT: u16 = 100;

/// The sum of a vector of weights.
pub open spec fn spec_total(weights: Seq<u16>) -> int
    decreases weights.len(),
{
    if weights.len() == 0 {
        0
    } else {
        spec_total(weights.drop_last()) + weights.last()
    }
}

/// A vector holds one weight for each category, and they sum to the total.
pub open spec fn spec_consistent(weights: Seq<u16>) -> bool {
    weights.len() == CATEGORY_COUNT && spec_total(weights) == TOTAL_WEIGHT
}

/// Whether `set` takes the call: the category exists and the value is a weight.
pub open spec fn spec_accepts(category_index: int, new_value: int) -> bool {
    0 <= category_index < CATEGORY_COUNT && 0 <= new_value <= TOTAL_WEIGHT
}

/// The vector after `set` was called: where the call is taken, the category has
/// the new weight and the other category what is left of the total; else the
/// vector is as it was.
pub open spec fn spec_set(weights: Seq<u16>, category_index: int, new_value: int) -> Seq<u16> {
    if spec_accepts(category_index, new_value) {
        weights.update(category_index, new_value as u16).update(
            1 - category_index,
            (TOTAL_WEIGHT - new_value) as u16,
        )
    } else {
        weights
    }
}

/// The vector after a series of calls of `set`, each a category's position and
/// a value.
pub open spec fn spec_set_all(weights: Seq<u16>, calls: Seq<(int, int)>) -> Seq<u16>
    decreases calls.len(),
{
    if calls.len() == 0 {
        weights
    } else {
        spec_set(spec_set_all(weights, calls.drop_last()), calls.last().0, calls.last().1)
    }
}

/// Why `set` did not take a call.
#[derive(Clone, Copy, Debug, PartialEq, Eq, Structural)]
pub enum WeightError {
    /// There is no category at that position.
    UnknownCategory,
    /// The value is below 0 or above the total.
    OutOfRange,
}

/// The weights of the categories.
pub struct WeightStore {
    weights: [u16; 2],
}

impl View for WeightStore {
    type V = Seq<u16>;

    closed spec fn view(&self) -> Seq<u16> {
        self.weights@
    }
}

impl WeightStore {
    /// The weights sum to the total.
    pub open spec fn wf(&self) -> bool {
        spec_consistent(self@)
    }

    /// A store in which both categories weigh the same.
    pub fn new() -> (store: WeightStore)
        ensures
            store.wf(),
            store@ == seq![50u16, 50u16],
    {
        let store = WeightStore { weights: [50, 50] };
        proof {
            reveal_with_fuel(spec_total, 3);
        }
        store
    }

    /// The weights as they are now.
    pub fn get(&self) -> (snapshot: [u16; 2])
        ensures
            snapshot@ == self@,
    {
        self.weights
    }

    /// Gives the category at `category_index` the weight `new_value` and the
    /// other category the rest of the total. A position without a category or a
    /// value outside `0..=TOTAL_WEIGHT` is refused, and the store stays as it
    /// was.
    pub fn set(&mut self, category_index: usize, new_value: i64) -> (result: Result<
        (),
        WeightError,
    >)
        requires
            old(self).wf(),
        ensures
            final(self).wf(),
            final(self)@ == spec_set(old(self)@, category_index as int, new_value as int),
            match result {
                Ok(()) => spec_accepts(category_index as int, new_value as int),
                Err(WeightError::UnknownCategory) => {
                    &&& category_index >= CATEGORY_COUNT
                    &&& final(self)@ == old(self)@
                },
                Err(WeightError::OutOfRange) => {
                    &&& category_index < CATEGORY_COUNT
                    &&& !(0 <= new_value <= TOTAL_WEIGHT)
                    &&& final(self)@ == old(self)@
                },
            },
    {
        if category_index >= CATEGORY_COUNT {
            return Err(WeightError::UnknownCategory);
        }
        if new_value < 0 || new_value > TOTAL_WEIGHT as i64 {
            return Err(WeightError::OutOfRange);
        }
        let weight = new_value as u16;
        let rest = TOTAL_WEIGHT - weight;
        if category_index == 0 {
            self.weights = [weight, rest];
        } else {
            self.weights = [rest, weight];
        }
        proof {
            reveal_with_fuel(spec_total, 3);
        }
        Ok(())
    }
}

/// One call of `set`, taken or refused, leaves a consistent vector consistent;
/// a refused call leaves it as it was.
pub proof fn lemma_set_keeps_total(weights: Seq<u16>, category_index: int, new_value: int)
    requires
        spec_consistent(weights),
    ensures
        spec_consistent(spec_set(weights, category_index, new_value)),
        !spec_accepts(category_index, new_value) ==> spec_set(weights, category_index, new_value)
            == weights,
        spec_accepts(category_index, new_value) ==> {
            &&& spec_set(weights, category_index, new_value)[category_index] == new_value
            &&& spec_set(weights, category_index, new_value)[1 - category_index] == TOTAL_WEIGHT
                - new_value
        },
{
    reveal_with_fuel(spec_total, 3);
}

/// The total is kept: whatever calls of `set` are made on a consistent vector,
/// with good values or bad, the weights sum to the total after each of them.
pub proof fn lemma_total_is_kept(weights: Seq<u16>, calls: Seq<(int, int)>)
    requires
        spec_consistent(weights),
    ensures
        forall|k: int|
            0 <= k <= calls.len() ==> spec_consistent(
                #[trigger] spec_set_all(weights, calls.take(k)),
            ),
{
    assert forall|k: int| 0 <= k <= calls.len() implies spec_consistent(
        #[trigger] spec_set_all(weights, calls.take(k)),
    ) by {
        lemma_set_all_keeps_total(weights, calls.take(k));
    }
}

proof fn lemma_set_all_keeps_total(weights: Seq<u16>, calls: Seq<(int, int)>)
    requires
        spec_consistent(weights),
    ensures
        spec_consistent(spec_set_all(weights, calls)),
    decreases calls.len(),
{
    if calls.len() > 0 {
        lemma_set_all_keeps_total(weights, calls.drop_last());
        lemma_set_keeps_total(
            spec_set_all(weights, calls.drop_last()),
            calls.last().0,
            calls.last().1,
        );
    }
}

} // verus!
