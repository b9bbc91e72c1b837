//! The category generator: draws the category of the next work item at random,
//! each category as often as its weight says.
//!
//! The drawing is done by `rand`. What is proved here is what holds of every
//! draw: that a category comes out whenever the weights sum to the total, and
//! that it is never one whose weight is 0.

use vstd::prelude::*;
use crate::category::{Category, CATEGORY_COUNT};
use crate::random::{new_weighted_index, sample_index, thread_rng};
use crate::weights::{spec_consistent, spec_total, TOTAL_WEIGHT};

verus! {

/// No category could be drawn.
#[derive(Clone, Copy, Debug, PartialEq, Eq, Structural)]
pub struct GenerationError;

impl GenerationError {
    /// What went wrong, in words.
    pub fn message(&self) -> (text: String)
        ensures
            text@ == "invalid match for facial expression"@,
    {
        "invalid match for facial expression".to_string()
    }
}

/// The category that stands at the position that was drawn; an error exactly
/// when no category stands there.
pub fn expression_at(index: usize) -> (result: Result<Category, GenerationError>)
    ensures
        match result {
            Ok(category) => index < CATEGORY_COUNT && category.spec_index() == index,
            Err(_) => index >= CATEGORY_COUNT,
        },
{
    match Category::from_index(index) {
        Some(category) => Ok(category),
        None => Err(GenerationError),
    }
}

/// Draws a category, each with a chance in proportion to its weight.
///
/// A category comes out exactly when the weights sum to the total, and its
/// weight is then above 0. Which of those categories comes out is up to chance.
pub fn generate_expression(weights: &[u16; 2]) -> (result: Result<Category, GenerationError>)
    ensures
        result is Ok <==> spec_consistent(weights@),
        result matches Ok(category) ==> weights@[category.spec_index()] > 0,
{
    proof {
        reveal_with_fuel(spec_total, 3);
    }
    if weights[0] > TOTAL_WEIGHT || weights[1] != TOTAL_WEIGHT - weights[0] {
        return Err(GenerationError);
    }
    match new_weighted_index(weights) {
        Ok(distribution) => {
            let mut rng = thread_rng();
            expression_at(sample_index(&distribution, &mut rng))
        },
        Err(_) => Err(GenerationError),
    }
}

} // verus!
