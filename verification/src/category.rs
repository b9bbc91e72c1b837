//! The closed set of categories that work items are labelled with.

use vstd::prelude::*;

verus! {

/// How many categories there are.
pub const CATEGORY_COUNT: usize = 2;

/// The label of a work item; it decides where the item is routed.
#[derive(Clone, Copy, Debug, PartialEq, Eq, Structural, Hash)]
pub enum Category {
    Anger,
    Happiness,
}

impl Category {
    /// The position of the category in every per-category table.
    pub open spec fn spec_index(self) -> int {
        match self {
            Category::Anger => 0,
            Category::Happiness => 1,
        }
    }

    /// The category at a position, if there is one.
    pub open spec fn spec_from_index(index: int) -> Option<Category> {
        if index == 0 {
            Some(Category::Anger)
        } else if index == 1 {
            Some(Category::Happiness)
        } else {
            None
        }
    }

    /// The name of the category.
    pub open spec fn spec_name(self) -> Seq<char> {
        match self {
            Category::Anger => "Anger"@,
            Category::Happiness => "Happiness"@,
        }
    }

    /// The name of the category.
    pub fn name(self) -> (text: &'static str)
        ensures
            text@ == self.spec_name(),
    {
        match self {
            Category::Anger => "Anger",
            Category::Happiness => "Happiness",
        }
    }

    /// The position of the category in every per-category table.
    pub fn index(self) -> (i: usize)
        ensures
            i == self.spec_index(),
            i < CATEGORY_COUNT,
    {
        match self {
            Category::Anger => 0,
            Category::Happiness => 1,
        }
    }

    /// The category at a position; `None` exactly when the position is not below
    /// `CATEGORY_COUNT`.
    pub fn from_index(index: usize) -> (c: Option<Category>)
        ensures
            c == Category::spec_from_index(index as int),
            c is Some <==> index < CATEGORY_COUNT,
    {
        if index == 0 {
            Some(Category::Anger)
        } else if index == 1 {
            Some(Category::Happiness)
        } else {
            None
        }
    }
}

/// Categories and the positions below `CATEGORY_COUNT` correspond one to one.
pub proof fn lemma_index_round_trip(category: Category, index: int)
    ensures
        0 <= category.spec_index() < CATEGORY_COUNT,
        Category::spec_from_index(category.spec_index()) == Some(category),
        Category::spec_from_index(index) is Some <==> 0 <= index < CATEGORY_COUNT,
        Category::spec_from_index(index) == Some(category) ==> category.spec_index() == index,
{
}

} // verus!
