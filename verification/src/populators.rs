//! The search field's populators: they hand the query engine the type and
//! the id of each search result.
use vstd::prelude::*;

verus! {

/// One search result: the name of its type (`Show`, `Song` or `Venue`)
/// and its id.
pub struct SearchResultEntry {
    pub type_: String,
    pub id: u128,
}

/// Tells the engine the type of each search result.
pub struct SearchResultsTypePopulator {}

impl SearchResultsTypePopulator {
    pub fn new() -> (r: Self)
        ensures
            r == (SearchResultsTypePopulator {}),
    {
        Self {}
    }

    /// The type name of each search result, in order.
    pub fn populate(&self, search_results: &[SearchResultEntry]) -> (r: Vec<String>)
        ensures
            r@.len() == search_results@.len(),
            forall|i: int| 0 <= i < r@.len() ==> #[trigger] r@[i]@ == search_results@[i].type_@,
    {
        let mut out: Vec<String> = Vec::new();
        let mut i: usize = 0;
        while i < search_results.len()
            invariant
                0 <= i <= search_results@.len(),
                out@.len() == i,
                forall|j: int| 0 <= j < i ==> #[trigger] out@[j]@ == search_results@[j].type_@,
            decreases search_results@.len() - i,
        {
            out.push(search_results[i].type_.clone());
            i += 1;
        }
        out
    }
}

/// Tells the engine, for each search result, the external dependencies
/// from which its fields are read: its id, under the name `id`.
pub struct SearchResultsPopulator {}

impl SearchResultsPopulator {
    pub fn new() -> (r: Self)
        ensures
            r == (SearchResultsPopulator {}),
    {
        Self {}
    }

    /// For each search result, in order, the dependency `id` with its id.
    pub fn populate(&self, search_results: &[SearchResultEntry]) -> (r: Vec<(&'static str, u128)>)
        ensures
            r@.len() == search_results@.len(),
            forall|i: int|
                0 <= i < r@.len() ==> #[trigger] r@[i].0@ == "id"@ && r@[i].1 == search_results@[i].id,
    {
        let mut out: Vec<(&'static str, u128)> = Vec::new();
        let mut i: usize = 0;
        while i < search_results.len()
            invariant
                0 <= i <= search_results@.len(),
                out@.len() == i,
                forall|j: int|
                    0 <= j < i ==> #[trigger] out@[j].0@ == "id"@ && out@[j].1 == search_results@[j].id,
            decreases search_results@.len() - i,
        {
            out.push(("id", search_results[i].id));
            i += 1;
        }
        out
    }
}

} // verus!
