//! The partial-failure result shape shared by every pipeline.
//!
//! A pipeline either succeeds or fails with one top-level summary plus an
//! ordered list of constituent sub-errors, in discovery order. The reporter
//! reads the sub-errors through [`Outcome::errors`] instead of re-deriving
//! them.

use vstd::prelude::*;

verus! {

/// Result of one transformation pipeline.
pub enum Outcome {
    /// The pipeline completed; it carries no sub-errors.
    Success,
    /// The pipeline failed: one top-level description, plus zero or more
    /// sub-errors in the order they were discovered.
    Failure { summary: String, details: Vec<String> },
}

impl Outcome {
    pub open spec fn is_success(&self) -> bool {
        self is Success
    }

    /// The top-level description, empty on success.
    pub open spec fn spec_summary(&self) -> Seq<char> {
        match self {
            Outcome::Success => Seq::empty(),
            Outcome::Failure { summary, .. } => summary@,
        }
    }

    /// The ordered sub-error descriptions; empty on success.
    pub open spec fn spec_errors(&self) -> Seq<Seq<char>> {
        match self {
            Outcome::Success => Seq::empty(),
            Outcome::Failure { details, .. } => details@.map_values(|s: String| s@),
        }
    }

    /// Hand out the constituent sub-errors, in discovery order; an empty
    /// list on success.
    pub fn errors(&self) -> (r: Vec<String>)
        ensures
            r@.map_values(|s: String| s@) == self.spec_errors(),
    {
        match self {
            Outcome::Success => {
                let r: Vec<String> = Vec::new();
                assert(r@.map_values(|s: String| s@) =~= self.spec_errors());
                r
            },
            Outcome::Failure { details, .. } => {
                let mut r: Vec<String> = Vec::new();
                let n = details.len();
                for i in 0..n
                    invariant
                        n == details@.len(),
                        r@.len() == i,
                        forall|k: int| 0 <= k < i ==> #[trigger] r@[k]@ == details@[k]@,
                {
                    r.push(details[i].clone());
                }
                assert(r@.map_values(|s: String| s@) =~= self.spec_errors());
                r
            },
        }
    }
}

} // verus!
