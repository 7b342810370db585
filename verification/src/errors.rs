//! Failure kinds of the matching pipeline.
use vstd::prelude::*;

verus! {

/// Every way a run can fail: a participant count too small for any
/// derangement to exist, a random draw budget spent without producing a
/// derangement, exclusion rules that no derangement satisfies within the
/// retry budget, or an explicit per-giver theme count larger than the
/// theme list can supply.
#[derive(Clone, Copy, Debug, PartialEq, Eq, Structural)]
pub enum Error {
    /// Fewer than two participants: no derangement exists.
    InvalidSize,
    /// The bounded rejection-sampling budget of the generator ran out.
    RetriesExhausted,
    /// No drawn derangement satisfied the exclusion rules within the bound.
    ConstraintUnsatisfiable,
    /// An explicit themes-per-giver count exceeds what the list allows.
    ThemeShortage,
}

} // verus!
