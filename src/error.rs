use vstd::prelude::*;

verus! {

/// Why a minimization run was abandoned.
#[derive(Clone, Copy, Debug, PartialEq, Eq, Structural)]
pub enum SolveError {
    /// The starting point is empty, or its norm is zero or not finite, so no
    /// initial simplex can be built from it.
    InvalidInput,
    /// The objective returned infinity or NaN, which cannot be ranked.
    EvaluationError,
}

} // verus!
