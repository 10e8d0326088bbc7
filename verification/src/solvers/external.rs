//! What comes back from a solver outside this crate.
use vstd::prelude::*;
use vstd::string::*;
use crate::solvers::linear_solver::SolverError;

verus! {

/// `good_lp::ResolutionError`: why a solver behind the `good_lp` crate gave
/// no solution. Values of it are carried through as they are; nothing is
/// claimed of what one holds.
#[verifier::external_type_specification]
#[verifier::external_body]
pub struct ExResolutionError(good_lp::ResolutionError);

/// Why an outside solver gave no solution.
#[derive(Debug, PartialEq)]
pub enum Resolution {
    Unbounded,
    Infeasible,
    Other(String),
}

/// Tells the cases of `good_lp::ResolutionError` apart: `Unbounded` and
/// `Infeasible` are handed on, and the message of `Other` and of `Str` is
/// kept as the message of `Other`. Nothing is claimed of which case comes
/// out.
#[verifier::external_body]
pub(crate) fn resolution_of(error: good_lp::ResolutionError) -> (r: Resolution) {
    match error {
        good_lp::ResolutionError::Unbounded => Resolution::Unbounded,
        good_lp::ResolutionError::Infeasible => Resolution::Infeasible,
        good_lp::ResolutionError::Other(s) => Resolution::Other(s.to_string()),
        good_lp::ResolutionError::Str(s) => Resolution::Other(s),
    }
}

/// The error of this crate for the case `resolution`.
pub fn error_of_resolution(resolution: Resolution) -> (r: SolverError)
    ensures
        match resolution {
            Resolution::Unbounded => r is Unbounded,
            Resolution::Infeasible => r is Infeasible,
            Resolution::Other(s) => r matches SolverError::Other(t) && t@ == s@,
        },
{
    match resolution {
        Resolution::Unbounded => SolverError::Unbounded,
        Resolution::Infeasible => SolverError::Infeasible,
        Resolution::Other(s) => SolverError::Other(s),
    }
}

/// The error of this crate for an error of an outside solver: unbounded,
/// infeasible, or another error with its message.
pub fn solver_error_of(error: good_lp::ResolutionError) -> (r: SolverError)
    ensures
        r is Unbounded || r is Infeasible || r is Other,
{
    error_of_resolution(resolution_of(error))
}

} // verus!
