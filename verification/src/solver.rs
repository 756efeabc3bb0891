//! The schedule of the steady-state power iteration.
//!
//! The iteration multiplies a matrix power by the matrix again and again
//! and compares successive powers. The arithmetic is the caller's; when to
//! multiply once more and when to stop is decided here.

use vstd::prelude::*;

verus! {

/// Most multiplications that one solve may make.
pub const MAX_ITERATIONS: usize = 1000;

/// Multiplications that must have been made before two successive powers
/// exist to be compared.
pub const FIRST_COMPARISON: usize = 2;

/// What the solver does next.
#[derive(Debug, Clone, Copy, PartialEq, Eq, Structural)]
pub enum SolverAction {
    /// Multiply the current power by the matrix once more.
    Multiply,
    /// Stop and return the first row of the current power.
    Finish,
}

/// The solver stops once the cap is reached, or once two successive powers
/// have been compared and found to agree.
pub open spec fn solver_finishes(multiplications: usize, converged: bool) -> bool {
    multiplications >= MAX_ITERATIONS || (multiplications >= FIRST_COMPARISON && converged)
}

/// Decides the next action after `multiplications` multiplications, where
/// `converged` says whether the last two powers agree within the threshold.
/// The flag is ignored until two powers exist.
pub fn next_action(multiplications: usize, converged: bool) -> (action: SolverAction)
    ensures
        action == SolverAction::Finish <==> solver_finishes(multiplications, converged),
        action == SolverAction::Multiply <==> !solver_finishes(multiplications, converged),
{
    if multiplications >= MAX_ITERATIONS {
        SolverAction::Finish
    } else if multiplications >= FIRST_COMPARISON && converged {
        SolverAction::Finish
    } else {
        SolverAction::Multiply
    }
}

/// A solve never makes more than `MAX_ITERATIONS` multiplications, whatever
/// the comparisons say, and always makes at least two.
pub proof fn lemma_solver_is_bounded(multiplications: usize, converged: bool)
    ensures
        multiplications >= MAX_ITERATIONS ==> solver_finishes(multiplications, converged),
        multiplications < FIRST_COMPARISON ==> !solver_finishes(multiplications, converged),
{
}

} // verus!
