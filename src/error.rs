//! Errors reported by the builder and by the graph.
use vstd::prelude::*;

verus! {

/// Errors of the factor graph builder.
#[derive(Debug, Clone, PartialEq, Eq)]
pub enum FGBuilderError {
    /// The factor's degree (first field) differs from the number of
    /// variables it was given (second field).
    DegreeError(usize, Vec<usize>),
    /// A variable index (second field) is not below the number of
    /// variables (first field).
    OutOfRangeVariable(usize, usize),
}

/// Result of the builder's fallible methods.
pub type FGBuilderResult<T> = Result<T, FGBuilderError>;

/// Errors of the factor graph. `D` is the scalar in which message
/// discrepancies are measured.
#[derive(Debug, Clone)]
pub enum FGError<D> {
    /// Message passing did not converge.
    MessagePassingError {
        /// Number of iterations run before giving up.
        iterations_number: usize,
        /// Discrepancy of the last iteration.
        last_discrepancy: D,
        /// Discrepancy of every iteration run.
        discrepancy_dynamics: Vec<D>,
    },
    /// Message passing did not converge while sampling.
    SamplingError {
        /// Number of variables sampled and frozen before the failure.
        variables_number: usize,
        /// Message passing iterations run over the whole sampling.
        total_iterations_number: usize,
        /// Discrepancy of the last iteration.
        last_discrepancy: D,
        /// Discrepancy of every iteration of the failed run.
        discrepancy_dynamics: Vec<D>,
    },
    /// A variable index (second field) is not below the number of
    /// variables (first field).
    OutOfRangeVariable(usize, usize),
}

/// Result of the graph's fallible methods.
pub type FGResult<T, D> = Result<T, FGError<D>>;

} // verus!
