use vstd::prelude::*;

verus! {

/// Configuration errors of a simulation run.
#[derive(Debug, Clone, Copy, PartialEq, Eq, Structural)]
pub enum IsingError {
    /// A lattice with zero rows or zero columns was requested.
    InvalidDimensions,
    /// A non-positive temperature was given for the acceptance table.
    InvalidTemperature,
}

} // verus!
