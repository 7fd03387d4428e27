//! Single-spin-flip Metropolis simulation of the two-dimensional Ising model
//! on a periodic square lattice.
//!
//! Random draws are handled as 53-bit integers: a draw `u` stands for the
//! uniform sample `u / 2^53` in `[0, 1)`, and an acceptance probability `p`
//! is held as the threshold `ceil(p * 2^53)`, so that `u < threshold` holds
//! exactly when `u / 2^53 < p`.

pub mod error;
pub mod lattice;
pub mod random;
pub mod table;
pub mod sweep;
