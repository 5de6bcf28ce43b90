//! A finite-volume solver core for the 2D compressible Euler equations on a
//! structured Cartesian grid with ghost cells, using an HLL approximate
//! Riemann solver for inter-cell fluxes.
//!
//! Scalar cell values are IEEE-754 binary64 numbers carried as `u64` bit
//! patterns. Comparisons and classification of such values are implemented
//! here, bit-exactly, and verified. The five arithmetic operations
//! (add, sub, mul, div, sqrt) are supplied by the caller as a closure
//! together with a ghost model of it; every numeric routine's contract then
//! states its result exactly as a composition of that model.

pub mod bits;
pub mod config;
pub mod flux;
pub mod grid;
pub mod ops;
pub mod prim;
pub mod solver;
pub mod time;
pub mod types;

pub use config::{Boundary, Config};
pub use ops::FloatOps;
pub use solver::Solver;
pub use types::{Cons, Diagnostics, Floors, Prim, SolverError};
