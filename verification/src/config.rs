//! The immutable configuration of a solver run.

use vstd::prelude::*;
use crate::types::Floors;

verus! {

/// The boundary policy of a run; exactly one is active per solver
/// instance.
#[derive(Clone, Copy, Debug, PartialEq, Eq, Structural)]
pub enum Boundary {
    /// Periodic in both axes.
    Periodic,
    /// Zero-gradient (outflow) ghosts along x, periodic along y: the
    /// shock-tube setup.
    OutflowX,
}

/// Configuration, immutable for the lifetime of a solver run. Scalar
/// fields are binary64 bit patterns.
#[derive(Clone, Copy, Debug)]
pub struct Config {
    /// Adiabatic index of the ideal-gas law; must exceed one.
    pub gamma: u64,
    /// CFL number scaling the stable time step.
    pub cfl: u64,
    /// Cell width along x.
    pub dx: u64,
    /// Cell width along y.
    pub dy: u64,
    /// Minimum admissible density and pressure.
    pub floors: Floors,
    /// The boundary policy.
    pub bc: Boundary,
}

} // verus!
