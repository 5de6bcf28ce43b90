//! The state types of the solver: conservative and primitive cell states,
//! floor values, diagnostics counters, and the error taxonomy.
//!
//! Scalar fields are IEEE-754 binary64 bit patterns carried as `u64`.

use vstd::prelude::*;

verus! {

/// A conservative state: density, x- and y-momentum density, and total
/// energy density of one cell.
#[derive(Clone, Copy, Debug, PartialEq, Eq, Structural)]
pub struct Cons {
    /// Density.
    pub rho: u64,
    /// Momentum density along x.
    pub rhou: u64,
    /// Momentum density along y.
    pub rhov: u64,
    /// Total energy density.
    pub e: u64,
}

/// A primitive state: velocity, pressure and sound speed derived from a
/// conservative state and the adiabatic index.
#[derive(Clone, Copy, Debug, PartialEq, Eq, Structural)]
pub struct Prim {
    /// Velocity along x.
    pub u: u64,
    /// Velocity along y.
    pub v: u64,
    /// Pressure.
    pub p: u64,
    /// Sound speed.
    pub a: u64,
}

/// Minimum admissible density and pressure; non-physical values above
/// these are clamped rather than rejected.
#[derive(Clone, Copy, Debug)]
pub struct Floors {
    /// Minimum density.
    pub rho: u64,
    /// Minimum pressure.
    pub p: u64,
}

/// Monotonically increasing event counters, accumulated across steps and
/// read-only to outside observers.
#[derive(Clone, Debug, PartialEq, Eq, Structural)]
pub struct Diagnostics {
    /// Density floor activations.
    pub floors_rho: u64,
    /// Pressure floor activations.
    pub floors_p: u64,
    /// HLL fluxes replaced by the zero-flux fallback on a degenerate
    /// wave-speed bracket.
    pub hll_to_llf_fallbacks: u64,
    /// Downgrades to a first-order update.
    pub downgraded_to_first_order: u64,
    /// Non-finite values encountered.
    pub nonfinite_encounters: u64,
}

/// The all-zero conservative state.
pub open spec fn cons_zero() -> Cons {
    Cons { rho: 0, rhou: 0, rhov: 0, e: 0 }
}

/// The all-zero primitive state.
pub open spec fn prim_zero() -> Prim {
    Prim { u: 0, v: 0, p: 0, a: 0 }
}

/// The all-zero diagnostics record.
pub open spec fn diagnostics_zero() -> Diagnostics {
    Diagnostics {
        floors_rho: 0,
        floors_p: 0,
        hll_to_llf_fallbacks: 0,
        downgraded_to_first_order: 0,
        nonfinite_encounters: 0,
    }
}

impl Default for Cons {
    /// The zero state, which is also the bit pattern of four zero values.
    fn default() -> (r: Cons)
        ensures
            r == cons_zero(),
    {
        Cons { rho: 0, rhou: 0, rhov: 0, e: 0 }
    }
}

impl Default for Prim {
    /// The zero state.
    fn default() -> (r: Prim)
        ensures
            r == prim_zero(),
    {
        Prim { u: 0, v: 0, p: 0, a: 0 }
    }
}

impl Default for Diagnostics {
    /// All counters start at zero.
    fn default() -> (r: Diagnostics)
        ensures
            r == diagnostics_zero(),
    {
        Diagnostics {
            floors_rho: 0,
            floors_p: 0,
            hll_to_llf_fallbacks: 0,
            downgraded_to_first_order: 0,
            nonfinite_encounters: 0,
        }
    }
}

#[verifier::external_type_specification]
#[verifier::external_body]
pub struct ExIoError(std::io::Error);

/// What can go wrong in the solver.
#[derive(Debug)]
pub enum SolverError {
    /// Invalid construction parameters; no run starts.
    Config(String),
    /// A cell violates a physical invariant even after clamping; fatal to
    /// the current step.
    NonPhysical { i: usize, j: usize, why: String },
    /// A non-finite value was met at the named place.
    NonFinite { where_: &'static str },
    /// The wave-speed reduction was degenerate; no stable step exists.
    TimeStep(String),
    /// An error passed through from the storage collaborator.
    Io(std::io::Error),
}

} // verus!
