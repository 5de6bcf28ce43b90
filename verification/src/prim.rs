//! Conversions between conservative and primitive states.
//!
//! The unchecked variants are the raw arithmetic, used where both inputs
//! were validated on the previous step; non-finite results propagate to
//! the caller. The checked variants reject a negative density or
//! pressure, clamp a sub-floor pressure or density silently (reporting
//! the clamp to the caller so it can be counted), and reject non-finite
//! results. Each contract pins the result exactly as a composition of
//! the scalar model.

use vstd::prelude::*;
use crate::bits::{lt_bits, is_infinite_bits, ZERO_BITS, ONE_BITS, TWO_BITS};
use crate::ops::{FloatOps, ScalarModel, s_add, s_sub, s_mul, s_div, s_sqrt};
use crate::types::{Cons, Prim, Floors, SolverError};

verus! {

/// The primitive state the unchecked conversion computes:
/// `u = rhou/rho`, `v = rhov/rho`,
/// `p = (gamma-1)*(e - rho*(u*u + v*v)/2)`, `a = sqrt(gamma*p/rho)`.
pub open spec fn spec_cons_to_prim(m: ScalarModel, cons: Cons, gamma: u64) -> Prim {
    let u = s_div(m, cons.rhou, cons.rho);
    let v = s_div(m, cons.rhov, cons.rho);
    let ke = s_div(m, s_mul(m, cons.rho, s_add(m, s_mul(m, u, u), s_mul(m, v, v))), TWO_BITS);
    let p = s_mul(m, s_sub(m, gamma, ONE_BITS), s_sub(m, cons.e, ke));
    let a = s_sqrt(m, s_div(m, s_mul(m, gamma, p), cons.rho));
    Prim { u, v, p, a }
}

/// The conservative state the unchecked conversion computes:
/// `rho = gamma*p/(a*a)`, `rhou = rho*u`, `rhov = rho*v`,
/// `e = p/(gamma-1) + rho*(u*u + v*v)/2`.
pub open spec fn spec_prim_to_cons(m: ScalarModel, prim: Prim, gamma: u64) -> Cons {
    let rho = s_div(m, s_mul(m, gamma, prim.p), s_mul(m, prim.a, prim.a));
    let rhou = s_mul(m, rho, prim.u);
    let rhov = s_mul(m, rho, prim.v);
    let ke = s_div(
        m,
        s_mul(m, rho, s_add(m, s_mul(m, prim.u, prim.u), s_mul(m, prim.v, prim.v))),
        TWO_BITS,
    );
    let e = s_add(m, s_div(m, prim.p, s_sub(m, gamma, ONE_BITS)), ke);
    Cons { rho, rhou, rhov, e }
}

/// The checked conversion to primitive rejects the cell outright when
/// its density is negative.
pub open spec fn c2p_rejects_rho(cons: Cons) -> bool {
    lt_bits(cons.rho, ZERO_BITS)
}

/// The primitive state after the pressure floor, and whether the floor
/// was applied.
pub open spec fn spec_c2p_clamped(m: ScalarModel, cons: Cons, gamma: u64, floors: Floors) -> (
    Prim,
    bool,
) {
    let p0 = spec_cons_to_prim(m, cons, gamma);
    if lt_bits(p0.p, floors.p) {
        (Prim { u: p0.u, v: p0.v, p: floors.p, a: p0.a }, true)
    } else {
        (p0, false)
    }
}

/// The checked conversion to primitive rejects the cell when any
/// component is infinite after the pressure floor.
pub open spec fn c2p_rejects_nonfinite(m: ScalarModel, cons: Cons, gamma: u64, floors: Floors) -> bool {
    let pr = spec_c2p_clamped(m, cons, gamma, floors).0;
    is_infinite_bits(pr.u) || is_infinite_bits(pr.v) || is_infinite_bits(pr.p) || is_infinite_bits(
        pr.a,
    )
}

/// The checked conversion to conservative rejects the cell outright when
/// its pressure is negative.
pub open spec fn p2c_rejects_p(prim: Prim) -> bool {
    lt_bits(prim.p, ZERO_BITS)
}

/// The conservative state after the density floor, and whether the floor
/// was applied. The floor replaces the density alone; momentum and
/// energy keep the values computed from the unclamped density.
pub open spec fn spec_p2c_clamped(m: ScalarModel, prim: Prim, gamma: u64, floors: Floors) -> (
    Cons,
    bool,
) {
    let c0 = spec_prim_to_cons(m, prim, gamma);
    if lt_bits(c0.rho, floors.rho) {
        (Cons { rho: floors.rho, rhou: c0.rhou, rhov: c0.rhov, e: c0.e }, true)
    } else {
        (c0, false)
    }
}

/// The checked conversion to conservative rejects the cell when any
/// component is infinite after the density floor.
pub open spec fn p2c_rejects_nonfinite(m: ScalarModel, prim: Prim, gamma: u64, floors: Floors) -> bool {
    let c = spec_p2c_clamped(m, prim, gamma, floors).0;
    is_infinite_bits(c.rho) || is_infinite_bits(c.rhou) || is_infinite_bits(c.rhov)
        || is_infinite_bits(c.e)
}

/// Conservative to primitive without validation: pure arithmetic, for
/// inputs already known valid. Non-finite results propagate.
pub fn cons_to_prim_unchecked<F: Fn(u8, u64, u64) -> u64>(
    ops: &FloatOps<F>,
    cons: Cons,
    gamma: u64,
) -> (prim: Prim)
    requires
        ops.wf(),
    ensures
        prim == spec_cons_to_prim(ops.m(), cons, gamma),
{
    let u = ops.div(cons.rhou, cons.rho);
    let v = ops.div(cons.rhov, cons.rho);
    let uu = ops.mul(u, u);
    let vv = ops.mul(v, v);
    let ke = ops.div(ops.mul(cons.rho, ops.add(uu, vv)), TWO_BITS);
    let p = ops.mul(ops.sub(gamma, ONE_BITS), ops.sub(cons.e, ke));
    let a = ops.sqrt(ops.div(ops.mul(gamma, p), cons.rho));
    Prim { u, v, p, a }
}

/// Primitive to conservative without validation: pure arithmetic, for
/// inputs already known valid. Non-finite results propagate.
pub fn prim_to_cons_unchecked<F: Fn(u8, u64, u64) -> u64>(
    ops: &FloatOps<F>,
    prim: Prim,
    gamma: u64,
) -> (cons: Cons)
    requires
        ops.wf(),
    ensures
        cons == spec_prim_to_cons(ops.m(), prim, gamma),
{
    let rho = ops.div(ops.mul(gamma, prim.p), ops.mul(prim.a, prim.a));
    let rhou = ops.mul(rho, prim.u);
    let rhov = ops.mul(rho, prim.v);
    let uu = ops.mul(prim.u, prim.u);
    let vv = ops.mul(prim.v, prim.v);
    let ke = ops.div(ops.mul(rho, ops.add(uu, vv)), TWO_BITS);
    let e = ops.add(ops.div(prim.p, ops.sub(gamma, ONE_BITS)), ke);
    Cons { rho, rhou, rhov, e }
}

/// Conservative to primitive with validation for the cell at physical
/// coordinates `(i, j)`: rejects a negative density, clamps a sub-floor
/// pressure (reported in the returned flag, not an error), and rejects
/// any infinite component after the clamp.
pub fn cons_to_prim_checked<F: Fn(u8, u64, u64) -> u64>(
    ops: &FloatOps<F>,
    cons: Cons,
    gamma: u64,
    floors: Floors,
    i: usize,
    j: usize,
) -> (res: Result<(Prim, bool), SolverError>)
    requires
        ops.wf(),
    ensures
        c2p_rejects_rho(cons) ==> (res matches Err(SolverError::NonPhysical { i: ei, j: ej, why })
            && ei == i && ej == j && why@ == "rho <= 0"@),
        !c2p_rejects_rho(cons) && c2p_rejects_nonfinite(ops.m(), cons, gamma, floors) ==> (
        res matches Err(SolverError::NonPhysical { i: ei, j: ej, why }) && ei == i && ej == j
            && why@ == "NaN/Inf"@),
        !c2p_rejects_rho(cons) && !c2p_rejects_nonfinite(ops.m(), cons, gamma, floors) ==> (
        res matches Ok(pr) && pr == spec_c2p_clamped(ops.m(), cons, gamma, floors)),
{
    if crate::bits::lt(cons.rho, ZERO_BITS) {
        return Err(
            SolverError::NonPhysical { i, j, why: String::from_str("rho <= 0") },
        );
    }
    let p0 = cons_to_prim_unchecked(ops, cons, gamma);
    let (prim, clamped) = if crate::bits::lt(p0.p, floors.p) {
        (Prim { u: p0.u, v: p0.v, p: floors.p, a: p0.a }, true)
    } else {
        (p0, false)
    };
    if crate::bits::is_infinite(prim.u) || crate::bits::is_infinite(prim.v)
        || crate::bits::is_infinite(prim.p) || crate::bits::is_infinite(prim.a) {
        return Err(SolverError::NonPhysical { i, j, why: String::from_str("NaN/Inf") });
    }
    Ok((prim, clamped))
}

/// Primitive to conservative with validation for the cell at physical
/// coordinates `(i, j)`: rejects a negative pressure, clamps a sub-floor
/// density (reported in the returned flag, not an error), and rejects
/// any infinite component after the clamp.
pub fn prim_to_cons_checked<F: Fn(u8, u64, u64) -> u64>(
    ops: &FloatOps<F>,
    prim: Prim,
    gamma: u64,
    floors: Floors,
    i: usize,
    j: usize,
) -> (res: Result<(Cons, bool), SolverError>)
    requires
        ops.wf(),
    ensures
        p2c_rejects_p(prim) ==> (res matches Err(SolverError::NonPhysical { i: ei, j: ej, why })
            && ei == i && ej == j && why@ == "p <= 0"@),
        !p2c_rejects_p(prim) && p2c_rejects_nonfinite(ops.m(), prim, gamma, floors) ==> (
        res matches Err(SolverError::NonPhysical { i: ei, j: ej, why }) && ei == i && ej == j
            && why@ == "NaN/Inf"@),
        !p2c_rejects_p(prim) && !p2c_rejects_nonfinite(ops.m(), prim, gamma, floors) ==> (
        res matches Ok(cr) && cr == spec_p2c_clamped(ops.m(), prim, gamma, floors)),
{
    if crate::bits::lt(prim.p, ZERO_BITS) {
        return Err(SolverError::NonPhysical { i, j, why: String::from_str("p <= 0") });
    }
    let c0 = prim_to_cons_unchecked(ops, prim, gamma);
    let (cons, clamped) = if crate::bits::lt(c0.rho, floors.rho) {
        (Cons { rho: floors.rho, rhou: c0.rhou, rhov: c0.rhov, e: c0.e }, true)
    } else {
        (c0, false)
    };
    if crate::bits::is_infinite(cons.rho) || crate::bits::is_infinite(cons.rhou)
        || crate::bits::is_infinite(cons.rhov) || crate::bits::is_infinite(cons.e) {
        return Err(SolverError::NonPhysical { i, j, why: String::from_str("NaN/Inf") });
    }
    Ok((cons, clamped))
}

} // verus!
