//! The HLL approximate Riemann flux along the x- and y-normal
//! directions.
//!
//! For a pair of adjacent conservative states the wave-speed bracket
//! `[s_l, s_r]` is estimated from the primitive states; the flux is the
//! donor state's physical flux when the bracket lies on one side of
//! zero, and the HLL blend otherwise. A degenerate bracket (width below
//! `HLL_EPS_BITS`, the bit pattern of 1e-12) yields the exact zero flux
//! instead of a division by a vanishing denominator; the returned flag
//! reports that fallback so the caller can count it.

use vstd::prelude::*;
use crate::bits::{lt_bits, le_bits, min_bits, max_bits, abs_bits, ZERO_BITS};
use crate::ops::{FloatOps, ScalarModel, s_add, s_sub, s_mul, s_div};
use crate::prim::{spec_cons_to_prim, cons_to_prim_unchecked};
use crate::types::{Cons, Prim, cons_zero};

verus! {

/// Bit pattern of 1e-12: the width below which a wave-speed bracket is
/// treated as degenerate.
pub const HLL_EPS_BITS: u64 = 0x3D71_9799_812D_EA11;

/// One component of the HLL blended flux:
/// `(s_r*f_l - s_l*f_r + s_l*s_r*(q_r - q_l)) / denom`.
pub open spec fn spec_hll_blend(
    m: ScalarModel,
    sl: u64,
    sr: u64,
    denom: u64,
    fl: u64,
    fr: u64,
    ql: u64,
    qr: u64,
) -> u64 {
    s_div(
        m,
        s_add(
            m,
            s_sub(m, s_mul(m, sr, fl), s_mul(m, sl, fr)),
            s_mul(m, s_mul(m, sl, sr), s_sub(m, qr, ql)),
        ),
        denom,
    )
}

/// The physical Euler flux along x of one state:
/// `{rho*u, rho*u*u + p, rho*u*v, (e+p)*u}`.
pub open spec fn spec_flux_x(m: ScalarModel, prim: Prim, cons: Cons) -> Cons {
    Cons {
        rho: s_mul(m, cons.rho, prim.u),
        rhou: s_add(m, s_mul(m, s_mul(m, cons.rho, prim.u), prim.u), prim.p),
        rhov: s_mul(m, s_mul(m, cons.rho, prim.u), prim.v),
        e: s_mul(m, s_add(m, cons.e, prim.p), prim.u),
    }
}

/// The physical Euler flux along y of one state:
/// `{rho*v, rho*u*v, rho*v*v + p, (e+p)*v}`.
pub open spec fn spec_flux_y(m: ScalarModel, prim: Prim, cons: Cons) -> Cons {
    Cons {
        rho: s_mul(m, cons.rho, prim.v),
        rhou: s_mul(m, s_mul(m, cons.rho, prim.u), prim.v),
        rhov: s_add(m, s_mul(m, s_mul(m, cons.rho, prim.v), prim.v), prim.p),
        e: s_mul(m, s_add(m, cons.e, prim.p), prim.v),
    }
}

/// The HLL flux along x between left and right conservative states, and
/// whether the degenerate-bracket fallback was taken.
pub open spec fn spec_flux_x_hll(m: ScalarModel, ul: Cons, ur: Cons, gamma: u64) -> (Cons, bool) {
    let pl = spec_cons_to_prim(m, ul, gamma);
    let pr = spec_cons_to_prim(m, ur, gamma);
    let sl = min_bits(s_sub(m, pl.u, pl.a), s_sub(m, pr.u, pr.a));
    let sr = max_bits(s_add(m, pl.u, pl.a), s_add(m, pr.u, pr.a));
    if le_bits(ZERO_BITS, sl) {
        (spec_flux_x(m, pl, ul), false)
    } else if le_bits(sr, ZERO_BITS) {
        (spec_flux_x(m, pr, ur), false)
    } else {
        let denom = s_sub(m, sr, sl);
        if lt_bits(abs_bits(denom), HLL_EPS_BITS) {
            (cons_zero(), true)
        } else {
            let fl = spec_flux_x(m, pl, ul);
            let fr = spec_flux_x(m, pr, ur);
            (
                Cons {
                    rho: spec_hll_blend(m, sl, sr, denom, fl.rho, fr.rho, ul.rho, ur.rho),
                    rhou: spec_hll_blend(m, sl, sr, denom, fl.rhou, fr.rhou, ul.rhou, ur.rhou),
                    rhov: spec_hll_blend(m, sl, sr, denom, fl.rhov, fr.rhov, ul.rhov, ur.rhov),
                    e: spec_hll_blend(m, sl, sr, denom, fl.e, fr.e, ul.e, ur.e),
                },
                false,
            )
        }
    }
}

/// The HLL flux along y between left and right conservative states, and
/// whether the degenerate-bracket fallback was taken.
pub open spec fn spec_flux_y_hll(m: ScalarModel, ul: Cons, ur: Cons, gamma: u64) -> (Cons, bool) {
    let pl = spec_cons_to_prim(m, ul, gamma);
    let pr = spec_cons_to_prim(m, ur, gamma);
    let sl = min_bits(s_sub(m, pl.v, pl.a), s_sub(m, pr.v, pr.a));
    let sr = max_bits(s_add(m, pl.v, pl.a), s_add(m, pr.v, pr.a));
    if le_bits(ZERO_BITS, sl) {
        (spec_flux_y(m, pl, ul), false)
    } else if le_bits(sr, ZERO_BITS) {
        (spec_flux_y(m, pr, ur), false)
    } else {
        let denom = s_sub(m, sr, sl);
        if lt_bits(abs_bits(denom), HLL_EPS_BITS) {
            (cons_zero(), true)
        } else {
            let fl = spec_flux_y(m, pl, ul);
            let fr = spec_flux_y(m, pr, ur);
            (
                Cons {
                    rho: spec_hll_blend(m, sl, sr, denom, fl.rho, fr.rho, ul.rho, ur.rho),
                    rhou: spec_hll_blend(m, sl, sr, denom, fl.rhou, fr.rhou, ul.rhou, ur.rhou),
                    rhov: spec_hll_blend(m, sl, sr, denom, fl.rhov, fr.rhov, ul.rhov, ur.rhov),
                    e: spec_hll_blend(m, sl, sr, denom, fl.e, fr.e, ul.e, ur.e),
                },
                false,
            )
        }
    }
}

/// The physical flux along x.
fn flux_x<F: Fn(u8, u64, u64) -> u64>(ops: &FloatOps<F>, prim: Prim, cons: Cons) -> (r: Cons)
    requires
        ops.wf(),
    ensures
        r == spec_flux_x(ops.m(), prim, cons),
{
    let ru = ops.mul(cons.rho, prim.u);
    Cons {
        rho: ru,
        rhou: ops.add(ops.mul(ru, prim.u), prim.p),
        rhov: ops.mul(ru, prim.v),
        e: ops.mul(ops.add(cons.e, prim.p), prim.u),
    }
}

/// The physical flux along y.
fn flux_y<F: Fn(u8, u64, u64) -> u64>(ops: &FloatOps<F>, prim: Prim, cons: Cons) -> (r: Cons)
    requires
        ops.wf(),
    ensures
        r == spec_flux_y(ops.m(), prim, cons),
{
    let rv = ops.mul(cons.rho, prim.v);
    Cons {
        rho: rv,
        rhou: ops.mul(ops.mul(cons.rho, prim.u), prim.v),
        rhov: ops.add(ops.mul(rv, prim.v), prim.p),
        e: ops.mul(ops.add(cons.e, prim.p), prim.v),
    }
}

/// One component of the HLL blend.
fn hll_blend<F: Fn(u8, u64, u64) -> u64>(
    ops: &FloatOps<F>,
    sl: u64,
    sr: u64,
    denom: u64,
    fl: u64,
    fr: u64,
    ql: u64,
    qr: u64,
) -> (r: u64)
    requires
        ops.wf(),
    ensures
        r == spec_hll_blend(ops.m(), sl, sr, denom, fl, fr, ql, qr),
{
    ops.div(
        ops.add(
            ops.sub(ops.mul(sr, fl), ops.mul(sl, fr)),
            ops.mul(ops.mul(sl, sr), ops.sub(qr, ql)),
        ),
        denom,
    )
}

/// The HLL flux along x between the conservative states `ul` and `ur`,
/// already validated upstream. The flag reports the degenerate-bracket
/// zero-flux fallback.
pub fn flux_x_hll<F: Fn(u8, u64, u64) -> u64>(
    ops: &FloatOps<F>,
    ul: Cons,
    ur: Cons,
    gamma: u64,
) -> (r: (Cons, bool))
    requires
        ops.wf(),
    ensures
        r == spec_flux_x_hll(ops.m(), ul, ur, gamma),
{
    let pl = cons_to_prim_unchecked(ops, ul, gamma);
    let pr = cons_to_prim_unchecked(ops, ur, gamma);
    let sl = crate::bits::min(ops.sub(pl.u, pl.a), ops.sub(pr.u, pr.a));
    let sr = crate::bits::max(ops.add(pl.u, pl.a), ops.add(pr.u, pr.a));
    if crate::bits::le(ZERO_BITS, sl) {
        return (flux_x(ops, pl, ul), false);
    }
    if crate::bits::le(sr, ZERO_BITS) {
        return (flux_x(ops, pr, ur), false);
    }
    let denom = ops.sub(sr, sl);
    if crate::bits::lt(crate::bits::abs(denom), HLL_EPS_BITS) {
        return (Cons::default(), true);
    }
    let fl = flux_x(ops, pl, ul);
    let fr = flux_x(ops, pr, ur);
    (
        Cons {
            rho: hll_blend(ops, sl, sr, denom, fl.rho, fr.rho, ul.rho, ur.rho),
            rhou: hll_blend(ops, sl, sr, denom, fl.rhou, fr.rhou, ul.rhou, ur.rhou),
            rhov: hll_blend(ops, sl, sr, denom, fl.rhov, fr.rhov, ul.rhov, ur.rhov),
            e: hll_blend(ops, sl, sr, denom, fl.e, fr.e, ul.e, ur.e),
        },
        false,
    )
}

/// The HLL flux along y between the conservative states `ul` and `ur`,
/// already validated upstream. The flag reports the degenerate-bracket
/// zero-flux fallback.
pub fn flux_y_hll<F: Fn(u8, u64, u64) -> u64>(
    ops: &FloatOps<F>,
    ul: Cons,
    ur: Cons,
    gamma: u64,
) -> (r: (Cons, bool))
    requires
        ops.wf(),
    ensures
        r == spec_flux_y_hll(ops.m(), ul, ur, gamma),
{
    let pl = cons_to_prim_unchecked(ops, ul, gamma);
    let pr = cons_to_prim_unchecked(ops, ur, gamma);
    let sl = crate::bits::min(ops.sub(pl.v, pl.a), ops.sub(pr.v, pr.a));
    let sr = crate::bits::max(ops.add(pl.v, pl.a), ops.add(pr.v, pr.a));
    if crate::bits::le(ZERO_BITS, sl) {
        return (flux_y(ops, pl, ul), false);
    }
    if crate::bits::le(sr, ZERO_BITS) {
        return (flux_y(ops, pr, ur), false);
    }
    let denom = ops.sub(sr, sl);
    if crate::bits::lt(crate::bits::abs(denom), HLL_EPS_BITS) {
        return (Cons::default(), true);
    }
    let fl = flux_y(ops, pl, ul);
    let fr = flux_y(ops, pr, ur);
    (
        Cons {
            rho: hll_blend(ops, sl, sr, denom, fl.rho, fr.rho, ul.rho, ur.rho),
            rhou: hll_blend(ops, sl, sr, denom, fl.rhou, fr.rhou, ul.rhou, ur.rhou),
            rhov: hll_blend(ops, sl, sr, denom, fl.rhov, fr.rhov, ul.rhov, ur.rhov),
            e: hll_blend(ops, sl, sr, denom, fl.e, fr.e, ul.e, ur.e),
        },
        false,
    )
}

/// Consistency on one state: when both states of an interface are the
/// same and its wave-speed bracket lies on one side of zero, the HLL
/// flux along x is exactly that state's physical flux, with no blend
/// arithmetic and no fallback.
pub proof fn lemma_uniform_onesided_flux_x_is_physical(m: ScalarModel, u0: Cons, gamma: u64)
    requires
        ({
            let p0 = spec_cons_to_prim(m, u0, gamma);
            let sl = min_bits(s_sub(m, p0.u, p0.a), s_sub(m, p0.u, p0.a));
            let sr = max_bits(s_add(m, p0.u, p0.a), s_add(m, p0.u, p0.a));
            le_bits(ZERO_BITS, sl) || le_bits(sr, ZERO_BITS)
        }),
    ensures
        spec_flux_x_hll(m, u0, u0, gamma) == (
            spec_flux_x(m, spec_cons_to_prim(m, u0, gamma), u0),
            false,
        ),
{
}

/// The same consistency guarantee along y.
pub proof fn lemma_uniform_onesided_flux_y_is_physical(m: ScalarModel, u0: Cons, gamma: u64)
    requires
        ({
            let p0 = spec_cons_to_prim(m, u0, gamma);
            let sl = min_bits(s_sub(m, p0.v, p0.a), s_sub(m, p0.v, p0.a));
            let sr = max_bits(s_add(m, p0.v, p0.a), s_add(m, p0.v, p0.a));
            le_bits(ZERO_BITS, sl) || le_bits(sr, ZERO_BITS)
        }),
    ensures
        spec_flux_y_hll(m, u0, u0, gamma) == (
            spec_flux_y(m, spec_cons_to_prim(m, u0, gamma), u0),
            false,
        ),
{
}

/// A degenerate wave-speed bracket never divides: whenever the bracket
/// straddles zero and its width is below the threshold, the HLL flux
/// along x is exactly the zero state, and the fallback is reported.
pub proof fn lemma_degenerate_flux_x_is_zero(m: ScalarModel, ul: Cons, ur: Cons, gamma: u64)
    requires
        ({
            let pl = spec_cons_to_prim(m, ul, gamma);
            let pr = spec_cons_to_prim(m, ur, gamma);
            let sl = min_bits(s_sub(m, pl.u, pl.a), s_sub(m, pr.u, pr.a));
            let sr = max_bits(s_add(m, pl.u, pl.a), s_add(m, pr.u, pr.a));
            !le_bits(ZERO_BITS, sl) && !le_bits(sr, ZERO_BITS) && lt_bits(
                abs_bits(s_sub(m, sr, sl)),
                HLL_EPS_BITS,
            )
        }),
    ensures
        spec_flux_x_hll(m, ul, ur, gamma) == (cons_zero(), true),
{
}

/// The same degenerate-bracket guarantee along y.
pub proof fn lemma_degenerate_flux_y_is_zero(m: ScalarModel, ul: Cons, ur: Cons, gamma: u64)
    requires
        ({
            let pl = spec_cons_to_prim(m, ul, gamma);
            let pr = spec_cons_to_prim(m, ur, gamma);
            let sl = min_bits(s_sub(m, pl.v, pl.a), s_sub(m, pr.v, pr.a));
            let sr = max_bits(s_add(m, pl.v, pl.a), s_add(m, pr.v, pr.a));
            !le_bits(ZERO_BITS, sl) && !le_bits(sr, ZERO_BITS) && lt_bits(
                abs_bits(s_sub(m, sr, sl)),
                HLL_EPS_BITS,
            )
        }),
    ensures
        spec_flux_y_hll(m, ul, ur, gamma) == (cons_zero(), true),
{
}

} // verus!
