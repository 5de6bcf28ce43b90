//! The CFL-constrained global time step.
//!
//! Every physical cell is scanned in a fixed order (x outer, y inner);
//! the largest `|u| + a` and `|v| + a` over the grid bound the signal
//! speeds, and the step is `cfl / max(lambda_x/dx, lambda_y/dy)`. The
//! scan is a global reduction: the whole grid is read before a step
//! size exists.

use vstd::prelude::*;
use vstd::arithmetic::div_mod::lemma_fundamental_div_mod_converse;
use crate::bits::{abs_bits, max_bits, ZERO_BITS};
use crate::grid::{Grid2D, GridView};
use crate::ops::{FloatOps, ScalarModel, s_add, s_div};
use crate::prim::{spec_cons_to_prim, cons_to_prim_unchecked};

verus! {

/// The two running maxima `(lambda_x, lambda_y)` after the first `k`
/// physical cells of the scan order: cell `k` is `(i, j)` with
/// `i = k / ny`, `j = k % ny`.
pub open spec fn spec_dt_scan(m: ScalarModel, v: GridView, gamma: u64, k: nat) -> (u64, u64)
    decreases k,
{
    if k == 0 || v.ny == 0 {
        (ZERO_BITS, ZERO_BITS)
    } else {
        let prev = spec_dt_scan(m, v, gamma, (k - 1) as nat);
        let i = (k - 1) as int / v.ny as int;
        let j = (k - 1) as int % v.ny as int;
        let prim = spec_cons_to_prim(m, v.phys_cell(i, j), gamma);
        (
            max_bits(prev.0, s_add(m, abs_bits(prim.u), prim.a)),
            max_bits(prev.1, s_add(m, abs_bits(prim.v), prim.a)),
        )
    }
}

/// The time step the estimator computes:
/// `cfl / max(lambda_x/dx, lambda_y/dy)` over the whole physical block.
pub open spec fn spec_compute_dt(
    m: ScalarModel,
    v: GridView,
    gamma: u64,
    cfl: u64,
    dx: u64,
    dy: u64,
) -> u64 {
    let lams = spec_dt_scan(m, v, gamma, v.nx * v.ny);
    s_div(m, cfl, max_bits(s_div(m, lams.0, dx), s_div(m, lams.1, dy)))
}

/// Scans every physical cell and returns the CFL-constrained step.
/// Degenerate grids (all wave speeds zero) yield a division by zero
/// whose non-finite result the solver turns into a time-step error.
pub fn compute_dt<F: Fn(u8, u64, u64) -> u64>(
    ops: &FloatOps<F>,
    grid: &Grid2D,
    gamma: u64,
    cfl: u64,
    dx: u64,
    dy: u64,
) -> (dt: u64)
    requires
        ops.wf(),
        grid.wf(),
    ensures
        dt == spec_compute_dt(ops.m(), grid@, gamma, cfl, dx, dy),
{
    let mut lambda_x_max: u64 = ZERO_BITS;
    let mut lambda_y_max: u64 = ZERO_BITS;
    let ny = grid.ny;
    let nx = grid.nx;
    let mut i: usize = 0;
    while i < nx
        invariant
            ops.wf(),
            grid.wf(),
            nx == grid@.nx,
            ny == grid@.ny,
            i <= nx,
            (lambda_x_max, lambda_y_max) == spec_dt_scan(ops.m(), grid@, gamma, (i * ny) as nat),
        decreases nx - i,
    {
        let mut j: usize = 0;
        while j < ny
            invariant
                ops.wf(),
                grid.wf(),
                nx == grid@.nx,
                ny == grid@.ny,
                i < nx,
                j <= ny,
                (lambda_x_max, lambda_y_max) == spec_dt_scan(
                    ops.m(),
                    grid@,
                    gamma,
                    (i * ny + j) as nat,
                ),
            decreases ny - j,
        {
            proof {
                crate::grid::lemma_idx_in_bounds(i as int, j as int, nx as int, ny as int);
            }
            let (r, c) = grid.idx_with_ghost(i, j);
            let cons = grid.cell(r, c);
            let prim = cons_to_prim_unchecked(ops, cons, gamma);
            lambda_x_max = crate::bits::max(lambda_x_max, ops.add(crate::bits::abs(prim.u), prim.a));
            lambda_y_max = crate::bits::max(lambda_y_max, ops.add(crate::bits::abs(prim.v), prim.a));
            proof {
                let k = i * ny + j + 1;
                lemma_fundamental_div_mod_converse(k - 1, ny as int, i as int, j as int);
                assert(cons == grid@.phys_cell(i as int, j as int));
                assert((lambda_x_max, lambda_y_max) == spec_dt_scan(
                    ops.m(),
                    grid@,
                    gamma,
                    k as nat,
                ));
            }
            j = j + 1;
        }
        proof {
            assert((i + 1) * ny == i * ny + ny) by (nonlinear_arith);
        }
        i = i + 1;
    }
    proof {
        assert((lambda_x_max, lambda_y_max) == spec_dt_scan(
            ops.m(),
            grid@,
            gamma,
            (grid@.nx * grid@.ny) as nat,
        ));
    }
    ops.div(
        cfl,
        crate::bits::max(ops.div(lambda_x_max, dx), ops.div(lambda_y_max, dy)),
    )
}

} // verus!
