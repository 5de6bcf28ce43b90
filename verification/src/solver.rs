//! The solver: owns one grid and one configuration, and drives one time
//! step — boundary refresh, HLL flux evaluation on both axes, the
//! explicit conservative update, floor enforcement with diagnostics, and
//! the step counter.

use vstd::prelude::*;
use crate::bits::{
    lt_bits, le_bits, is_finite_bits, ZERO_BITS, ONE_BITS, HALF_BITS,
};
use crate::config::{Boundary, Config};
use crate::grid::{bc_cell, Grid2D, GridView};
use crate::ops::{FloatOps, ScalarModel, s_add, s_sub, s_mul, s_div};
use crate::prim::{
    c2p_rejects_nonfinite, c2p_rejects_rho, spec_c2p_clamped, cons_to_prim_checked,
};
use crate::types::{cons_zero, diagnostics_zero, Cons, Diagnostics, Floors, SolverError};

verus! {

/// Bit pattern of 0.125: the density right of the diaphragm in the
/// reference shock tube.
pub const SOD_RIGHT_RHO_BITS: u64 = 0x3FC0_0000_0000_0000;

/// Bit pattern of 0.1: the pressure right of the diaphragm in the
/// reference shock tube.
pub const SOD_RIGHT_P_BITS: u64 = 0x3FB9_9999_9999_999A;

/// The conservative state of one uniform half-plane of the reference
/// shock tube: density `rho`, velocity zero, pressure `p`, so
/// `e = p/(gamma-1) + 0.5*rho*(0*0 + 0*0)`, computed in that exact
/// operation order.
pub open spec fn spec_sod_state(m: ScalarModel, gamma: u64, rho: u64, p: u64) -> Cons {
    Cons {
        rho,
        rhou: s_mul(m, rho, ZERO_BITS),
        rhov: s_mul(m, rho, ZERO_BITS),
        e: s_add(
            m,
            s_div(m, p, s_sub(m, gamma, ONE_BITS)),
            s_mul(
                m,
                s_mul(m, HALF_BITS, rho),
                s_add(m, s_mul(m, ZERO_BITS, ZERO_BITS), s_mul(m, ZERO_BITS, ZERO_BITS)),
            ),
        ),
    }
}

/// The solver: one grid, one immutable configuration, a step counter,
/// and the diagnostics counters it accumulates.
pub struct Solver {
    /// The ghost-cell grid.
    pub grid: Grid2D,
    /// The run configuration.
    pub cfg: Config,
    /// Completed steps.
    pub step: usize,
    /// Accumulated event counters; read them through `diagnostics`.
    pub diag: Diagnostics,
}

impl Solver {
    /// A usable solver: a well-formed grid with at least one ghost cell
    /// on each side and a halo no wider than the physical extents.
    pub open spec fn wf(self) -> bool {
        &&& self.grid.wf()
        &&& 1 <= self.grid@.ng
        &&& self.grid@.ng <= self.grid@.nx
        &&& self.grid@.ng <= self.grid@.ny
    }

    /// Builds a solver over a zero-initialized grid. Construction fails
    /// exactly when an extent is zero or the adiabatic index is not
    /// above one (by the IEEE comparison, so a NaN index is accepted,
    /// as the raw comparison accepts it). The halo must be at least one
    /// cell wide — the flux stencil reads one ghost neighbour on each
    /// side of every physical cell — and no wider than the physical
    /// extents, so that every boundary source is a physical cell; this
    /// stands as a precondition, not a configuration error.
    pub fn new(nx: usize, ny: usize, nghost: usize, cfg: Config) -> (res: Result<
        Solver,
        SolverError,
    >)
        requires
            1 <= nghost,
            nx == 0 || nghost <= nx,
            ny == 0 || nghost <= ny,
            (ny + 2 * nghost) * (nx + 2 * nghost) <= isize::MAX,
            ny + 2 * nghost <= isize::MAX,
            nx + 2 * nghost <= isize::MAX,
        ensures
            nx == 0 || ny == 0 ==> (res matches Err(SolverError::Config(msg)) && msg@
                == "nx, ny must be > 0"@),
            nx != 0 && ny != 0 && le_bits(cfg.gamma, ONE_BITS) ==> (res matches Err(
                SolverError::Config(msg),
            ) && msg@ == "gamma must be > 1"@),
            nx != 0 && ny != 0 && !le_bits(cfg.gamma, ONE_BITS) ==> (res matches Ok(s) && s.wf()
                && s.cfg == cfg && s.step == 0 && s.diag == diagnostics_zero() && s.grid@.nx == nx
                && s.grid@.ny == ny && s.grid@.ng == nghost && (forall|r: int, c: int|
                0 <= r < s.grid@.rows() && 0 <= c < s.grid@.cols() ==> #[trigger] s.grid@.cell(
                    r,
                    c,
                ) == cons_zero())),
    {
        if nx == 0 || ny == 0 {
            return Err(SolverError::Config(String::from_str("nx, ny must be > 0")));
        }
        if crate::bits::le(cfg.gamma, ONE_BITS) {
            return Err(SolverError::Config(String::from_str("gamma must be > 1")));
        }
        let grid = Grid2D::new(nx, ny, nghost);
        proof {
            assert forall|r: int, c: int|
                0 <= r < grid@.rows() && 0 <= c < grid@.cols() implies #[trigger] grid@.cell(r, c)
                == cons_zero() by {
                crate::grid::lemma_idx_in_bounds(r, c, grid@.rows() as int, grid@.cols() as int);
            }
        }
        Ok(Solver { grid, cfg, step: 0, diag: Diagnostics::default() })
    }

    /// How many steps have completed.
    pub fn step_index(&self) -> (n: usize)
        ensures
            n == self.step,
    {
        self.step
    }

    /// Read access to the accumulated diagnostics counters.
    pub fn diagnostics(&self) -> (d: &Diagnostics)
        ensures
            *d == self.diag,
    {
        &self.diag
    }

    /// The CFL-constrained time step of the current grid state, or a
    /// time-step error when the reduction is degenerate (the division
    /// yields a non-finite value, as when every wave speed is zero).
    pub fn compute_dt<F: Fn(u8, u64, u64) -> u64>(&self, ops: &FloatOps<F>) -> (res: Result<
        u64,
        SolverError,
    >)
        requires
            ops.wf(),
            self.wf(),
        ensures
            ({
                let d = crate::time::spec_compute_dt(
                    ops.m(),
                    self.grid@,
                    self.cfg.gamma,
                    self.cfg.cfl,
                    self.cfg.dx,
                    self.cfg.dy,
                );
                &&& is_finite_bits(d) ==> (res matches Ok(dv) && dv == d)
                &&& !is_finite_bits(d) ==> (res matches Err(SolverError::TimeStep(msg)) && msg@
                    == "degenerate wave speeds"@)
            }),
    {
        let dt = crate::time::compute_dt(
            ops,
            &self.grid,
            self.cfg.gamma,
            self.cfg.cfl,
            self.cfg.dx,
            self.cfg.dy,
        );
        if crate::bits::is_finite(dt) {
            Ok(dt)
        } else {
            Err(SolverError::TimeStep(String::from_str("degenerate wave speeds")))
        }
    }

    /// Advances one time step: refreshes the ghost halo under the
    /// configured boundary policy, evaluates the HLL fluxes at every
    /// interior interface on both axes from that frozen state, applies
    /// the explicit conservative update to every physical cell,
    /// re-validates every updated cell (density floor, pressure floor,
    /// finiteness), and only then commits the new state, the
    /// diagnostics and the step counter. On the first violating cell in
    /// scan order the step fails with that cell's error and commits
    /// nothing: physical cells, counters and the step counter keep
    /// their old values, and only the ghost halo has been refreshed.
    #[verifier::rlimit(100)]
    pub fn step<F: Fn(u8, u64, u64) -> u64>(&mut self, ops: &FloatOps<F>, dt: u64) -> (res: Result<
        (),
        SolverError,
    >)
        requires
            ops.wf(),
            old(self).wf(),
            old(self).step < usize::MAX,
            old(self).diag.floors_rho + old(self).grid@.ny * old(self).grid@.nx <= u64::MAX,
            old(self).diag.floors_p + old(self).grid@.ny * old(self).grid@.nx <= u64::MAX,
            old(self).diag.hll_to_llf_fallbacks + old(self).grid@.ny * (old(self).grid@.nx + 1) + (
            old(self).grid@.ny + 1) * old(self).grid@.nx <= u64::MAX,
        ensures
            final(self).wf(),
            final(self).cfg == old(self).cfg,
            final(self).grid@.nx == old(self).grid@.nx,
            final(self).grid@.ny == old(self).grid@.ny,
            final(self).grid@.ng == old(self).grid@.ng,
            ({
                let ctx = StepCtx {
                    m: ops.m(),
                    v0: old(self).grid@,
                    bc: old(self).cfg.bc,
                    gamma: old(self).cfg.gamma,
                    floors: old(self).cfg.floors,
                    dtdx: s_div(ops.m(), dt, old(self).cfg.dx),
                    dtdy: s_div(ops.m(), dt, old(self).cfg.dy),
                };
                &&& (forall|r: int, c: int|
                    0 <= r < ctx.v0.rows() && 0 <= c < ctx.v0.cols() && crate::grid::is_ghost(
                        ctx.v0,
                        r,
                        c,
                    ) ==> #[trigger] final(self).grid@.cell(r, c) == bc_cell(ctx.v0, ctx.bc, r, c))
                &&& (spec_grid_err(ctx, ctx.v0.ny) is None ==> {
                    &&& res matches Ok(_)
                    &&& forall|i: int, j: int|
                        0 <= i < ctx.v0.nx && 0 <= j < ctx.v0.ny ==> #[trigger] final(self).grid@.phys_cell(i, j) == spec_step_cell(ctx, i, j)
                    &&& final(self).step == old(self).step + 1
                    &&& final(self).diag.floors_rho == old(self).diag.floors_rho
                        + spec_grid_counts(ctx, ctx.v0.ny).0
                    &&& final(self).diag.floors_p == old(self).diag.floors_p + spec_grid_counts(
                        ctx,
                        ctx.v0.ny,
                    ).1
                    &&& final(self).diag.hll_to_llf_fallbacks
                        == old(self).diag.hll_to_llf_fallbacks + spec_fx_falls(ctx, ctx.v0.ny)
                        + spec_fy_falls(ctx, (ctx.v0.ny + 1) as nat)
                    &&& final(self).diag.downgraded_to_first_order == old(
                        self,
                    ).diag.downgraded_to_first_order
                    &&& final(self).diag.nonfinite_encounters == old(self).diag.nonfinite_encounters
                })
                &&& (spec_grid_err(ctx, ctx.v0.ny) matches Some(bad) ==> {
                    &&& (res matches Err(SolverError::NonPhysical { i: ei, j: ej, why }) && ei
                        == bad.0 && ej == bad.1 && (bad.2 ==> why@ == "rho <= 0"@) && (!bad.2
                        ==> why@ == "NaN/Inf"@))
                    &&& forall|i: int, j: int|
                        0 <= i < ctx.v0.nx && 0 <= j < ctx.v0.ny ==> #[trigger] final(self).grid@.phys_cell(i, j) == ctx.v0.phys_cell(i, j)
                    &&& final(self).step == old(self).step
                    &&& final(self).diag == old(self).diag
                })
            }),
    {
        let ghost v0 = self.grid@;
        let cfgv = self.cfg;
        let gamma = cfgv.gamma;
        let floors = cfgv.floors;
        self.grid.apply_boundary(cfgv.bc);
        let dtdx = ops.div(dt, cfgv.dx);
        let dtdy = ops.div(dt, cfgv.dy);
        let ghost ctx = StepCtx {
            m: ops.m(),
            v0,
            bc: cfgv.bc,
            gamma,
            floors,
            dtdx,
            dtdy,
        };
        let ghost gw = self.grid@;
        let nx = self.grid.nx;
        let ny = self.grid.ny;
        let ng = self.grid.nghost;
        proof {
            lemma_mul_le(ny as int, nx as int + 1, v0.rows() as int, v0.cols() as int);
            lemma_mul_le(ny as int + 1, nx as int, v0.rows() as int, v0.cols() as int);
            lemma_mul_le(ny as int, nx as int, v0.rows() as int, v0.cols() as int);
        }

        // Phase one: the x-directed interface fluxes, row by row, from
        // the frozen boundary-refreshed state.
        let mut fx: Vec<Vec<Cons>> = Vec::new();
        let mut nfall: usize = 0;
        let mut j: usize = 0;
        while j < ny
            invariant
                ops.wf(),
                self.wf(),
                self.grid@ == gw,
                self.cfg == cfgv,
                self.step == old(self).step,
                self.diag == old(self).diag,
                nx == v0.nx && ny == v0.ny && ng == v0.ng,
                gw.nx == v0.nx && gw.ny == v0.ny && gw.ng == v0.ng,
                ctx == (StepCtx {
                    m: ops.m(),
                    v0,
                    bc: cfgv.bc,
                    gamma,
                    floors,
                    dtdx,
                    dtdy,
                }),
                v0 == old(self).grid@,
                forall|r: int, c: int|
                    0 <= r < v0.rows() && 0 <= c < v0.cols() ==> #[trigger] gw.cell(r, c)
                        == bc_cell(v0, cfgv.bc, r, c),
                ny * (nx + 1) <= isize::MAX,
                (ny + 1) * nx <= isize::MAX,
                ny * nx <= isize::MAX,
                j <= ny,
                fx@.len() == j,
                forall|j2: int| 0 <= j2 < j ==> #[trigger] fx@[j2]@.len() == v0.nx + 1,
                forall|j2: int, i2: int|
                    0 <= j2 < j && 0 <= i2 < v0.nx + 1 ==> #[trigger] fx@[j2]@[i2] == spec_fx(
                        ctx,
                        i2,
                        j2,
                    ).0,
                nfall == spec_fx_falls(ctx, j as nat),
                nfall <= j * (nx + 1),
            decreases ny - j,
        {
            let mut row: Vec<Cons> = Vec::new();
            let mut i: usize = 0;
            while i < nx + 1
                invariant
                    ops.wf(),
                    self.wf(),
                    self.grid@ == gw,
                    nx == v0.nx && ny == v0.ny && ng == v0.ng,
                    gw.nx == v0.nx && gw.ny == v0.ny && gw.ng == v0.ng,
                    ctx == (StepCtx {
                        m: ops.m(),
                        v0,
                        bc: cfgv.bc,
                        gamma,
                        floors,
                        dtdx,
                        dtdy,
                    }),
                    forall|r: int, c: int|
                        0 <= r < v0.rows() && 0 <= c < v0.cols() ==> #[trigger] gw.cell(r, c)
                            == bc_cell(v0, cfgv.bc, r, c),
                    ny * (nx + 1) <= isize::MAX,
                    j < ny,
                    i <= nx + 1,
                    row@.len() == i,
                    forall|i2: int|
                        0 <= i2 < i ==> #[trigger] row@[i2] == spec_fx(ctx, i2, j as int).0,
                    nfall == spec_fx_falls(ctx, j as nat) + spec_fx_row_falls(
                        ctx,
                        j as int,
                        i as nat,
                    ),
                    nfall <= j * (nx + 1) + i,
                decreases nx + 1 - i,
            {
                let ul = self.grid.cell(j + ng, i + ng - 1);
                let ur = self.grid.cell(j + ng, i + ng);
                let (f, fb) = crate::flux::flux_x_hll(ops, ul, ur, gamma);
                row.push(f);
                proof {
                    assert(j * (nx + 1) + i < ny * (nx + 1)) by (nonlinear_arith)
                        requires
                            0 <= j < ny,
                            0 <= i <= nx,
                    ;
                }
                if fb {
                    nfall = nfall + 1;
                }
                proof {
                    assert((f, fb) == spec_fx(ctx, i as int, j as int));
                    assert(spec_fx_row_falls(ctx, j as int, (i + 1) as nat) == spec_fx_row_falls(
                        ctx,
                        j as int,
                        i as nat,
                    ) + if fb {
                        1nat
                    } else {
                        0nat
                    });
                }
                i = i + 1;
            }
            let ghost fx_prev = fx@;
            fx.push(row);
            proof {
                assert(spec_fx_falls(ctx, (j + 1) as nat) == spec_fx_falls(ctx, j as nat)
                    + spec_fx_row_falls(ctx, j as int, (v0.nx + 1) as nat));
                assert((j + 1) * (nx + 1) == j * (nx + 1) + (nx + 1)) by (nonlinear_arith);
                assert forall|j2: int, i2: int|
                    0 <= j2 < j + 1 && 0 <= i2 < v0.nx + 1 implies #[trigger] fx@[j2]@[i2]
                    == spec_fx(ctx, i2, j2).0 by {
                    if j2 < j {
                        assert(fx@[j2] == fx_prev[j2]);
                    }
                }
            }
            j = j + 1;
        }

        // Phase two: the y-directed interface fluxes.
        let mut fy: Vec<Vec<Cons>> = Vec::new();
        let mut j2c: usize = 0;
        while j2c < ny + 1
            invariant
                ops.wf(),
                self.wf(),
                self.grid@ == gw,
                self.cfg == cfgv,
                self.step == old(self).step,
                self.diag == old(self).diag,
                nx == v0.nx && ny == v0.ny && ng == v0.ng,
                gw.nx == v0.nx && gw.ny == v0.ny && gw.ng == v0.ng,
                ctx == (StepCtx {
                    m: ops.m(),
                    v0,
                    bc: cfgv.bc,
                    gamma,
                    floors,
                    dtdx,
                    dtdy,
                }),
                v0 == old(self).grid@,
                forall|r: int, c: int|
                    0 <= r < v0.rows() && 0 <= c < v0.cols() ==> #[trigger] gw.cell(r, c)
                        == bc_cell(v0, cfgv.bc, r, c),
                ny * (nx + 1) <= isize::MAX,
                (ny + 1) * nx <= isize::MAX,
                ny * nx <= isize::MAX,
                fx@.len() == ny,
                forall|jj: int| 0 <= jj < ny ==> #[trigger] fx@[jj]@.len() == v0.nx + 1,
                forall|jj: int, i2: int|
                    0 <= jj < ny && 0 <= i2 < v0.nx + 1 ==> #[trigger] fx@[jj]@[i2] == spec_fx(
                        ctx,
                        i2,
                        jj,
                    ).0,
                j2c <= ny + 1,
                fy@.len() == j2c,
                forall|jj: int| 0 <= jj < j2c ==> #[trigger] fy@[jj]@.len() == v0.nx,
                forall|jj: int, i2: int|
                    0 <= jj < j2c && 0 <= i2 < v0.nx ==> #[trigger] fy@[jj]@[i2] == spec_fy(
                        ctx,
                        i2,
                        jj,
                    ).0,
                nfall == spec_fx_falls(ctx, v0.ny) + spec_fy_falls(ctx, j2c as nat),
                nfall <= ny * (nx + 1) + j2c * nx,
            decreases ny + 1 - j2c,
        {
            let mut row: Vec<Cons> = Vec::new();
            let mut i: usize = 0;
            while i < nx
                invariant
                    ops.wf(),
                    self.wf(),
                    self.grid@ == gw,
                    nx == v0.nx && ny == v0.ny && ng == v0.ng,
                    gw.nx == v0.nx && gw.ny == v0.ny && gw.ng == v0.ng,
                    ctx == (StepCtx {
                        m: ops.m(),
                        v0,
                        bc: cfgv.bc,
                        gamma,
                        floors,
                        dtdx,
                        dtdy,
                    }),
                    forall|r: int, c: int|
                        0 <= r < v0.rows() && 0 <= c < v0.cols() ==> #[trigger] gw.cell(r, c)
                            == bc_cell(v0, cfgv.bc, r, c),
                    ny * (nx + 1) <= isize::MAX,
                    (ny + 1) * nx <= isize::MAX,
                    j2c < ny + 1,
                    i <= nx,
                    row@.len() == i,
                    forall|i2: int|
                        0 <= i2 < i ==> #[trigger] row@[i2] == spec_fy(ctx, i2, j2c as int).0,
                    nfall == spec_fx_falls(ctx, v0.ny) + spec_fy_falls(ctx, j2c as nat)
                        + spec_fy_row_falls(ctx, j2c as int, i as nat),
                    nfall <= ny * (nx + 1) + j2c * nx + i,
                decreases nx - i,
            {
                let ul = self.grid.cell(j2c + ng - 1, i + ng);
                let ur = self.grid.cell(j2c + ng, i + ng);
                let (f, fb) = crate::flux::flux_y_hll(ops, ul, ur, gamma);
                row.push(f);
                proof {
                    assert(j2c * nx + i < (ny + 1) * nx) by (nonlinear_arith)
                        requires
                            0 <= j2c <= ny,
                            0 <= i < nx,
                    ;
                }
                if fb {
                    nfall = nfall + 1;
                }
                proof {
                    assert((f, fb) == spec_fy(ctx, i as int, j2c as int));
                    assert(spec_fy_row_falls(ctx, j2c as int, (i + 1) as nat) == spec_fy_row_falls(
                        ctx,
                        j2c as int,
                        i as nat,
                    ) + if fb {
                        1nat
                    } else {
                        0nat
                    });
                }
                i = i + 1;
            }
            let ghost fy_prev = fy@;
            fy.push(row);
            proof {
                assert(spec_fy_falls(ctx, (j2c + 1) as nat) == spec_fy_falls(ctx, j2c as nat)
                    + spec_fy_row_falls(ctx, j2c as int, v0.nx));
                assert((j2c + 1) * nx == j2c * nx + nx) by (nonlinear_arith);
                assert forall|jj: int, i2: int|
                    0 <= jj < j2c + 1 && 0 <= i2 < v0.nx implies #[trigger] fy@[jj]@[i2]
                    == spec_fy(ctx, i2, jj).0 by {
                    if jj < j2c {
                        assert(fy@[jj] == fy_prev[jj]);
                    }
                }
            }
            j2c = j2c + 1;
        }

        // Phase three: the explicit update of every physical cell from
        // the frozen fluxes, re-validated cell by cell; the first
        // violation aborts the step before anything is committed.
        let mut enf: Vec<Vec<Cons>> = Vec::new();
        let mut nrho: usize = 0;
        let mut np: usize = 0;
        let mut jv: usize = 0;
        while jv < ny
            invariant
                ops.wf(),
                self.wf(),
                self.grid@ == gw,
                self.cfg == cfgv,
                self.step == old(self).step,
                self.diag == old(self).diag,
                nx == v0.nx && ny == v0.ny && ng == v0.ng,
                gw.nx == v0.nx && gw.ny == v0.ny && gw.ng == v0.ng,
                ctx == (StepCtx {
                    m: ops.m(),
                    v0,
                    bc: cfgv.bc,
                    gamma,
                    floors,
                    dtdx,
                    dtdy,
                }),
                v0 == old(self).grid@,
                cfgv == old(self).cfg,
                gamma == cfgv.gamma && floors == cfgv.floors,
                dtdx == s_div(ops.m(), dt, cfgv.dx) && dtdy == s_div(ops.m(), dt, cfgv.dy),
                forall|r: int, c: int|
                    0 <= r < v0.rows() && 0 <= c < v0.cols() ==> #[trigger] gw.cell(r, c)
                        == bc_cell(v0, cfgv.bc, r, c),
                ny * nx <= isize::MAX,
                fx@.len() == ny,
                forall|jj: int| 0 <= jj < ny ==> #[trigger] fx@[jj]@.len() == v0.nx + 1,
                forall|jj: int, i2: int|
                    0 <= jj < ny && 0 <= i2 < v0.nx + 1 ==> #[trigger] fx@[jj]@[i2] == spec_fx(
                        ctx,
                        i2,
                        jj,
                    ).0,
                fy@.len() == ny + 1,
                forall|jj: int| 0 <= jj < ny + 1 ==> #[trigger] fy@[jj]@.len() == v0.nx,
                forall|jj: int, i2: int|
                    0 <= jj < ny + 1 && 0 <= i2 < v0.nx ==> #[trigger] fy@[jj]@[i2] == spec_fy(
                        ctx,
                        i2,
                        jj,
                    ).0,
                jv <= ny,
                enf@.len() == jv,
                forall|jj: int| 0 <= jj < jv ==> #[trigger] enf@[jj]@.len() == v0.nx,
                forall|jj: int, i2: int|
                    0 <= jj < jv && 0 <= i2 < v0.nx ==> #[trigger] enf@[jj]@[i2] == spec_step_cell(
                        ctx,
                        i2,
                        jj,
                    ),
                spec_grid_err(ctx, jv as nat) is None,
                nrho == spec_grid_counts(ctx, jv as nat).0,
                np == spec_grid_counts(ctx, jv as nat).1,
                nrho <= jv * nx,
                np <= jv * nx,
            decreases ny - jv,
        {
            let mut enfrow: Vec<Cons> = Vec::new();
            let mut i: usize = 0;
            while i < nx
                invariant
                    ops.wf(),
                    self.wf(),
                    self.grid@ == gw,
                    self.cfg == cfgv,
                    self.step == old(self).step,
                    self.diag == old(self).diag,
                    nx == v0.nx && ny == v0.ny && ng == v0.ng,
                    gw.nx == v0.nx && gw.ny == v0.ny && gw.ng == v0.ng,
                    ctx == (StepCtx {
                        m: ops.m(),
                        v0,
                        bc: cfgv.bc,
                        gamma,
                        floors,
                        dtdx,
                        dtdy,
                    }),
                    v0 == old(self).grid@,
                    cfgv == old(self).cfg,
                    gamma == cfgv.gamma && floors == cfgv.floors,
                    dtdx == s_div(ops.m(), dt, cfgv.dx) && dtdy == s_div(ops.m(), dt, cfgv.dy),
                    forall|r: int, c: int|
                        0 <= r < v0.rows() && 0 <= c < v0.cols() ==> #[trigger] gw.cell(r, c)
                            == bc_cell(v0, cfgv.bc, r, c),
                    ny * nx <= isize::MAX,
                    fx@.len() == ny,
                    forall|jj: int| 0 <= jj < ny ==> #[trigger] fx@[jj]@.len() == v0.nx + 1,
                    forall|jj: int, i2: int|
                        0 <= jj < ny && 0 <= i2 < v0.nx + 1 ==> #[trigger] fx@[jj]@[i2] == spec_fx(
                            ctx,
                            i2,
                            jj,
                        ).0,
                    fy@.len() == ny + 1,
                    forall|jj: int| 0 <= jj < ny + 1 ==> #[trigger] fy@[jj]@.len() == v0.nx,
                    forall|jj: int, i2: int|
                        0 <= jj < ny + 1 && 0 <= i2 < v0.nx ==> #[trigger] fy@[jj]@[i2] == spec_fy(
                            ctx,
                            i2,
                            jj,
                        ).0,
                    jv < ny,
                    i <= nx,
                    enfrow@.len() == i,
                    forall|i2: int|
                        0 <= i2 < i ==> #[trigger] enfrow@[i2] == spec_step_cell(ctx, i2, jv as int),
                    spec_grid_err(ctx, jv as nat) is None,
                    spec_row_err(ctx, jv as int, i as nat) is None,
                    nrho == spec_grid_counts(ctx, jv as nat).0 + spec_row_counts(
                        ctx,
                        jv as int,
                        i as nat,
                    ).0,
                    np == spec_grid_counts(ctx, jv as nat).1 + spec_row_counts(
                        ctx,
                        jv as int,
                        i as nat,
                    ).1,
                    nrho <= jv * nx + i,
                    np <= jv * nx + i,
                decreases nx - i,
            {
                let cmid = self.grid.cell(jv + ng, i + ng);
                let fxl = fx[jv][i];
                let fxr = fx[jv][i + 1];
                let fyb = fy[jv][i];
                let fyt = fy[jv + 1][i];
                let raw = Cons {
                    rho: upd_val(ops, cmid.rho, dtdx, fxl.rho, fxr.rho, dtdy, fyb.rho, fyt.rho),
                    rhou: upd_val(
                        ops,
                        cmid.rhou,
                        dtdx,
                        fxl.rhou,
                        fxr.rhou,
                        dtdy,
                        fyb.rhou,
                        fyt.rhou,
                    ),
                    rhov: upd_val(
                        ops,
                        cmid.rhov,
                        dtdx,
                        fxl.rhov,
                        fxr.rhov,
                        dtdy,
                        fyb.rhov,
                        fyt.rhov,
                    ),
                    e: upd_val(ops, cmid.e, dtdx, fxl.e, fxr.e, dtdy, fyb.e, fyt.e),
                };
                proof {
                    assert(raw == spec_raw_cell(ctx, i as int, jv as int));
                    assert(jv * nx + i < ny * nx) by (nonlinear_arith)
                        requires
                            0 <= jv < ny,
                            0 <= i < nx,
                    ;
                }
                if crate::bits::lt(raw.rho, ZERO_BITS) {
                    proof {
                        assert(spec_cell_err_at(ctx, i as int, jv as int) == Some(true));
                        assert(spec_row_err(ctx, jv as int, (i + 1) as nat) == Some(
                            (i as int, true),
                        ));
                        lemma_row_err_extend(ctx, jv as int, (i + 1) as nat, v0.nx);
                        assert(spec_grid_err(ctx, (jv + 1) as nat) == Some(
                            (i as int, jv as int, true),
                        ));
                        lemma_grid_err_extend(ctx, (jv + 1) as nat, v0.ny);
                        lemma_bc_preserves_physical(v0, cfgv.bc, gw);
                    }
                    return Err(
                        SolverError::NonPhysical { i, j: jv, why: String::from_str("rho <= 0") },
                    );
                }
                let rf = crate::bits::lt(raw.rho, floors.rho);
                let cell2 = if rf {
                    Cons { rho: floors.rho, rhou: raw.rhou, rhov: raw.rhov, e: raw.e }
                } else {
                    raw
                };
                proof {
                    assert((cell2, rf) == spec_rho_floored(raw, floors));
                }
                match cons_to_prim_checked(ops, cell2, gamma, floors, i, jv) {
                    Err(e) => {
                        proof {
                            let kind = c2p_rejects_rho(cell2);
                            assert(spec_cell_err_at(ctx, i as int, jv as int) == Some(kind));
                            assert(spec_row_err(ctx, jv as int, (i + 1) as nat) == Some(
                                (i as int, kind),
                            ));
                            lemma_row_err_extend(ctx, jv as int, (i + 1) as nat, v0.nx);
                            assert(spec_grid_err(ctx, (jv + 1) as nat) == Some(
                                (i as int, jv as int, kind),
                            ));
                            lemma_grid_err_extend(ctx, (jv + 1) as nat, v0.ny);
                            lemma_bc_preserves_physical(v0, cfgv.bc, gw);
                        }
                        return Err(e);
                    },
                    Ok((_p, pf)) => {
                        if rf {
                            nrho = nrho + 1;
                        }
                        if pf {
                            np = np + 1;
                        }
                        enfrow.push(cell2);
                        proof {
                            assert(spec_cell_err_at(ctx, i as int, jv as int) is None);
                            assert(spec_row_err(ctx, jv as int, (i + 1) as nat) is None);
                            assert(spec_row_counts(ctx, jv as int, (i + 1) as nat).0
                                == spec_row_counts(ctx, jv as int, i as nat).0 + if rf {
                                1nat
                            } else {
                                0nat
                            });
                            assert(spec_row_counts(ctx, jv as int, (i + 1) as nat).1
                                == spec_row_counts(ctx, jv as int, i as nat).1 + if pf {
                                1nat
                            } else {
                                0nat
                            });
                            assert(cell2 == spec_step_cell(ctx, i as int, jv as int));
                        }
                    },
                }
                i = i + 1;
            }
            let ghost enf_prev = enf@;
            enf.push(enfrow);
            proof {
                assert(spec_grid_err(ctx, (jv + 1) as nat) is None);
                assert(spec_grid_counts(ctx, (jv + 1) as nat).0 == spec_grid_counts(
                    ctx,
                    jv as nat,
                ).0 + spec_row_counts(ctx, jv as int, v0.nx).0);
                assert(spec_grid_counts(ctx, (jv + 1) as nat).1 == spec_grid_counts(
                    ctx,
                    jv as nat,
                ).1 + spec_row_counts(ctx, jv as int, v0.nx).1);
                assert((jv + 1) * nx == jv * nx + nx) by (nonlinear_arith);
                assert forall|jj: int, i2: int|
                    0 <= jj < jv + 1 && 0 <= i2 < v0.nx implies #[trigger] enf@[jj]@[i2]
                    == spec_step_cell(ctx, i2, jj) by {
                    if jj < jv {
                        assert(enf@[jj] == enf_prev[jj]);
                    }
                }
            }
            jv = jv + 1;
        }

        // Phase four: commit the validated state, then the diagnostics
        // and the step counter.
        let mut jc: usize = 0;
        while jc < ny
            invariant
                self.wf(),
                self.cfg == cfgv,
                self.step == old(self).step,
                self.diag == old(self).diag,
                nx == v0.nx && ny == v0.ny && ng == v0.ng,
                self.grid@.nx == v0.nx && self.grid@.ny == v0.ny && self.grid@.ng == v0.ng,
                gw.nx == v0.nx && gw.ny == v0.ny && gw.ng == v0.ng,
                ctx == (StepCtx {
                    m: ops.m(),
                    v0,
                    bc: cfgv.bc,
                    gamma,
                    floors,
                    dtdx,
                    dtdy,
                }),
                v0 == old(self).grid@,
                forall|r: int, c: int|
                    0 <= r < v0.rows() && 0 <= c < v0.cols() ==> #[trigger] gw.cell(r, c)
                        == bc_cell(v0, cfgv.bc, r, c),
                enf@.len() == ny,
                forall|jj: int| 0 <= jj < ny ==> #[trigger] enf@[jj]@.len() == v0.nx,
                forall|jj: int, i2: int|
                    0 <= jj < ny && 0 <= i2 < v0.nx ==> #[trigger] enf@[jj]@[i2] == spec_step_cell(
                        ctx,
                        i2,
                        jj,
                    ),
                jc <= ny,
                forall|i2: int, jj: int|
                    0 <= i2 < v0.nx && 0 <= jj < v0.ny ==> #[trigger] self.grid@.phys_cell(i2, jj)
                        == (if jj < jc {
                        spec_step_cell(ctx, i2, jj)
                    } else {
                        gw.phys_cell(i2, jj)
                    }),
                forall|r: int, c: int|
                    0 <= r < v0.rows() && 0 <= c < v0.cols() && crate::grid::is_ghost(v0, r, c)
                        ==> #[trigger] self.grid@.cell(r, c) == gw.cell(r, c),
            decreases ny - jc,
        {
            let mut i: usize = 0;
            while i < nx
                invariant
                    self.wf(),
                    self.cfg == cfgv,
                    self.step == old(self).step,
                    self.diag == old(self).diag,
                    nx == v0.nx && ny == v0.ny && ng == v0.ng,
                    self.grid@.nx == v0.nx && self.grid@.ny == v0.ny && self.grid@.ng == v0.ng,
                    gw.nx == v0.nx && gw.ny == v0.ny && gw.ng == v0.ng,
                    ctx == (StepCtx {
                        m: ops.m(),
                        v0,
                        bc: cfgv.bc,
                        gamma,
                        floors,
                        dtdx,
                        dtdy,
                    }),
                    enf@.len() == ny,
                    forall|jj: int| 0 <= jj < ny ==> #[trigger] enf@[jj]@.len() == v0.nx,
                    forall|jj: int, i2: int|
                        0 <= jj < ny && 0 <= i2 < v0.nx ==> #[trigger] enf@[jj]@[i2]
                            == spec_step_cell(ctx, i2, jj),
                    jc < ny,
                    i <= nx,
                    forall|i2: int, jj: int|
                        0 <= i2 < v0.nx && 0 <= jj < v0.ny ==> #[trigger] self.grid@.phys_cell(
                            i2,
                            jj,
                        ) == (if jj < jc || (jj == jc && i2 < i) {
                            spec_step_cell(ctx, i2, jj)
                        } else {
                            gw.phys_cell(i2, jj)
                        }),
                    forall|r: int, c: int|
                        0 <= r < v0.rows() && 0 <= c < v0.cols() && crate::grid::is_ghost(v0, r, c)
                            ==> #[trigger] self.grid@.cell(r, c) == gw.cell(r, c),
                decreases nx - i,
            {
                let (r, c) = self.grid.idx_with_ghost(i, jc);
                let ghost prev = self.grid@;
                let v = enf[jc][i];
                self.grid.set_cell(r, c, v);
                proof {
                    crate::grid::lemma_idx_in_bounds(
                        r as int,
                        c as int,
                        v0.rows() as int,
                        v0.cols() as int,
                    );
                    assert(self.grid@.cell(r as int, c as int) == v);
                    assert forall|r2: int, c2: int|
                        0 <= r2 < v0.rows() && 0 <= c2 < v0.cols() && (r2 != r || c2
                            != c) implies #[trigger] self.grid@.cell(r2, c2) == prev.cell(
                        r2,
                        c2,
                    ) by {
                        crate::grid::lemma_idx_in_bounds(r2, c2, v0.rows() as int, v0.cols() as int);
                        if prev.idx(r2, c2) == prev.idx(r as int, c as int) {
                            crate::grid::lemma_idx_injective(
                                r2,
                                c2,
                                r as int,
                                c as int,
                                v0.cols() as int,
                            );
                        }
                    }
                    assert forall|i2: int, jj: int|
                        0 <= i2 < v0.nx && 0 <= jj < v0.ny implies #[trigger] self.grid@.phys_cell(
                        i2,
                        jj,
                    ) == (if jj < jc || (jj == jc && i2 < i + 1) {
                        spec_step_cell(ctx, i2, jj)
                    } else {
                        gw.phys_cell(i2, jj)
                    }) by {
                        if i2 == i && jj == jc {
                            assert(self.grid@.phys_cell(i2, jj) == v);
                        } else {
                            assert(self.grid@.cell(jj + v0.ng, i2 + v0.ng) == prev.cell(
                                jj + v0.ng,
                                i2 + v0.ng,
                            ));
                            assert(prev.phys_cell(i2, jj) == prev.cell(jj + v0.ng, i2 + v0.ng));
                            assert(self.grid@.phys_cell(i2, jj) == prev.phys_cell(i2, jj));
                        }
                    }
                    assert forall|r2: int, c2: int|
                        0 <= r2 < v0.rows() && 0 <= c2 < v0.cols() && crate::grid::is_ghost(
                            v0,
                            r2,
                            c2,
                        ) implies #[trigger] self.grid@.cell(r2, c2) == gw.cell(r2, c2) by {
                        crate::grid::lemma_idx_in_bounds(r2, c2, v0.rows() as int, v0.cols() as int);
                        if prev.idx(r2, c2) == prev.idx(r as int, c as int) {
                            crate::grid::lemma_idx_injective(
                                r2,
                                c2,
                                r as int,
                                c as int,
                                v0.cols() as int,
                            );
                        }
                        assert(self.grid@.cell(r2, c2) == prev.cell(r2, c2));
                    }
                }
                i = i + 1;
            }
            jc = jc + 1;
        }
        self.diag.floors_rho = self.diag.floors_rho + (nrho as u64);
        self.diag.floors_p = self.diag.floors_p + (np as u64);
        self.diag.hll_to_llf_fallbacks = self.diag.hll_to_llf_fallbacks + (nfall as u64);
        self.step = self.step + 1;
        Ok(())
    }

    /// Fills the physical cells with the reference shock tube split at
    /// `nx / 2`: `(rho, u, p) = (1, 0, 1)` on the left half and
    /// `(0.125, 0, 0.1)` on the right, converted with the configured
    /// adiabatic index. Ghost cells are left untouched.
    pub fn init_sod_x<F: Fn(u8, u64, u64) -> u64>(&mut self, ops: &FloatOps<F>)
        requires
            ops.wf(),
            old(self).wf(),
        ensures
            final(self).wf(),
            final(self).cfg == old(self).cfg,
            final(self).step == old(self).step,
            final(self).diag == old(self).diag,
            final(self).grid@.nx == old(self).grid@.nx,
            final(self).grid@.ny == old(self).grid@.ny,
            final(self).grid@.ng == old(self).grid@.ng,
            forall|i: int, j: int|
                0 <= i < old(self).grid@.nx && 0 <= j < old(self).grid@.ny
                    ==> #[trigger] final(self).grid@.phys_cell(i, j) == (if i < old(self).grid@.nx / 2 {
                    spec_sod_state(ops.m(), old(self).cfg.gamma, ONE_BITS, ONE_BITS)
                } else {
                    spec_sod_state(
                        ops.m(),
                        old(self).cfg.gamma,
                        SOD_RIGHT_RHO_BITS,
                        SOD_RIGHT_P_BITS,
                    )
                }),
            forall|r: int, c: int|
                0 <= r < old(self).grid@.rows() && 0 <= c < old(self).grid@.cols()
                    && crate::grid::is_ghost(old(self).grid@, r, c)
                    ==> #[trigger] final(self).grid@.cell(r, c) == old(self).grid@.cell(r, c),
    {
        let gamma = self.cfg.gamma;
        let left = sod_half_state(ops, gamma, ONE_BITS, ONE_BITS);
        let right = sod_half_state(ops, gamma, SOD_RIGHT_RHO_BITS, SOD_RIGHT_P_BITS);
        let nx = self.grid.nx;
        let ny = self.grid.ny;
        let ng = self.grid.nghost;
        let mid = nx / 2;
        let ghost v0 = self.grid@;
        let ghost m = ops.m();
        let mut j: usize = 0;
        while j < ny
            invariant
                self.wf(),
                self.cfg == old(self).cfg,
                self.step == old(self).step,
                self.diag == old(self).diag,
                self.grid@.nx == v0.nx && self.grid@.ny == v0.ny && self.grid@.ng == v0.ng,
                v0 == old(self).grid@,
                m == ops.m(),
                nx == v0.nx && ny == v0.ny && ng == v0.ng && mid == v0.nx / 2,
                left == spec_sod_state(m, old(self).cfg.gamma, ONE_BITS, ONE_BITS),
                right == spec_sod_state(
                    m,
                    old(self).cfg.gamma,
                    SOD_RIGHT_RHO_BITS,
                    SOD_RIGHT_P_BITS,
                ),
                j <= ny,
                forall|i2: int, j2: int|
                    0 <= i2 < v0.nx && 0 <= j2 < v0.ny ==> #[trigger] self.grid@.phys_cell(i2, j2)
                        == (if j2 < j {
                        if i2 < v0.nx / 2 {
                            left
                        } else {
                            right
                        }
                    } else {
                        v0.phys_cell(i2, j2)
                    }),
                forall|r: int, c: int|
                    0 <= r < v0.rows() && 0 <= c < v0.cols() && crate::grid::is_ghost(v0, r, c)
                        ==> #[trigger] self.grid@.cell(r, c) == v0.cell(r, c),
            decreases ny - j,
        {
            let mut i: usize = 0;
            while i < nx
                invariant
                    self.wf(),
                    self.cfg == old(self).cfg,
                    self.step == old(self).step,
                    self.diag == old(self).diag,
                    self.grid@.nx == v0.nx && self.grid@.ny == v0.ny && self.grid@.ng == v0.ng,
                    v0 == old(self).grid@,
                    m == ops.m(),
                    nx == v0.nx && ny == v0.ny && ng == v0.ng && mid == v0.nx / 2,
                    left == spec_sod_state(m, old(self).cfg.gamma, ONE_BITS, ONE_BITS),
                    right == spec_sod_state(
                        m,
                        old(self).cfg.gamma,
                        SOD_RIGHT_RHO_BITS,
                        SOD_RIGHT_P_BITS,
                    ),
                    j < ny,
                    i <= nx,
                    forall|i2: int, j2: int|
                        0 <= i2 < v0.nx && 0 <= j2 < v0.ny ==> #[trigger] self.grid@.phys_cell(
                            i2,
                            j2,
                        ) == (if j2 < j || (j2 == j && i2 < i) {
                            if i2 < v0.nx / 2 {
                                left
                            } else {
                                right
                            }
                        } else {
                            v0.phys_cell(i2, j2)
                        }),
                    forall|r: int, c: int|
                        0 <= r < v0.rows() && 0 <= c < v0.cols() && crate::grid::is_ghost(v0, r, c)
                            ==> #[trigger] self.grid@.cell(r, c) == v0.cell(r, c),
                decreases nx - i,
            {
                let (r, c) = self.grid.idx_with_ghost(i, j);
                let ghost prev = self.grid@;
                let v = if i < mid {
                    left
                } else {
                    right
                };
                self.grid.set_cell(r, c, v);
                proof {
                    crate::grid::lemma_idx_in_bounds(
                        r as int,
                        c as int,
                        v0.rows() as int,
                        v0.cols() as int,
                    );
                    assert(self.grid@.cell(r as int, c as int) == v);
                    assert forall|r2: int, c2: int|
                        0 <= r2 < v0.rows() && 0 <= c2 < v0.cols() && (r2 != r || c2
                            != c) implies #[trigger] self.grid@.cell(r2, c2) == prev.cell(
                        r2,
                        c2,
                    ) by {
                        crate::grid::lemma_idx_in_bounds(r2, c2, v0.rows() as int, v0.cols() as int);
                        if prev.idx(r2, c2) == prev.idx(r as int, c as int) {
                            crate::grid::lemma_idx_injective(
                                r2,
                                c2,
                                r as int,
                                c as int,
                                v0.cols() as int,
                            );
                        }
                    }
                    assert forall|i2: int, j2: int|
                        0 <= i2 < v0.nx && 0 <= j2 < v0.ny implies #[trigger] self.grid@.phys_cell(
                        i2,
                        j2,
                    ) == (if j2 < j || (j2 == j && i2 < i + 1) {
                        if i2 < v0.nx / 2 {
                            left
                        } else {
                            right
                        }
                    } else {
                        v0.phys_cell(i2, j2)
                    }) by {
                        if i2 == i && j2 == j {
                            assert(self.grid@.phys_cell(i2, j2) == v);
                        } else {
                            assert(self.grid@.cell(j2 + v0.ng, i2 + v0.ng) == prev.cell(
                                j2 + v0.ng,
                                i2 + v0.ng,
                            ));
                            assert(prev.phys_cell(i2, j2) == prev.cell(j2 + v0.ng, i2 + v0.ng));
                            assert(self.grid@.phys_cell(i2, j2) == prev.phys_cell(i2, j2));
                        }
                    }
                }
                i = i + 1;
            }
            j = j + 1;
        }
    }
}

/// The ghost context of one step: the scalar model, the grid as it was
/// when the step began, and the configuration values the update uses.
pub ghost struct StepCtx {
    /// The scalar model.
    pub m: ScalarModel,
    /// The grid at the start of the step, before the boundary refresh.
    pub v0: GridView,
    /// The boundary policy.
    pub bc: Boundary,
    /// The adiabatic index.
    pub gamma: u64,
    /// The floors.
    pub floors: Floors,
    /// `dt / dx`.
    pub dtdx: u64,
    /// `dt / dy`.
    pub dtdy: u64,
}

/// The x-directed HLL flux and fallback flag at the interface left of
/// physical cell `(i, j)`, for `0 <= i <= nx`, evaluated on the
/// boundary-refreshed grid.
pub open spec fn spec_fx(ctx: StepCtx, i: int, j: int) -> (Cons, bool) {
    crate::flux::spec_flux_x_hll(
        ctx.m,
        bc_cell(ctx.v0, ctx.bc, j + ctx.v0.ng, i + ctx.v0.ng - 1),
        bc_cell(ctx.v0, ctx.bc, j + ctx.v0.ng, i + ctx.v0.ng),
        ctx.gamma,
    )
}

/// The y-directed HLL flux and fallback flag at the interface below
/// physical cell `(i, j)`, for `0 <= j <= ny`, evaluated on the
/// boundary-refreshed grid.
pub open spec fn spec_fy(ctx: StepCtx, i: int, j: int) -> (Cons, bool) {
    crate::flux::spec_flux_y_hll(
        ctx.m,
        bc_cell(ctx.v0, ctx.bc, j + ctx.v0.ng - 1, i + ctx.v0.ng),
        bc_cell(ctx.v0, ctx.bc, j + ctx.v0.ng, i + ctx.v0.ng),
        ctx.gamma,
    )
}

/// One component of the explicit finite-volume update:
/// `q - dtdx*(fr - fl) - dtdy*(gt - gb)`.
pub open spec fn spec_upd(
    m: ScalarModel,
    q: u64,
    dtdx: u64,
    fl: u64,
    fr: u64,
    dtdy: u64,
    gb: u64,
    gt: u64,
) -> u64 {
    s_sub(
        m,
        s_sub(m, q, s_mul(m, dtdx, s_sub(m, fr, fl))),
        s_mul(m, dtdy, s_sub(m, gt, gb)),
    )
}

/// The updated conservative state of physical cell `(i, j)` before any
/// floor enforcement.
pub open spec fn spec_raw_cell(ctx: StepCtx, i: int, j: int) -> Cons {
    let c = bc_cell(ctx.v0, ctx.bc, j + ctx.v0.ng, i + ctx.v0.ng);
    let fxl = spec_fx(ctx, i, j).0;
    let fxr = spec_fx(ctx, i + 1, j).0;
    let fyb = spec_fy(ctx, i, j).0;
    let fyt = spec_fy(ctx, i, j + 1).0;
    Cons {
        rho: spec_upd(ctx.m, c.rho, ctx.dtdx, fxl.rho, fxr.rho, ctx.dtdy, fyb.rho, fyt.rho),
        rhou: spec_upd(ctx.m, c.rhou, ctx.dtdx, fxl.rhou, fxr.rhou, ctx.dtdy, fyb.rhou, fyt.rhou),
        rhov: spec_upd(ctx.m, c.rhov, ctx.dtdx, fxl.rhov, fxr.rhov, ctx.dtdy, fyb.rhov, fyt.rhov),
        e: spec_upd(ctx.m, c.e, ctx.dtdx, fxl.e, fxr.e, ctx.dtdy, fyb.e, fyt.e),
    }
}

/// The density floor: a cell whose density lies below the floor keeps
/// its momentum and energy and takes the floor density; the flag
/// reports the clamp.
pub open spec fn spec_rho_floored(raw: Cons, floors: Floors) -> (Cons, bool) {
    if lt_bits(raw.rho, floors.rho) {
        (Cons { rho: floors.rho, rhou: raw.rhou, rhov: raw.rhov, e: raw.e }, true)
    } else {
        (raw, false)
    }
}

/// What re-validation finds in one updated cell: `Some(true)` for a
/// negative density (before or after the floor), `Some(false)` for a
/// non-finite primitive component, `None` for a cell in order.
pub open spec fn spec_cell_err(m: ScalarModel, raw: Cons, gamma: u64, floors: Floors) -> Option<
    bool,
> {
    if lt_bits(raw.rho, ZERO_BITS) {
        Some(true)
    } else {
        let c2 = spec_rho_floored(raw, floors).0;
        if c2p_rejects_rho(c2) {
            Some(true)
        } else if c2p_rejects_nonfinite(m, c2, gamma, floors) {
            Some(false)
        } else {
            None
        }
    }
}

/// The stored value of physical cell `(i, j)` after a successful step:
/// the updated cell with the density floor applied.
pub open spec fn spec_step_cell(ctx: StepCtx, i: int, j: int) -> Cons {
    spec_rho_floored(spec_raw_cell(ctx, i, j), ctx.floors).0
}

/// The re-validation verdict of physical cell `(i, j)`.
pub open spec fn spec_cell_err_at(ctx: StepCtx, i: int, j: int) -> Option<bool> {
    spec_cell_err(ctx.m, spec_raw_cell(ctx, i, j), ctx.gamma, ctx.floors)
}

/// The first violation in row `j` among its first `i` cells, as
/// `(column, negative-density?)`.
pub open spec fn spec_row_err(ctx: StepCtx, j: int, i: nat) -> Option<(int, bool)>
    decreases i,
{
    if i == 0 {
        None
    } else {
        match spec_row_err(ctx, j, (i - 1) as nat) {
            Some(e) => Some(e),
            None => match spec_cell_err_at(ctx, i - 1, j) {
                Some(k) => Some((i - 1, k)),
                None => None,
            },
        }
    }
}

/// The first violation among the first `j` full rows, in scan order
/// (rows outward, columns inward), as `(i, j, negative-density?)`.
pub open spec fn spec_grid_err(ctx: StepCtx, j: nat) -> Option<(int, int, bool)>
    decreases j,
{
    if j == 0 {
        None
    } else {
        match spec_grid_err(ctx, (j - 1) as nat) {
            Some(e) => Some(e),
            None => match spec_row_err(ctx, j - 1, ctx.v0.nx) {
                Some(ik) => Some((ik.0, j - 1, ik.1)),
                None => None,
            },
        }
    }
}

/// The floor activations `(density, pressure)` over the first `i` cells
/// of row `j`.
pub open spec fn spec_row_counts(ctx: StepCtx, j: int, i: nat) -> (nat, nat)
    decreases i,
{
    if i == 0 {
        (0, 0)
    } else {
        let p = spec_row_counts(ctx, j, (i - 1) as nat);
        let raw = spec_raw_cell(ctx, i - 1, j);
        let rf = spec_rho_floored(raw, ctx.floors);
        let pf = spec_c2p_clamped(ctx.m, rf.0, ctx.gamma, ctx.floors).1;
        (
            p.0 + if rf.1 {
                1nat
            } else {
                0nat
            },
            p.1 + if pf {
                1nat
            } else {
                0nat
            },
        )
    }
}

/// The floor activations `(density, pressure)` over the first `j` full
/// rows.
pub open spec fn spec_grid_counts(ctx: StepCtx, j: nat) -> (nat, nat)
    decreases j,
{
    if j == 0 {
        (0, 0)
    } else {
        let p = spec_grid_counts(ctx, (j - 1) as nat);
        let r = spec_row_counts(ctx, j - 1, ctx.v0.nx);
        (p.0 + r.0, p.1 + r.1)
    }
}

/// Degenerate-bracket fallbacks among the first `i` x-interfaces of
/// row `j`.
pub open spec fn spec_fx_row_falls(ctx: StepCtx, j: int, i: nat) -> nat
    decreases i,
{
    if i == 0 {
        0
    } else {
        spec_fx_row_falls(ctx, j, (i - 1) as nat) + if spec_fx(ctx, i - 1, j).1 {
            1nat
        } else {
            0nat
        }
    }
}

/// Degenerate-bracket fallbacks among the x-interfaces of the first `j`
/// rows.
pub open spec fn spec_fx_falls(ctx: StepCtx, j: nat) -> nat
    decreases j,
{
    if j == 0 {
        0
    } else {
        spec_fx_falls(ctx, (j - 1) as nat) + spec_fx_row_falls(ctx, j - 1, ctx.v0.nx + 1)
    }
}

/// Degenerate-bracket fallbacks among the first `i` y-interfaces of
/// interface row `j`.
pub open spec fn spec_fy_row_falls(ctx: StepCtx, j: int, i: nat) -> nat
    decreases i,
{
    if i == 0 {
        0
    } else {
        spec_fy_row_falls(ctx, j, (i - 1) as nat) + if spec_fy(ctx, i - 1, j).1 {
            1nat
        } else {
            0nat
        }
    }
}

/// Degenerate-bracket fallbacks among the y-interfaces of the first `j`
/// interface rows.
pub open spec fn spec_fy_falls(ctx: StepCtx, j: nat) -> nat
    decreases j,
{
    if j == 0 {
        0
    } else {
        spec_fy_falls(ctx, (j - 1) as nat) + spec_fy_row_falls(ctx, j - 1, ctx.v0.nx)
    }
}

/// A row scan that has found a violation keeps it.
proof fn lemma_row_err_extend(ctx: StepCtx, j: int, i1: nat, i2: nat)
    requires
        i1 <= i2,
        spec_row_err(ctx, j, i1) is Some,
    ensures
        spec_row_err(ctx, j, i2) == spec_row_err(ctx, j, i1),
    decreases i2,
{
    if i2 > i1 {
        lemma_row_err_extend(ctx, j, i1, (i2 - 1) as nat);
    }
}

/// A grid scan that has found a violation keeps it.
proof fn lemma_grid_err_extend(ctx: StepCtx, j1: nat, j2: nat)
    requires
        j1 <= j2,
        spec_grid_err(ctx, j1) is Some,
    ensures
        spec_grid_err(ctx, j2) == spec_grid_err(ctx, j1),
    decreases j2,
{
    if j2 > j1 {
        lemma_grid_err_extend(ctx, j1, (j2 - 1) as nat);
    }
}

/// A boundary refresh leaves every physical cell as it was: on
/// physical coordinates the source map is the identity.
proof fn lemma_bc_preserves_physical(v0: GridView, bc: Boundary, w: GridView)
    requires
        w.nx == v0.nx,
        w.ny == v0.ny,
        w.ng == v0.ng,
        forall|r: int, c: int|
            0 <= r < v0.rows() && 0 <= c < v0.cols() ==> #[trigger] w.cell(r, c) == bc_cell(
                v0,
                bc,
                r,
                c,
            ),
    ensures
        forall|i: int, j: int|
            0 <= i < v0.nx && 0 <= j < v0.ny ==> #[trigger] w.phys_cell(i, j) == v0.phys_cell(
                i,
                j,
            ),
{
    assert forall|i: int, j: int|
        0 <= i < v0.nx && 0 <= j < v0.ny implies #[trigger] w.phys_cell(i, j) == v0.phys_cell(
        i,
        j,
    ) by {
        let r = j + v0.ng;
        let c = i + v0.ng;
        assert(w.cell(r, c) == bc_cell(v0, bc, r, c));
        assert(crate::grid::bc_src_row(v0.ny, v0.ng, r) == r);
        assert(crate::grid::bc_src_col(v0.nx, v0.ng, bc, c) == c);
    }
}

/// Multiplication preserves the order of non-negative factors.
proof fn lemma_mul_le(a: int, b: int, c: int, d: int)
    by (nonlinear_arith)
    requires
        0 <= a <= c,
        0 <= b <= d,
    ensures
        a * b <= c * d,
{
}

/// Positivity: the state a successful step stores in any physical cell
/// has a density no less than the configured floor, and the pressure
/// that the checked conversion derives from that state is no less than
/// the pressure floor — both by the IEEE ordered comparison, whatever
/// the scalar model computed.
pub proof fn lemma_step_positivity(ctx: StepCtx)
    ensures
        forall|i: int, j: int|
            !lt_bits(#[trigger] spec_step_cell(ctx, i, j).rho, ctx.floors.rho),
        forall|i: int, j: int|
            !lt_bits(
                spec_c2p_clamped(
                    ctx.m,
                    #[trigger] spec_step_cell(ctx, i, j),
                    ctx.gamma,
                    ctx.floors,
                ).0.p,
                ctx.floors.p,
            ),
{
    assert forall|i: int, j: int|
        !lt_bits(#[trigger] spec_step_cell(ctx, i, j).rho, ctx.floors.rho) by {
        crate::bits::lemma_lt_bits_irrefl(ctx.floors.rho);
    }
    assert forall|i: int, j: int|
        !lt_bits(
            spec_c2p_clamped(ctx.m, #[trigger] spec_step_cell(ctx, i, j), ctx.gamma, ctx.floors).0.p,
            ctx.floors.p,
        ) by {
        crate::bits::lemma_lt_bits_irrefl(ctx.floors.p);
    }
}

/// One component of the explicit finite-volume update.
fn upd_val<F: Fn(u8, u64, u64) -> u64>(
    ops: &FloatOps<F>,
    q: u64,
    dtdx: u64,
    fl: u64,
    fr: u64,
    dtdy: u64,
    gb: u64,
    gt: u64,
) -> (r: u64)
    requires
        ops.wf(),
    ensures
        r == spec_upd(ops.m(), q, dtdx, fl, fr, dtdy, gb, gt),
{
    ops.sub(
        ops.sub(q, ops.mul(dtdx, ops.sub(fr, fl))),
        ops.mul(dtdy, ops.sub(gt, gb)),
    )
}

/// One uniform half-plane state of the reference shock tube.
fn sod_half_state<F: Fn(u8, u64, u64) -> u64>(
    ops: &FloatOps<F>,
    gamma: u64,
    rho: u64,
    p: u64,
) -> (r: Cons)
    requires
        ops.wf(),
    ensures
        r == spec_sod_state(ops.m(), gamma, rho, p),
{
    let zz = ops.mul(ZERO_BITS, ZERO_BITS);
    Cons {
        rho,
        rhou: ops.mul(rho, ZERO_BITS),
        rhov: ops.mul(rho, ZERO_BITS),
        e: ops.add(
            ops.div(p, ops.sub(gamma, ONE_BITS)),
            ops.mul(ops.mul(HALF_BITS, rho), ops.add(zz, zz)),
        ),
    }
}

} // verus!
