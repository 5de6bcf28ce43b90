//! The solver: construction errors, the time-step estimator and its
//! CFL bound, the stepping loop's diagnostics, positivity, the
//! transactional failure path, and conservation under periodic
//! boundaries.

use hll_core::grid::Field;
use hll_core::{Boundary, Config, Cons, Floors, FloatOps, Solver, SolverError};

fn engine_solver() -> FloatOps<impl Fn(u8, u64, u64) -> u64> {
    FloatOps::new(|op: u8, a: u64, b: u64| -> u64 {
        let x = f64::from_bits(a);
        let y = f64::from_bits(b);
        let r = match op {
            0 => x + y,
            1 => x - y,
            2 => x * y,
            3 => x / y,
            4 => x.sqrt(),
            _ => f64::NAN,
        };
        if r.is_nan() {
            f64::NAN.to_bits()
        } else {
            r.to_bits()
        }
    })
}

fn cfg(gamma: f64, cfl: f64, dx: f64, dy: f64, bc: Boundary) -> Config {
    Config {
        gamma: gamma.to_bits(),
        cfl: cfl.to_bits(),
        dx: dx.to_bits(),
        dy: dy.to_bits(),
        floors: Floors { rho: 1e-12f64.to_bits(), p: 1e-12f64.to_bits() },
        bc,
    }
}

fn cons_of(rho: f64, u: f64, v: f64, p: f64, gamma: f64) -> Cons {
    Cons {
        rho: rho.to_bits(),
        rhou: (rho * u).to_bits(),
        rhov: (rho * v).to_bits(),
        e: (p / (gamma - 1.0) + rho * (u * u + v * v) / 2.0).to_bits(),
    }
}

#[test]
fn new_rejects_zero_extents() {
    let r = Solver::new(0, 4, 1, cfg(1.4, 0.5, 1.0, 1.0, Boundary::Periodic));
    match r {
        Err(SolverError::Config(msg)) => assert_eq!(msg, "nx, ny must be > 0"),
        Err(other) => panic!("wrong error: {:?}", other),
        Ok(_) => panic!("expected Config error"),
    }
}

#[test]
fn new_rejects_gamma_not_above_one() {
    let r = Solver::new(4, 4, 1, cfg(1.0, 0.5, 1.0, 1.0, Boundary::Periodic));
    match r {
        Err(SolverError::Config(msg)) => assert_eq!(msg, "gamma must be > 1"),
        Err(other) => panic!("wrong error: {:?}", other),
        Ok(_) => panic!("expected Config error"),
    }
    assert!(Solver::new(4, 4, 1, cfg(1.4, 0.5, 1.0, 1.0, Boundary::Periodic)).is_ok());
}

#[test]
fn new_solver_starts_clean() {
    let s = Solver::new(5, 3, 1, cfg(1.4, 0.5, 1.0, 1.0, Boundary::Periodic)).unwrap();
    assert_eq!(s.step_index(), 0);
    let d = s.diagnostics();
    assert_eq!(d.floors_rho, 0);
    assert_eq!(d.floors_p, 0);
    assert_eq!(d.hll_to_llf_fallbacks, 0);
    assert_eq!(d.downgraded_to_first_order, 0);
    assert_eq!(d.nonfinite_encounters, 0);
}

#[test]
fn init_sod_fills_half_planes() {
    let ops = engine_solver();
    let gamma = 1.4f64;
    let mut s = Solver::new(8, 2, 1, cfg(gamma, 0.5, 1.0, 1.0, Boundary::OutflowX)).unwrap();
    s.init_sod_x(&ops);
    let rho = s.grid.physical_field(Field::Rho);
    let e = s.grid.physical_field(Field::E);
    for j in 0..2usize {
        for i in 0..8usize {
            let t = j * 8 + i;
            if i < 4 {
                assert_eq!(f64::from_bits(rho[t]), 1.0);
                assert_eq!(f64::from_bits(e[t]), 1.0 / (gamma - 1.0));
            } else {
                assert_eq!(f64::from_bits(rho[t]), 0.125);
                assert_eq!(f64::from_bits(e[t]), 0.1 / (gamma - 1.0));
            }
        }
    }
}

#[test]
fn compute_dt_matches_cfl_bound() {
    let ops = engine_solver();
    let gamma = 1.4f64;
    let dx = 1.0 / 8.0;
    let dy = 1.0 / 2.0;
    let cfl = 0.5f64;
    let mut s = Solver::new(8, 2, 1, cfg(gamma, cfl, dx, dy, Boundary::OutflowX)).unwrap();
    s.init_sod_x(&ops);
    let dt = f64::from_bits(s.compute_dt(&ops).unwrap());
    // the largest signal speeds over the grid
    let mut lx = 0.0f64;
    let mut ly = 0.0f64;
    let rho = s.grid.physical_field(Field::Rho);
    let rhou = s.grid.physical_field(Field::RhoU);
    let rhov = s.grid.physical_field(Field::RhoV);
    let e = s.grid.physical_field(Field::E);
    for t in 0..rho.len() {
        let r = f64::from_bits(rho[t]);
        let u = f64::from_bits(rhou[t]) / r;
        let v = f64::from_bits(rhov[t]) / r;
        let p = (gamma - 1.0) * (f64::from_bits(e[t]) - r * (u * u + v * v) / 2.0);
        let a = (gamma * p / r).sqrt();
        if u.abs() + a > lx {
            lx = u.abs() + a;
        }
        if v.abs() + a > ly {
            ly = v.abs() + a;
        }
    }
    assert!(dt <= cfl / (lx / dx) * (1.0 + 1e-12));
    assert!(dt <= cfl / (ly / dy) * (1.0 + 1e-12));
    assert!(dt > 0.0 && dt.is_finite());
    // and the value is exactly the documented formula
    let rx = lx / dx;
    let ry = ly / dy;
    let m = if rx < ry { ry } else { rx };
    assert_eq!(dt.to_bits(), (cfl / m).to_bits());
}

#[test]
fn compute_dt_reports_degenerate_grid() {
    let ops = engine_solver();
    // the zero-initialized grid has no signal at all
    let s = Solver::new(4, 2, 1, cfg(1.4, 0.5, 1.0, 1.0, Boundary::Periodic)).unwrap();
    match s.compute_dt(&ops) {
        Err(SolverError::TimeStep(msg)) => assert_eq!(msg, "degenerate wave speeds"),
        Err(other) => panic!("wrong error: {:?}", other),
        Ok(dt) => panic!("expected TimeStep error, got dt bits {dt}"),
    }
}

#[test]
fn step_advances_counter_and_keeps_positivity() {
    let ops = engine_solver();
    let gamma = 1.4f64;
    let dx = 1.0 / 16.0;
    let mut s = Solver::new(16, 4, 1, cfg(gamma, 0.4, dx, dx, Boundary::OutflowX)).unwrap();
    s.init_sod_x(&ops);
    for _ in 0..5 {
        let dt = s.compute_dt(&ops).unwrap();
        s.step(&ops, dt).unwrap();
    }
    assert_eq!(s.step_index(), 5);
    let floors = Floors { rho: 1e-12f64.to_bits(), p: 1e-12f64.to_bits() };
    let rho = s.grid.physical_field(Field::Rho);
    let rhou = s.grid.physical_field(Field::RhoU);
    let rhov = s.grid.physical_field(Field::RhoV);
    let e = s.grid.physical_field(Field::E);
    for t in 0..rho.len() {
        let r = f64::from_bits(rho[t]);
        assert!(r >= f64::from_bits(floors.rho), "density under floor: {r}");
        let u = f64::from_bits(rhou[t]) / r;
        let v = f64::from_bits(rhov[t]) / r;
        let p0 = (gamma - 1.0) * (f64::from_bits(e[t]) - r * (u * u + v * v) / 2.0);
        let p = if p0 < f64::from_bits(floors.p) { f64::from_bits(floors.p) } else { p0 };
        assert!(p >= f64::from_bits(floors.p));
    }
}

#[test]
fn failed_step_commits_nothing() {
    let ops = engine_solver();
    let gamma = 1.4f64;
    let mut s = Solver::new(8, 2, 1, cfg(gamma, 0.4, 1.0 / 8.0, 0.5, Boundary::OutflowX)).unwrap();
    s.init_sod_x(&ops);
    let rho_before = s.grid.physical_field(Field::Rho);
    let diag_before = s.diagnostics().clone();
    // an absurdly large step drives densities negative
    let r = s.step(&ops, 1e6f64.to_bits());
    match r {
        Err(SolverError::NonPhysical { why, .. }) => assert_eq!(why, "rho <= 0"),
        other => panic!("expected NonPhysical, got {:?}", other),
    }
    assert_eq!(s.step_index(), 0);
    assert_eq!(*s.diagnostics(), diag_before);
    assert_eq!(s.grid.physical_field(Field::Rho), rho_before);
}

#[test]
fn degenerate_interfaces_are_counted_and_floors_applied() {
    let ops = engine_solver();
    let gamma = 1.4f64;
    let nx = 4usize;
    let ny = 3usize;
    let mut s = Solver::new(nx, ny, 1, cfg(gamma, 0.4, 0.25, 0.25, Boundary::Periodic)).unwrap();
    // a uniform still gas with vanishing pressure: every wave-speed
    // bracket is degenerate, and every cell's pressure sits under the
    // floor
    let c = cons_of(1.0, 0.0, 0.0, 1e-304, gamma);
    for j in 0..ny {
        for i in 0..nx {
            let (r, col) = s.grid.idx_with_ghost(i, j);
            s.grid.set_cell(r, col, c);
        }
    }
    s.step(&ops, 1e-3f64.to_bits()).unwrap();
    let d = s.diagnostics();
    let n_interfaces = (ny * (nx + 1) + (ny + 1) * nx) as u64;
    assert_eq!(d.hll_to_llf_fallbacks, n_interfaces);
    assert_eq!(d.floors_p, (nx * ny) as u64);
    assert_eq!(d.floors_rho, 0);
}

#[test]
fn periodic_step_conserves_totals() {
    let ops = engine_solver();
    let gamma = 1.4f64;
    let nx = 8usize;
    let ny = 8usize;
    let dx = 1.0 / nx as f64;
    let mut s = Solver::new(nx, ny, 1, cfg(gamma, 0.4, dx, dx, Boundary::Periodic)).unwrap();
    let tau = 2.0 * std::f64::consts::PI;
    for j in 0..ny {
        for i in 0..nx {
            let rho = 1.0 + 0.2 * (tau * i as f64 / nx as f64).sin() * (tau * j as f64
                / ny as f64).cos();
            let c = cons_of(rho, 0.1, 0.05, 1.0, gamma);
            let (r, col) = s.grid.idx_with_ghost(i, j);
            s.grid.set_cell(r, col, c);
        }
    }
    let sums = |s: &Solver| -> [f64; 4] {
        let mut out = [0.0f64; 4];
        for (k, f) in [Field::Rho, Field::RhoU, Field::RhoV, Field::E].iter().enumerate() {
            for b in s.grid.physical_field(*f) {
                out[k] += f64::from_bits(b);
            }
        }
        out
    };
    let before = sums(&s);
    for _ in 0..5 {
        let dt = s.compute_dt(&ops).unwrap();
        s.step(&ops, dt).unwrap();
    }
    let after = sums(&s);
    for k in 0..4 {
        let scale = before[k].abs().max(1.0);
        assert!(
            (after[k] - before[k]).abs() / scale < 1e-10,
            "field {k} drifted: {} vs {}",
            before[k],
            after[k]
        );
    }
}
