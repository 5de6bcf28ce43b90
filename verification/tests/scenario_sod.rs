//! The reference scenario: a Sod shock tube on a 256 by 4 grid,
//! outflow along x and periodic along y, run to t = 0.2. The density
//! profile must stay inside the initial bounds, fall monotonically
//! from left to right, and show the three waves of the textbook
//! solution: a rarefaction, a contact discontinuity and a shock.

use hll_core::grid::Field;
use hll_core::{Boundary, Config, Floors, FloatOps, Solver};

fn engine_sod() -> FloatOps<impl Fn(u8, u64, u64) -> u64> {
    FloatOps::new(|op: u8, a: u64, b: u64| -> u64 {
        let x = f64::from_bits(a);
        let y = f64::from_bits(b);
        let r = match op {
            0 => x + y,
            1 => x - y,
            2 => x * y,
            3 => x / y,
            4 => x.sqrt(),
            _ => f64::NAN,
        };
        if r.is_nan() {
            f64::NAN.to_bits()
        } else {
            r.to_bits()
        }
    })
}

#[test]
fn sod_shock_tube_profile() {
    let ops = engine_sod();
    let nx = 256usize;
    let ny = 4usize;
    let gamma = 1.4f64;
    let dx = 1.0 / nx as f64;
    let cfg = Config {
        gamma: gamma.to_bits(),
        cfl: 0.4f64.to_bits(),
        dx: dx.to_bits(),
        dy: dx.to_bits(),
        floors: Floors { rho: 1e-12f64.to_bits(), p: 1e-12f64.to_bits() },
        bc: Boundary::OutflowX,
    };
    let mut s = Solver::new(nx, ny, 1, cfg).unwrap();
    s.init_sod_x(&ops);
    let t_end = 0.2f64;
    let mut t = 0.0f64;
    while t < t_end {
        let dt = f64::from_bits(s.compute_dt(&ops).unwrap());
        let dt = if t + dt > t_end { t_end - t } else { dt };
        s.step(&ops, dt.to_bits()).unwrap();
        t += dt;
        assert!(s.step_index() < 10_000, "step count ran away");
    }

    let rho_bits = s.grid.physical_field(Field::Rho);
    // one row of the tube; all rows are identical by symmetry
    let rho: Vec<f64> = rho_bits[0..nx].iter().map(|&b| f64::from_bits(b)).collect();

    // bounded by the initial states, with no oscillatory overshoot
    for (i, &r) in rho.iter().enumerate() {
        assert!(r <= 1.0 + 1e-6, "overshoot at {i}: {r}");
        assert!(r >= 0.125 - 1e-6, "undershoot at {i}: {r}");
    }
    // monotone decrease from left to right, up to a small tolerance
    for i in 1..nx {
        assert!(
            rho[i] <= rho[i - 1] + 1e-3,
            "profile not monotone at {i}: {} -> {}",
            rho[i - 1],
            rho[i]
        );
    }
    // the undisturbed ends
    assert!((rho[0] - 1.0).abs() < 1e-3, "left state moved: {}", rho[0]);
    assert!((rho[nx - 1] - 0.125).abs() < 1e-3, "right state moved: {}", rho[nx - 1]);
    // the two intermediate plateaus of the textbook solution: the
    // post-rarefaction state near 0.426 and the post-shock state near
    // 0.266 (first-order smearing leaves them within a few percent)
    let near = |target: f64, tol: f64| rho.iter().any(|&r| (r - target).abs() < tol);
    assert!(near(0.426, 0.03), "no post-rarefaction plateau");
    assert!(near(0.266, 0.03), "no post-shock plateau");
    // all three waves exist: strictly intermediate densities appear
    let n_mid = rho.iter().filter(|&&r| r < 0.99 && r > 0.13).count();
    assert!(n_mid > 20, "profile lost its interior structure");
}
