//! The HLL flux: consistency on a uniform state, donor-cell branches,
//! and the degenerate-bracket zero-flux fallback.

use hll_core::flux::{flux_x_hll, flux_y_hll};
use hll_core::{Cons, FloatOps};

fn engine_flux() -> FloatOps<impl Fn(u8, u64, u64) -> u64> {
    FloatOps::new(|op: u8, a: u64, b: u64| -> u64 {
        let x = f64::from_bits(a);
        let y = f64::from_bits(b);
        let r = match op {
            0 => x + y,
            1 => x - y,
            2 => x * y,
            3 => x / y,
            4 => x.sqrt(),
            _ => f64::NAN,
        };
        if r.is_nan() {
            f64::NAN.to_bits()
        } else {
            r.to_bits()
        }
    })
}

fn cons_of(rho: f64, u: f64, v: f64, p: f64, gamma: f64) -> Cons {
    Cons {
        rho: rho.to_bits(),
        rhou: (rho * u).to_bits(),
        rhov: (rho * v).to_bits(),
        e: (p / (gamma - 1.0) + rho * (u * u + v * v) / 2.0).to_bits(),
    }
}

fn phys_flux_x(c: Cons, gamma: f64) -> [f64; 4] {
    let rho = f64::from_bits(c.rho);
    let e = f64::from_bits(c.e);
    let u = f64::from_bits(c.rhou) / rho;
    let v = f64::from_bits(c.rhov) / rho;
    let p = (gamma - 1.0) * (e - rho * (u * u + v * v) / 2.0);
    [rho * u, rho * u * u + p, rho * u * v, (e + p) * u]
}

#[test]
fn uniform_state_flux_is_physical_flux() {
    let ops = engine_flux();
    let gamma = 1.4f64;
    // subsonic: the HLL blend must reduce to the physical flux up to
    // round-off
    let c = cons_of(1.0, 0.2, 0.1, 1.0, gamma);
    let (f, fallback) = flux_x_hll(&ops, c, c, gamma.to_bits());
    assert!(!fallback);
    let expect = phys_flux_x(c, gamma);
    let got = [f.rho, f.rhou, f.rhov, f.e].map(f64::from_bits);
    for k in 0..4 {
        assert!(
            (got[k] - expect[k]).abs() <= 1e-12 * expect[k].abs().max(1.0),
            "component {k}: {} vs {}",
            got[k],
            expect[k]
        );
    }
}

#[test]
fn supersonic_flux_is_exact_donor_flux() {
    let ops = engine_flux();
    let gamma = 1.4f64;
    // u far above the sound speed: s_l >= 0, the left donor flux is
    // returned without any blending arithmetic
    let l = cons_of(1.0, 10.0, 0.5, 1.0, gamma);
    let r = cons_of(0.5, 9.0, -0.5, 0.8, gamma);
    let (f, fallback) = flux_x_hll(&ops, l, r, gamma.to_bits());
    assert!(!fallback);
    let expect = phys_flux_x(l, gamma);
    assert_eq!(f64::from_bits(f.rho), expect[0]);
    assert_eq!(f64::from_bits(f.rhou), expect[1]);
    assert_eq!(f64::from_bits(f.rhov), expect[2]);
    assert_eq!(f64::from_bits(f.e), expect[3]);
}

#[test]
fn blended_flux_matches_formula_exactly() {
    let ops = engine_flux();
    let gamma = 1.4f64;
    // a subsonic pair: the bracket straddles zero and the HLL blend is
    // used; the result must equal the written-out formula bit for bit
    let l = cons_of(1.0, 0.2, 0.1, 1.0, gamma);
    let r = cons_of(0.7, -0.3, 0.05, 0.6, gamma);
    let (f, fallback) = flux_x_hll(&ops, l, r, gamma.to_bits());
    assert!(!fallback);
    let prim = |c: Cons| -> (f64, f64, f64, f64) {
        let rho = f64::from_bits(c.rho);
        let u = f64::from_bits(c.rhou) / rho;
        let v = f64::from_bits(c.rhov) / rho;
        let p = (gamma - 1.0) * (f64::from_bits(c.e) - rho * (u * u + v * v) / 2.0);
        (u, v, p, (gamma * p / rho).sqrt())
    };
    let (ul_, _, _, al) = prim(l);
    let (ur_, _, _, ar) = prim(r);
    let cand_l = ul_ - al;
    let cand_r = ur_ - ar;
    let sl = if cand_r < cand_l { cand_r } else { cand_l };
    let cand_l2 = ul_ + al;
    let cand_r2 = ur_ + ar;
    let sr = if cand_l2 < cand_r2 { cand_r2 } else { cand_l2 };
    assert!(sl < 0.0 && sr > 0.0);
    let denom = sr - sl;
    let fl = phys_flux_x(l, gamma);
    let fr = phys_flux_x(r, gamma);
    let ql = [l.rho, l.rhou, l.rhov, l.e].map(f64::from_bits);
    let qr = [r.rho, r.rhou, r.rhov, r.e].map(f64::from_bits);
    let got = [f.rho, f.rhou, f.rhov, f.e];
    for k in 0..4 {
        let expect = (sr * fl[k] - sl * fr[k] + sl * sr * (qr[k] - ql[k])) / denom;
        assert_eq!(got[k], expect.to_bits(), "component {k}");
    }
}

#[test]
fn zero_state_flux_is_exact_zero() {
    let ops = engine_flux();
    // zero velocity and zero pressure: all wave speeds vanish, and the
    // flux is exactly zero without any division fault
    let c = cons_of(1.0, 0.0, 0.0, 0.0, 1.4);
    let (f, _) = flux_x_hll(&ops, c, c, 1.4f64.to_bits());
    assert_eq!(f64::from_bits(f.rho), 0.0);
    assert_eq!(f64::from_bits(f.rhou), 0.0);
    assert_eq!(f64::from_bits(f.rhov), 0.0);
    assert_eq!(f64::from_bits(f.e), 0.0);
    let (g, _) = flux_y_hll(&ops, c, c, 1.4f64.to_bits());
    assert_eq!(f64::from_bits(g.rho), 0.0);
    assert_eq!(f64::from_bits(g.rhov), 0.0);
}

#[test]
fn degenerate_bracket_takes_zero_flux_fallback() {
    let ops = engine_flux();
    // a vanishing pressure gives wave speeds of about 1e-152: the
    // bracket straddles zero but is narrower than the threshold, so the
    // fallback returns the exact zero state and reports itself
    let c = cons_of(1.0, 0.0, 0.0, 1e-304, 1.4);
    let (f, fallback) = flux_x_hll(&ops, c, c, 1.4f64.to_bits());
    assert!(fallback);
    assert_eq!(f.rho, 0u64);
    assert_eq!(f.rhou, 0u64);
    assert_eq!(f.rhov, 0u64);
    assert_eq!(f.e, 0u64);
    let (g, fallback_y) = flux_y_hll(&ops, c, c, 1.4f64.to_bits());
    assert!(fallback_y);
    assert_eq!(g.rho, 0u64);
}
