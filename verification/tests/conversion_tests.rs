//! The conservative/primitive conversions: exact values, the round
//! trip, the floor clamps and every error variant.

use hll_core::prim::{
    cons_to_prim_checked, cons_to_prim_unchecked, prim_to_cons_checked, prim_to_cons_unchecked,
};
use hll_core::{Cons, Floors, FloatOps, Prim, SolverError};

fn engine_conv() -> FloatOps<impl Fn(u8, u64, u64) -> u64> {
    FloatOps::new(|op: u8, a: u64, b: u64| -> u64 {
        let x = f64::from_bits(a);
        let y = f64::from_bits(b);
        let r = match op {
            0 => x + y,
            1 => x - y,
            2 => x * y,
            3 => x / y,
            4 => x.sqrt(),
            _ => f64::NAN,
        };
        if r.is_nan() {
            f64::NAN.to_bits()
        } else {
            r.to_bits()
        }
    })
}

fn cons_of(rho: f64, u: f64, v: f64, p: f64, gamma: f64) -> Cons {
    Cons {
        rho: rho.to_bits(),
        rhou: (rho * u).to_bits(),
        rhov: (rho * v).to_bits(),
        e: (p / (gamma - 1.0) + rho * (u * u + v * v) / 2.0).to_bits(),
    }
}

#[test]
fn cons_to_prim_exact_value() {
    let ops = engine_conv();
    let gamma = 1.4f64;
    let c = cons_of(1.3, 0.4, -0.2, 0.9, gamma);
    let pr = cons_to_prim_unchecked(&ops, c, gamma.to_bits());
    // the same arithmetic, written out
    let rho = f64::from_bits(c.rho);
    let u = f64::from_bits(c.rhou) / rho;
    let v = f64::from_bits(c.rhov) / rho;
    let p = (gamma - 1.0) * (f64::from_bits(c.e) - rho * (u * u + v * v) / 2.0);
    let a = (gamma * p / rho).sqrt();
    assert_eq!(pr.u, u.to_bits());
    assert_eq!(pr.v, v.to_bits());
    assert_eq!(pr.p, p.to_bits());
    assert_eq!(pr.a, a.to_bits());
}

#[test]
fn prim_to_cons_exact_value() {
    let ops = engine_conv();
    let gamma = 1.4f64;
    let u = 0.3f64;
    let v = -0.1f64;
    let p = 0.7f64;
    let rho = 1.1f64;
    let a = (gamma * p / rho).sqrt();
    let pr = Prim { u: u.to_bits(), v: v.to_bits(), p: p.to_bits(), a: a.to_bits() };
    let c = prim_to_cons_unchecked(&ops, pr, gamma.to_bits());
    let rho2 = gamma * p / (a * a);
    assert_eq!(c.rho, rho2.to_bits());
    assert_eq!(c.rhou, (rho2 * u).to_bits());
    assert_eq!(c.rhov, (rho2 * v).to_bits());
    assert_eq!(c.e, (p / (gamma - 1.0) + rho2 * (u * u + v * v) / 2.0).to_bits());
}

#[test]
fn round_trip_cons_prim_cons() {
    let ops = engine_conv();
    let gamma = 1.4f64;
    let cases = [
        (1.0, 0.0, 0.0, 1.0),
        (0.125, 0.0, 0.0, 0.1),
        (1.3, 0.4, -0.2, 0.9),
        (2.7, -1.5, 0.8, 3.2),
        (1e-3, 0.01, -0.02, 1e-3),
    ];
    for &(rho, u, v, p) in cases.iter() {
        let c = cons_of(rho, u, v, p, gamma);
        let pr = cons_to_prim_unchecked(&ops, c, gamma.to_bits());
        let c2 = prim_to_cons_unchecked(&ops, pr, gamma.to_bits());
        for (orig, back) in [(c.rho, c2.rho), (c.rhou, c2.rhou), (c.rhov, c2.rhov), (c.e, c2.e)] {
            let o = f64::from_bits(orig);
            let bk = f64::from_bits(back);
            let scale = o.abs().max(1e-300);
            assert!(
                (o - bk).abs() / scale < 1e-12,
                "round trip {rho} {u} {v} {p}: {o} vs {bk}"
            );
        }
    }
}

#[test]
fn round_trip_prim_cons_prim() {
    let ops = engine_conv();
    let gamma = 1.4f64;
    let rho = 0.9f64;
    let (u, v, p) = (0.25f64, -0.5f64, 1.7f64);
    let a = (gamma * p / rho).sqrt();
    let pr = Prim { u: u.to_bits(), v: v.to_bits(), p: p.to_bits(), a: a.to_bits() };
    let c = prim_to_cons_unchecked(&ops, pr, gamma.to_bits());
    let pr2 = cons_to_prim_unchecked(&ops, c, gamma.to_bits());
    for (orig, back) in [(pr.u, pr2.u), (pr.v, pr2.v), (pr.p, pr2.p), (pr.a, pr2.a)] {
        let o = f64::from_bits(orig);
        let bk = f64::from_bits(back);
        assert!((o - bk).abs() / o.abs().max(1e-300) < 1e-12);
    }
}

#[test]
fn checked_c2p_rejects_negative_density() {
    let ops = engine_conv();
    let floors = Floors { rho: 1e-12f64.to_bits(), p: 1e-12f64.to_bits() };
    let c = Cons { rho: (-1.0f64).to_bits(), rhou: 0, rhov: 0, e: 1.0f64.to_bits() };
    let r = cons_to_prim_checked(&ops, c, 1.4f64.to_bits(), floors, 3, 5);
    match r {
        Err(SolverError::NonPhysical { i, j, why }) => {
            assert_eq!(i, 3);
            assert_eq!(j, 5);
            assert_eq!(why, "rho <= 0");
        }
        other => panic!("expected NonPhysical, got {:?}", other),
    }
}

#[test]
fn checked_c2p_rejects_infinite_velocity() {
    let ops = engine_conv();
    let floors = Floors { rho: 1e-12f64.to_bits(), p: 1e-12f64.to_bits() };
    // zero density, positive momentum: u = rhou / 0 = infinity
    let c = Cons { rho: 0.0f64.to_bits(), rhou: 1.0f64.to_bits(), rhov: 0, e: 1.0f64.to_bits() };
    let r = cons_to_prim_checked(&ops, c, 1.4f64.to_bits(), floors, 0, 0);
    match r {
        Err(SolverError::NonPhysical { why, .. }) => assert_eq!(why, "NaN/Inf"),
        other => panic!("expected NonPhysical, got {:?}", other),
    }
}

#[test]
fn checked_c2p_clamps_pressure_to_floor() {
    let ops = engine_conv();
    let pf = 1e-12f64;
    let floors = Floors { rho: 1e-12f64.to_bits(), p: pf.to_bits() };
    // energy below kinetic: raw pressure negative, clamped to the floor
    let c = cons_of(1.0, 1.0, 0.0, 1.0, 1.4);
    let low = Cons { e: 0.1f64.to_bits(), ..c };
    let (pr, clamped) = cons_to_prim_checked(&ops, low, 1.4f64.to_bits(), floors, 0, 0).unwrap();
    assert!(clamped);
    assert_eq!(pr.p, pf.to_bits());
}

#[test]
fn checked_p2c_rejects_negative_pressure() {
    let ops = engine_conv();
    let floors = Floors { rho: 1e-12f64.to_bits(), p: 1e-12f64.to_bits() };
    let pr = Prim { u: 0, v: 0, p: (-0.5f64).to_bits(), a: 1.0f64.to_bits() };
    let r = prim_to_cons_checked(&ops, pr, 1.4f64.to_bits(), floors, 1, 2);
    match r {
        Err(SolverError::NonPhysical { i, j, why }) => {
            assert_eq!((i, j), (1, 2));
            assert_eq!(why, "p <= 0");
        }
        other => panic!("expected NonPhysical, got {:?}", other),
    }
}

#[test]
fn checked_p2c_clamps_density_to_floor() {
    let ops = engine_conv();
    let rf = 1e-12f64;
    let floors = Floors { rho: rf.to_bits(), p: 1e-12f64.to_bits() };
    // enormous sound speed: rho = gamma*p/a^2 under the floor
    let pr = Prim { u: 0, v: 0, p: 1.0f64.to_bits(), a: 1e200f64.to_bits() };
    let (c, clamped) = prim_to_cons_checked(&ops, pr, 1.4f64.to_bits(), floors, 0, 0).unwrap();
    assert!(clamped);
    assert_eq!(c.rho, rf.to_bits());
}
