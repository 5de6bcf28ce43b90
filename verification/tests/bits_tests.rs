//! The bit-level comparisons and classifications against the machine's
//! own f64 semantics.

use hll_core::bits;

fn b(x: f64) -> u64 {
    x.to_bits()
}

#[test]
fn lt_matches_f64_ordering() {
    let samples = [
        0.0f64,
        -0.0,
        1.0,
        -1.0,
        0.125,
        -0.125,
        1e-300,
        -1e-300,
        1e300,
        -1e300,
        f64::INFINITY,
        f64::NEG_INFINITY,
        f64::NAN,
        5e-324,
        -5e-324,
        2.5,
        -3.75,
    ];
    for &x in samples.iter() {
        for &y in samples.iter() {
            assert_eq!(bits::lt(b(x), b(y)), x < y, "lt {x} {y}");
            assert_eq!(bits::le(b(x), b(y)), x <= y, "le {x} {y}");
        }
    }
}

#[test]
fn classification_matches_f64() {
    let samples = [0.0f64, -0.0, 1.0, -1.0, f64::INFINITY, f64::NEG_INFINITY, f64::NAN, 5e-324];
    for &x in samples.iter() {
        assert_eq!(bits::is_nan(b(x)), x.is_nan(), "nan {x}");
        assert_eq!(bits::is_infinite(b(x)), x.is_infinite(), "inf {x}");
        assert_eq!(bits::is_finite(b(x)), x.is_finite(), "fin {x}");
        assert_eq!(bits::abs(b(x)), b(x.abs()), "abs {x}");
    }
}

#[test]
fn min_max_select_by_comparison() {
    assert_eq!(bits::min(b(2.0), b(3.0)), b(2.0));
    assert_eq!(bits::min(b(3.0), b(2.0)), b(2.0));
    assert_eq!(bits::max(b(2.0), b(3.0)), b(3.0));
    assert_eq!(bits::max(b(-1.0), b(-2.0)), b(-1.0));
    // ties and NaN keep the first operand
    assert_eq!(bits::min(b(0.0), b(-0.0)), b(0.0));
    assert_eq!(bits::max(f64::NAN.to_bits(), b(1.0)), f64::NAN.to_bits());
}
