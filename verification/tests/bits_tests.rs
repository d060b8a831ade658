// The bit-pattern predicates must agree with the floating-point
// semantics of the encoded values: `is_finite` with `f64::is_finite`,
// and `lt` with `<` on finite values.

use incr_stats::bits::is_finite;
use incr_stats::bits::lt;

fn sample_values() -> Vec<f64> {
    vec![
        0.0,
        -0.0,
        1.0,
        -1.0,
        2.3,
        -2.3,
        0.5,
        -0.5,
        1e-300,
        -1e-300,
        5e-324,
        -5e-324,
        1e300,
        -1e300,
        f64::MAX,
        f64::MIN,
        f64::MIN_POSITIVE,
        115.0,
        -123.4,
        12.3,
        -0.03,
    ]
}

#[test]
fn test_is_finite_matches_f64() {
    for v in sample_values() {
        assert_eq!(is_finite(v.to_bits()), v.is_finite(), "value {v}");
    }
    assert!(!is_finite(f64::NAN.to_bits()));
    assert!(!is_finite((-f64::NAN).to_bits()));
    assert!(!is_finite(f64::INFINITY.to_bits()));
    assert!(!is_finite(f64::NEG_INFINITY.to_bits()));
}

#[test]
fn test_lt_matches_f64_order() {
    let values = sample_values();
    for &a in &values {
        for &b in &values {
            assert_eq!(
                lt(a.to_bits(), b.to_bits()),
                a < b,
                "values {a} and {b}"
            );
        }
    }
}

#[test]
fn test_lt_treats_zero_encodings_as_equal() {
    let pos = (0.0f64).to_bits();
    let neg = (-0.0f64).to_bits();
    assert!(!lt(pos, neg));
    assert!(!lt(neg, pos));
}
