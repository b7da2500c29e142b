use runit::similarity::{is_similar, INFINITY_BITS, MAGNITUDE_MASK, THRESHOLD_BITS};

#[test]
fn threshold_is_the_pattern_of_eight_tenths() {
    assert_eq!(THRESHOLD_BITS, 0.8f64.to_bits());
    assert_eq!(INFINITY_BITS, f64::INFINITY.to_bits());
    assert_eq!(MAGNITUDE_MASK, !(-0.0f64).to_bits());
}

#[test]
fn scores_at_or_below_the_threshold_are_not_similar() {
    assert!(!is_similar(0.8f64.to_bits()));
    assert!(!is_similar(0.0f64.to_bits()));
    assert!(!is_similar(0.7999999f64.to_bits()));
    assert!(!is_similar((-0.5f64).to_bits()));
}

#[test]
fn scores_above_the_threshold_are_similar() {
    assert!(is_similar(0.8000001f64.to_bits()));
    assert!(is_similar(1.0f64.to_bits()));
    assert!(is_similar((-0.9f64).to_bits()));
    assert!(is_similar(f64::INFINITY.to_bits()));
}

#[test]
fn a_nan_is_never_similar() {
    assert!(!is_similar(f64::NAN.to_bits()));
    assert!(!is_similar((-f64::NAN).to_bits()));
}
