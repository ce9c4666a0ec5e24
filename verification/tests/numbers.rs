use sylvac::mm_to_string;
use sylvac::u64_to_string;

#[test]
fn decimal_of_zero() {
    assert_eq!(u64_to_string(0), "0");
}

#[test]
fn decimal_keeps_inner_zeroes() {
    assert_eq!(u64_to_string(120), "120");
    assert_eq!(u64_to_string(1002), "1002");
}

#[test]
fn decimal_of_largest_value() {
    assert_eq!(u64_to_string(u64::MAX), "18446744073709551615");
}

#[test]
fn millimetres_of_sample_value() {
    assert_eq!(mm_to_string(12_345), "12.345");
}

#[test]
fn millimetres_pad_the_fraction() {
    assert_eq!(mm_to_string(7), "0.007");
    assert_eq!(mm_to_string(70), "0.070");
    assert_eq!(mm_to_string(700), "0.700");
    assert_eq!(mm_to_string(0), "0.000");
    assert_eq!(mm_to_string(1_000_000), "1000.000");
}
