use pixelgen::float_bits::{f32_abs, f32_is_nan, f32_le, f32_lt};

fn sample_values() -> Vec<f32> {
    vec![
        0.0,
        -0.0,
        1.0,
        -1.0,
        1.5,
        -2.5,
        5.0,
        -5.0,
        400.0,
        -565.685,
        f32::MIN_POSITIVE,
        -f32::MIN_POSITIVE,
        1.0e-40,
        -1.0e-40,
        f32::MAX,
        f32::MIN,
        f32::INFINITY,
        f32::NEG_INFINITY,
        f32::NAN,
        -f32::NAN,
    ]
}

/// The bit-pattern comparisons agree with hardware float comparison on a
/// grid of values covering both zeros, subnormals, infinities and NaNs.
#[test]
fn comparisons_agree_with_hardware() {
    for &a in &sample_values() {
        for &b in &sample_values() {
            assert_eq!(f32_lt(a.to_bits(), b.to_bits()), a < b, "lt {a} {b}");
            assert_eq!(f32_le(a.to_bits(), b.to_bits()), a <= b, "le {a} {b}");
        }
    }
}

/// The bit-pattern absolute value and NaN test agree with hardware.
#[test]
fn abs_and_nan_test_agree_with_hardware() {
    for &a in &sample_values() {
        assert_eq!(f32_is_nan(a.to_bits()), a.is_nan(), "is_nan {a}");
        assert_eq!(f32_abs(a.to_bits()), a.abs().to_bits(), "abs {a}");
    }
}
