use worldgen_core::scalar::{u32_le_bytes, Scalar};

fn s(v: f32) -> Scalar {
    Scalar::from_bits(v.to_bits())
}

fn samples() -> Vec<f32> {
    vec![
        0.0,
        -0.0,
        1.0,
        -1.0,
        0.5,
        0.5000001,
        1e-45,
        -1e-45,
        1e-38,
        3.4e38,
        -3.4e38,
        f32::INFINITY,
        f32::NEG_INFINITY,
        f32::NAN,
        f32::from_bits(0xFFC0_0001),
        f32::MIN_POSITIVE,
        8.0,
        0.85,
        -8.0,
    ]
}

#[test]
fn comparisons_agree_with_the_numbers() {
    for a in samples() {
        for b in samples() {
            assert_eq!(s(a).lt(s(b)), a < b, "{a} < {b}");
            assert_eq!(s(a).le(s(b)), a <= b, "{a} <= {b}");
            assert_eq!(s(a).gt(s(b)), a > b, "{a} > {b}");
            assert_eq!(s(a).ge(s(b)), a >= b, "{a} >= {b}");
        }
    }
}

#[test]
fn nan_is_recognised() {
    for a in samples() {
        assert_eq!(s(a).nan(), a.is_nan());
    }
}

#[test]
fn zeros_compare_equal_but_differ_in_bits() {
    assert!(s(0.0).le(s(-0.0)));
    assert!(s(-0.0).le(s(0.0)));
    assert!(!s(0.0).lt(s(-0.0)));
    assert_ne!(s(0.0), s(-0.0));
    assert_eq!(s(0.0).to_bits(), 0);
    assert_eq!(s(-0.0).to_bits(), 0x8000_0000);
}

#[test]
fn bytes_are_little_endian() {
    assert_eq!(u32_le_bytes(0x0403_0201), [1, 2, 3, 4]);
    assert_eq!(u32_le_bytes(0), [0, 0, 0, 0]);
    assert_eq!(u32_le_bytes(u32::MAX), [255, 255, 255, 255]);
    for v in samples() {
        assert_eq!(s(v).to_le_bytes(), v.to_bits().to_le_bytes());
    }
}
