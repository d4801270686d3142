use subwave_present::half_float::f16_bits_from_f32_bits;

fn pack(v: f32) -> u16 {
    f16_bits_from_f32_bits(v.to_bits())
}

#[test]
fn packs_zero_and_sign() {
    assert_eq!(pack(0.0), 0x0000);
    assert_eq!(pack(-0.0), 0x8000);
}

#[test]
fn packs_simple_values() {
    assert_eq!(pack(1.0), 0x3c00);
    assert_eq!(pack(-2.0), 0xc000);
    assert_eq!(pack(0.5), 0x3800);
    assert_eq!(pack(65504.0), 0x7bff);
}

#[test]
fn rounds_mantissa_toward_zero() {
    // 1/3 in single precision starts with mantissa 0x2aaaab; the top ten
    // bits survive.
    assert_eq!(pack(1.0 / 3.0), 0x3555);
}

#[test]
fn overflow_returns_infinity() {
    assert_eq!(pack(1.0e6), 0x7c00);
    assert_eq!(pack(-1.0e6), 0xfc00);
    assert_eq!(pack(f32::INFINITY), 0x7c00);
    assert_eq!(pack(f32::NEG_INFINITY), 0xfc00);
}

#[test]
fn underflow_flushes_to_signed_zero() {
    assert_eq!(pack(1.0e-8), 0x0000);
    assert_eq!(pack(-1.0e-8), 0x8000);
}

#[test]
fn nan_stays_nan() {
    let r = pack(f32::NAN);
    // Exponent all ones with a nonzero mantissa bit.
    assert_eq!(r & 0x7c00, 0x7c00);
    assert_ne!(r & 0x03ff, 0);
}
