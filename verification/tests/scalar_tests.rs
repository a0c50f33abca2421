use game_engine::scalar::{Scalar, Vec3, INFINITY_BITS, ONE_BITS, SIGN_BIT, ZERO_BITS};

fn s(x: f32) -> Scalar {
    Scalar::from_bits(x.to_bits())
}

fn f(x: Scalar) -> f32 {
    f32::from_bits(x.to_bits())
}

fn samples() -> Vec<f32> {
    let mut v = vec![
        0.0,
        -0.0,
        1.0,
        -1.0,
        0.5,
        2.5,
        -2.5,
        10.0,
        30.0,
        50.0,
        60.0,
        1.0e-40,
        -1.0e-40,
        f32::MIN_POSITIVE,
        f32::MAX,
        f32::MIN,
        f32::INFINITY,
        f32::NEG_INFINITY,
        f32::NAN,
        -f32::NAN,
        f32::EPSILON,
        std::f32::consts::PI,
    ];
    let mut bits: u32 = 0x1234_5678;
    for _ in 0..200 {
        bits = bits.wrapping_mul(1664525).wrapping_add(1013904223);
        v.push(f32::from_bits(bits));
    }
    v
}

#[test]
fn constants_are_the_bits_of_the_numbers() {
    assert_eq!(ZERO_BITS, 0.0f32.to_bits());
    assert_eq!(ONE_BITS, 1.0f32.to_bits());
    assert_eq!(INFINITY_BITS, f32::INFINITY.to_bits());
    assert_eq!(SIGN_BIT, (-0.0f32).to_bits());
    assert_eq!(f(Scalar::zero()), 0.0);
    assert_eq!(f(Scalar::one()), 1.0);
}

#[test]
fn order_agrees_with_the_hardware() {
    let v = samples();
    for &a in &v {
        for &b in &v {
            assert_eq!(s(a).lt(s(b)), a < b, "{a} < {b}");
            assert_eq!(s(a).le(s(b)), a <= b, "{a} <= {b}");
            assert_eq!(s(a).gt(s(b)), a > b, "{a} > {b}");
            assert_eq!(s(a).ge(s(b)), a >= b, "{a} >= {b}");
        }
    }
}

#[test]
fn nan_is_recognised() {
    for &a in &samples() {
        assert_eq!(s(a).is_nan(), a.is_nan());
    }
    assert!(!s(f32::INFINITY).is_nan());
    assert!(s(f32::NAN).is_nan());
}

#[test]
fn abs_agrees_with_the_hardware() {
    for &a in &samples() {
        assert_eq!(s(a).abs().to_bits(), a.abs().to_bits());
    }
    assert_eq!(f(s(-2.5).abs()), 2.5);
}

#[test]
fn clamp_agrees_with_the_hardware() {
    for &a in &samples() {
        let got = s(a).clamp(s(0.0), s(1.0));
        let want = a.clamp(0.0, 1.0);
        assert_eq!(got.to_bits(), want.to_bits(), "clamp of {a}");
        assert_eq!(s(a).clamp_unit().to_bits(), want.to_bits());
        let got = s(a).clamp(s(-3.0), s(7.5));
        assert_eq!(got.to_bits(), a.clamp(-3.0, 7.5).to_bits());
    }
    assert_eq!(f(s(1.5).clamp_unit()), 1.0);
    assert_eq!(f(s(-0.5).clamp_unit()), 0.0);
    assert_eq!(f(s(0.25).clamp_unit()), 0.25);
    assert!(f(s(f32::NAN).clamp_unit()).is_nan());
}

#[test]
fn max_agrees_with_the_hardware() {
    for &a in &samples() {
        for &b in &[0.8f32, -0.3, 0.0, f32::NAN, f32::INFINITY, 2.0e-40] {
            let got = f(s(a).max(s(b)));
            let want = a.max(b);
            assert!(got == want || (got.is_nan() && want.is_nan()), "max of {a} and {b}");
        }
    }
    assert_eq!(f(s(0.3).max(s(0.8))), 0.8);
    assert_eq!(f(s(f32::NAN).max(s(0.8))), 0.8);
}

#[test]
fn unit_interval_has_its_ends() {
    assert!(s(0.0).is_in_unit_interval());
    assert!(s(-0.0).is_in_unit_interval());
    assert!(s(1.0).is_in_unit_interval());
    assert!(s(0.3).is_in_unit_interval());
    assert!(!s(1.0000001).is_in_unit_interval());
    assert!(!s(-1.0e-10).is_in_unit_interval());
    assert!(!s(f32::NAN).is_in_unit_interval());
    for &a in &samples() {
        assert_eq!(s(a).is_in_unit_interval(), (0.0..=1.0).contains(&a));
        if !a.is_nan() {
            assert!(s(a).clamp_unit().is_in_unit_interval());
        }
    }
}

#[test]
fn mod_test_new() {
    let v = Vec3::new(s(1.0), s(2.0), s(3.0));
    assert_eq!(f(v.x), 1.0);
    assert_eq!(f(v.y), 2.0);
    assert_eq!(f(v.z), 3.0);
}

#[test]
fn mod_test_zero() {
    let v = Vec3::zero();
    assert_eq!(f(v.x), 0.0);
    assert_eq!(f(v.y), 0.0);
    assert_eq!(f(v.z), 0.0);
}

#[test]
fn mod_test_default() {
    let v = Vec3::default();
    assert_eq!(f(v.x), 0.0);
    assert_eq!(f(v.y), 0.0);
    assert_eq!(f(v.z), 0.0);
    assert_eq!(v, Vec3::new(s(0.0), s(0.0), s(0.0)));
}
