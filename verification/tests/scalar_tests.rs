use pathtracer::ray::Ray;
use pathtracer::scalar::{Scalar, INFINITY_BITS, SIGN_BIT};
use pathtracer::vec3::{Vec3, NEAR_ZERO_BITS};

fn sc(x: f64) -> Scalar {
    Scalar::from_bits(x.to_bits())
}

fn fl(x: Scalar) -> f64 {
    f64::from_bits(x.to_bits())
}

fn sc_samples() -> Vec<f64> {
    vec![
        0.0,
        -0.0,
        1.0,
        -1.0,
        0.5,
        -0.5,
        0.001,
        0.999,
        1e-8,
        -1e-8,
        1e-320,
        -1e-320,
        5e-324,
        f64::MIN_POSITIVE,
        3.5,
        -3.5,
        555.0,
        1e300,
        -1e300,
        f64::MAX,
        f64::MIN,
        f64::INFINITY,
        f64::NEG_INFINITY,
        f64::NAN,
        -f64::NAN,
        f64::from_bits(0x7ff0_0000_0000_0001),
        f64::from_bits(0xfff8_0000_0000_0000),
    ]
}

#[test]
fn comparisons_agree_with_the_hardware() {
    for &a in &sc_samples() {
        for &b in &sc_samples() {
            assert_eq!(sc(a).lt(sc(b)), a < b, "{} < {}", a, b);
            assert_eq!(sc(a).le(sc(b)), a <= b, "{} <= {}", a, b);
            assert_eq!(sc(a).gt(sc(b)), a > b, "{} > {}", a, b);
            assert_eq!(sc(a).ge(sc(b)), a >= b, "{} >= {}", a, b);
            assert_eq!(sc(a).eq_num(sc(b)), a == b, "{} == {}", a, b);
        }
    }
}

#[test]
fn total_order_agrees_with_total_cmp() {
    for &a in &sc_samples() {
        for &b in &sc_samples() {
            let expected = a.total_cmp(&b) == std::cmp::Ordering::Less;
            assert_eq!(sc(a).total_lt(sc(b)), expected, "{} before {}", a, b);
        }
    }
}

#[test]
fn nan_and_sign_are_read_from_the_bits() {
    for &a in &sc_samples() {
        assert_eq!(sc(a).is_nan(), a.is_nan());
        assert_eq!(sc(a).is_sign_negative(), a.is_sign_negative());
    }
}

#[test]
fn neg_and_abs_are_exact() {
    for &a in &sc_samples() {
        assert_eq!(sc(a).neg().to_bits(), (-a).to_bits());
        assert_eq!(sc(a).abs().to_bits(), a.abs().to_bits());
        assert_eq!(sc(a).neg().neg().to_bits(), a.to_bits());
    }
}

#[test]
fn min_and_max_agree_with_the_hardware_on_numbers() {
    for &a in &sc_samples() {
        for &b in &sc_samples() {
            let lo = fl(sc(a).min(sc(b)));
            let hi = fl(sc(a).max(sc(b)));
            if a.is_nan() && b.is_nan() {
                assert!(lo.is_nan() && hi.is_nan());
            } else {
                // equal as numbers; the hardware may pick either zero
                assert_eq!(lo, a.min(b), "min({}, {})", a, b);
                assert_eq!(hi, a.max(b), "max({}, {})", a, b);
            }
        }
    }
}

#[test]
fn min_prefers_negative_zero_and_max_positive_zero() {
    assert_eq!(sc(0.0).min(sc(-0.0)).to_bits(), (-0.0f64).to_bits());
    assert_eq!(sc(-0.0).min(sc(0.0)).to_bits(), (-0.0f64).to_bits());
    assert_eq!(sc(0.0).max(sc(-0.0)).to_bits(), 0.0f64.to_bits());
    assert_eq!(sc(-0.0).max(sc(0.0)).to_bits(), 0.0f64.to_bits());
}

#[test]
fn min_and_max_are_commutative_and_associative_on_numbers() {
    let numbers: Vec<f64> = sc_samples().into_iter().filter(|x| !x.is_nan()).collect();
    for &a in &numbers {
        for &b in &numbers {
            assert_eq!(sc(a).min(sc(b)).to_bits(), sc(b).min(sc(a)).to_bits());
            assert_eq!(sc(a).max(sc(b)).to_bits(), sc(b).max(sc(a)).to_bits());
            for &c in &numbers {
                assert_eq!(
                    sc(a).min(sc(b)).min(sc(c)).to_bits(),
                    sc(a).min(sc(b).min(sc(c))).to_bits()
                );
                assert_eq!(
                    sc(a).max(sc(b)).max(sc(c)).to_bits(),
                    sc(a).max(sc(b).max(sc(c))).to_bits()
                );
            }
        }
    }
}

#[test]
fn clamp_agrees_with_the_hardware() {
    for &a in &sc_samples() {
        let got = sc(a).clamp(sc(0.0), sc(0.999));
        let expected = a.clamp(0.0, 0.999);
        assert_eq!(got.to_bits(), expected.to_bits(), "clamp({})", a);
        let got = sc(a).clamp(sc(-2.5), sc(-2.5));
        let expected = a.clamp(-2.5, -2.5);
        assert_eq!(got.to_bits(), expected.to_bits(), "clamp({})", a);
    }
}

#[test]
fn constants_have_the_documented_values() {
    assert_eq!(fl(Scalar::zero()), 0.0);
    assert_eq!(Scalar::zero().to_bits(), 0);
    assert_eq!(fl(Scalar::one()), 1.0);
    assert_eq!(fl(Scalar::infinity()), f64::INFINITY);
    assert_eq!(fl(Scalar::max_finite()), f64::MAX);
    assert_eq!(INFINITY_BITS, f64::INFINITY.to_bits());
    assert_eq!(SIGN_BIT, (-0.0f64).to_bits());
    assert_eq!(NEAR_ZERO_BITS, 1e-8f64.to_bits());
}

#[test]
fn vec3_components_can_be_read_and_replaced() {
    let mut v = Vec3::new(sc(1.0), sc(2.0), sc(3.0));
    assert_eq!(fl(v.x()), 1.0);
    assert_eq!(fl(v.y()), 2.0);
    assert_eq!(fl(v.z()), 3.0);
    for i in 0..3 {
        assert_eq!(fl(v.get(i)), (i + 1) as f64);
    }
    v.set(1, sc(-7.0));
    assert_eq!((fl(v.0), fl(v.1), fl(v.2)), (1.0, -7.0, 3.0));
    v.set(0, sc(4.0));
    v.set(2, sc(9.0));
    assert_eq!((fl(v.0), fl(v.1), fl(v.2)), (4.0, -7.0, 9.0));
    let w = Vec3::new(sc(0.25), sc(0.5), sc(0.75));
    v.assign(&w);
    assert_eq!((fl(v.0), fl(v.1), fl(v.2)), (0.25, 0.5, 0.75));
}

#[test]
fn vec3_default_is_zero_and_neg_flips_every_sign() {
    let z = Vec3::default();
    assert_eq!((z.0.to_bits(), z.1.to_bits(), z.2.to_bits()), (0, 0, 0));
    let v = Vec3::new(sc(1.0), sc(-2.0), sc(0.0)).neg();
    assert_eq!(fl(v.0), -1.0);
    assert_eq!(fl(v.1), 2.0);
    assert_eq!(v.2.to_bits(), (-0.0f64).to_bits());
}

#[test]
fn near_zero_needs_every_component_below_the_threshold() {
    assert!(Vec3::new(sc(0.0), sc(0.0), sc(0.0)).near_zero());
    assert!(Vec3::new(sc(9.9e-9), sc(-9.9e-9), sc(1e-12)).near_zero());
    assert!(!Vec3::new(sc(1e-8), sc(0.0), sc(0.0)).near_zero());
    assert!(!Vec3::new(sc(0.0), sc(-1e-8), sc(0.0)).near_zero());
    assert!(!Vec3::new(sc(0.0), sc(0.0), sc(2e-8)).near_zero());
    assert!(!Vec3::new(sc(f64::NAN), sc(0.0), sc(0.0)).near_zero());
}

#[test]
fn ray_keeps_what_it_is_made_of() {
    let r = Ray::new(
        Vec3::new(sc(1.0), sc(2.0), sc(3.0)),
        Vec3::new(sc(0.0), sc(-1.0), sc(0.5)),
        sc(0.75),
    );
    assert_eq!((fl(r.origin().x()), fl(r.origin().y()), fl(r.origin().z())), (1.0, 2.0, 3.0));
    assert_eq!(
        (fl(r.direction().x()), fl(r.direction().y()), fl(r.direction().z())),
        (0.0, -1.0, 0.5)
    );
    assert_eq!(fl(r.time()), 0.75);
    let d = Ray::default();
    assert_eq!(d.origin().x().to_bits(), 0);
    assert_eq!(d.direction().z().to_bits(), 0);
    assert_eq!(d.time().to_bits(), 0);
}
