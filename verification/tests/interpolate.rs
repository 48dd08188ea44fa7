use noise::fixed::SCALE;
use noise::interpolate::{
    sawtooth, CosInterpolator, Interpolator, LinearInterpolator, PerlinInterpolator,
};

fn fx(x: f64) -> i64 {
    (x * 1073741824.0).round() as i64
}

fn fl(n: i64) -> f64 {
    n as f64 / 1073741824.0
}

#[test]
fn interpolate_linear_test() {
    let a = fx(10.0);
    let b = fx(20.0);
    let result = LinearInterpolator.interpolate(a, b, fx(0.75));
    assert!((fl(result) - 17.5).abs() < 0.0001);
    assert_eq!(result, fx(17.5));
}

#[test]
fn interpolate_perlin_test() {
    let a = fx(10.0);
    let b = fx(20.0);
    let result = PerlinInterpolator.interpolate(a, b, fx(0.75));
    assert!((fl(result) - 18.4375).abs() < 0.0001);
    assert_eq!(result, fx(18.4375));
}

#[test]
fn interpolate_cos_test() {
    let a = fx(10.0);
    let b = fx(20.0);
    let result = CosInterpolator.interpolate(a, b, fx(0.75));
    assert!((fl(result) - 18.5355).abs() < 0.0001);
}

#[test]
fn sawtooth_test() {
    assert!(sawtooth(fx(0.0)) == 0);

    assert!(sawtooth(fx(1.0)) == 0);
    assert!(sawtooth(fx(-1.0)) == 0);

    assert!(sawtooth(fx(1.25)) == fx(0.25));
    assert!(sawtooth(fx(-1.25)) == fx(0.75));
}

#[test]
fn interpolator_endpoints_test() {
    let a = fx(-3.5);
    let b = fx(12.25);
    assert_eq!(LinearInterpolator.interpolate(a, b, 0), a);
    assert_eq!(LinearInterpolator.interpolate(a, b, SCALE), b);
    assert_eq!(PerlinInterpolator.interpolate(a, b, 0), a);
    assert_eq!(PerlinInterpolator.interpolate(a, b, SCALE), b);
    assert_eq!(CosInterpolator.interpolate(a, b, 0), a);
    assert_eq!(CosInterpolator.interpolate(a, b, SCALE), b);
}

#[test]
fn interpolator_mirror_test() {
    let a = fx(10.0);
    let b = fx(20.0);
    for i in 0..=64 {
        let p = i * (SCALE / 64);
        let q = SCALE - p;
        assert!((LinearInterpolator.interpolate(a, b, p) + LinearInterpolator.interpolate(a, b, q)
            - (a + b))
            .abs() <= 1);
        assert!((PerlinInterpolator.interpolate(a, b, p) + PerlinInterpolator.interpolate(a, b, q)
            - (a + b))
            .abs() <= 1);
        assert!((CosInterpolator.interpolate(a, b, p) + CosInterpolator.interpolate(a, b, q) - (a
            + b))
            .abs() <= 1);
    }
}

#[test]
fn interpolator_monotonic_test() {
    let a = fx(-1.0);
    let b = fx(1.0);
    let mut prev_linear = a;
    let mut prev_perlin = a;
    for i in 0..=256 {
        let p = i * (SCALE / 256);
        let linear = LinearInterpolator.interpolate(a, b, p);
        let perlin = PerlinInterpolator.interpolate(a, b, p);
        assert!(prev_linear <= linear);
        assert!(prev_perlin <= perlin);
        prev_linear = linear;
        prev_perlin = perlin;
    }
}

#[test]
fn cos_interpolate_accuracy_test() {
    let a = fx(0.0);
    let b = fx(1.0);
    for i in 0..=100 {
        let p = i as f64 / 100.0;
        let expected = (1.0 - (p * std::f64::consts::PI).cos()) / 2.0;
        let got = fl(CosInterpolator.interpolate(a, b, fx(p)));
        assert!((got - expected).abs() < 0.0001);
    }
}

#[test]
fn sawtooth_extremes_test() {
    assert_eq!(sawtooth(i64::MIN), 0);
    assert_eq!(sawtooth(i64::MAX), SCALE - 1);
    assert_eq!(sawtooth(i64::MIN + 1), 1);
}
