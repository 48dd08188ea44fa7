use noise::interpolate::LinearInterpolator;
use noise::{DefaultI32Noise, Noise, SmoothNoise2D};

const SCALE: i64 = 1073741824;
const SCALE_F: f64 = 1073741824.0;

fn fx(x: f64) -> i64 {
    (x * SCALE_F).round() as i64
}

#[test]
fn smooth_noise_2d_test() {
    let noise = SmoothNoise2D::new(
        0,
        fx(1.0),
        (fx(1.0), fx(1.0)),
        LinearInterpolator,
        DefaultI32Noise::new(0),
    );
    for x in -20..21 {
        for y in -20..21 {
            let pos = (x * SCALE / 3, y * SCALE / 3);
            let value = noise.value(pos) as f64 / SCALE_F;
            assert!(-1.0 <= value && value <= 1.0);
        }
    }
}

#[test]
fn new_default_test() {
    let noise = SmoothNoise2D::new_default(0, fx(1.0), (fx(1.0), fx(1.0)));
    for x in -20..21 {
        for y in -20..21 {
            let pos = (x * SCALE / 3, y * SCALE / 3);
            let value = noise.value(pos) as f64 / SCALE_F;
            assert!(-1.0 <= value && value <= 1.0);
        }
    }
}

#[test]
fn smooth_noise_2d_determinism_test() {
    let first = SmoothNoise2D::new_default(9, fx(3.0), (fx(0.5), fx(2.0)));
    let second = SmoothNoise2D::new_default(9, fx(3.0), (fx(0.5), fx(2.0)));
    for x in -30..30 {
        for y in -30..30 {
            let pos = (x * SCALE / 7, y * SCALE / 7);
            assert_eq!(first.value(pos), second.value(pos));
        }
    }
}
