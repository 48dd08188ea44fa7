use noise::interpolate::LinearInterpolator;
use noise::{DefaultI32Noise, InterpolatedNoise, InterpolatedNoise2D, NoOpNoise, Noise, OutputOp};

const SCALE: i64 = 1073741824;
const SCALE_F: f64 = 1073741824.0;

#[test]
fn interpolated_noise_test() {
    let noise = InterpolatedNoise::new(
        OutputOp::new(NoOpNoise, |i: i32| (i as i64) * SCALE),
        LinearInterpolator,
    );
    for i in -100..100 {
        let f = i * SCALE / 7;
        assert!(((noise.value(f) - f) as f64 / SCALE_F).abs() < 0.001);
    }
}

#[test]
fn interpolated_noise_2d_test() {
    let noise = InterpolatedNoise2D::new(DefaultI32Noise::new(0), LinearInterpolator);
    for i in -100..100 {
        for j in -100..100 {
            let f = i * SCALE / 7;
            let g = j * SCALE / 7;
            let value = noise.value((f, g)) as f64 / SCALE_F;
            assert!(-1.0 <= value && value <= 1.0);
        }
    }
}

#[test]
fn interpolated_noise_2d_determinism_test() {
    let first = InterpolatedNoise2D::new(DefaultI32Noise::new(5), LinearInterpolator);
    let second = InterpolatedNoise2D::new(DefaultI32Noise::new(5), LinearInterpolator);
    for i in -40..40 {
        for j in -40..40 {
            let pos = (i * SCALE / 3, j * SCALE / 3);
            assert_eq!(first.value(pos), second.value(pos));
        }
    }
}
