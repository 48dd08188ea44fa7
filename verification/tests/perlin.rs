use noise::interpolate::LinearInterpolator;
use noise::{DefaultI32Noise, Noise, PerlinNoise, SmoothNoise1D};

const SCALE: i64 = 1073741824;
const SCALE_F: f64 = 1073741824.0;

fn fx(x: f64) -> i64 {
    (x * SCALE_F).round() as i64
}

#[test]
fn perlin_noise_test() {
    let octaves = vec![
        SmoothNoise1D::new(0, fx(1.0), fx(1.0), LinearInterpolator, DefaultI32Noise::new(0)),
        SmoothNoise1D::new(0, fx(0.5), fx(2.0), LinearInterpolator, DefaultI32Noise::new(0)),
    ];
    let noise = PerlinNoise::new(octaves);
    for i in -200..201 {
        let value = noise.value(i * SCALE / 10) as f64 / SCALE_F;
        assert!(-1.5 <= value && value <= 1.5);
    }
}

#[test]
fn perlin_noise_determinism_test() {
    let build = || {
        PerlinNoise::new(vec![
            SmoothNoise1D::new_default(3, fx(1.0), fx(1.0)),
            SmoothNoise1D::new_default(4, fx(0.5), fx(2.0)),
            SmoothNoise1D::new_default(5, fx(0.25), fx(4.0)),
        ])
    };
    let first = build();
    let second = build();
    for i in -300..300 {
        let position = i * SCALE / 8;
        assert_eq!(first.value(position), second.value(position));
    }
}
