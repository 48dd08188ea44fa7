use noise::interpolate::{Interpolator, LinearInterpolator};
use noise::{DefaultI32Noise, Noise, SmoothNoise1D};

const SCALE: i64 = 1073741824;
const SCALE_F: f64 = 1073741824.0;

fn fx(x: f64) -> i64 {
    (x * SCALE_F).round() as i64
}

fn test_noise<I: Interpolator, N: Noise<i32, i64>>(
    noise: &SmoothNoise1D<I, N>,
    min: f64,
    max: f64,
    max_delta: f64,
    monotone_steps: i32,
    positions: &[i64],
) {
    assert!(max_delta >= 0.0);

    let mut prev_value: Option<f64> = None;

    let mut prev_direction: Option<f64> = None;
    let mut prev_direction_switch: Option<i32> = None;

    for &i in positions {
        let value = noise.value(i) as f64 / SCALE_F;

        // Ensures that the values are inside the amplitude bounds
        assert!(min <= value && value <= max);

        // Tests the noise pattern for its frequency and first derivate
        if let Some(prev) = prev_value {
            let delta = value - prev;

            // Frequency
            let direction = delta.signum();
            match (prev_direction, prev_direction_switch) {
                (Some(prev_dir), Some(pds)) => {
                    if prev_dir != direction {
                        assert!(pds >= monotone_steps);
                        prev_direction_switch = Some(1);
                    } else {
                        prev_direction_switch = Some(pds + 1);
                    }
                }
                (Some(prev_dir), None) => {
                    if prev_dir != direction {
                        prev_direction_switch = Some(1);
                    }
                }
                _ => {}
            }

            // Steepness (1st derivate)
            assert!(delta.abs() <= max_delta);

            prev_direction = Some(direction);
        }

        prev_value = Some(value);
    }
}

fn sample_positions(from: i64, to: i64, divisor: i64) -> Vec<i64> {
    (from..to).map(|x| x * SCALE / divisor).collect()
}

#[test]
fn smooth_noise_test() {
    let noise = &SmoothNoise1D::new(0, fx(1.0), fx(1.0), LinearInterpolator, DefaultI32Noise::new(0));
    let range = sample_positions(-200, 201, 13);
    test_noise(noise, -1.0, 1.0, 2.0 / 13.0, 13, &range);
}

#[test]
fn smooth_noise_low_frequency_test() {
    let noise = &SmoothNoise1D::new(
        0,
        fx(1.0),
        fx(1.0 / 100.0),
        LinearInterpolator,
        DefaultI32Noise::new(0),
    );
    let range = sample_positions(-2000, 2001, 7);
    test_noise(noise, -1.0, 1.0, 2.0 / 700.0, 700, &range);
}

#[test]
fn smooth_noise_high_frequency_test() {
    let noise = &SmoothNoise1D::new(
        0,
        fx(1.0),
        fx(100.0),
        LinearInterpolator,
        DefaultI32Noise::new(0),
    );
    let range = sample_positions(-200, 201, 11);
    test_noise(noise, -1.0, 1.0, 2.0 / 0.11, 1, &range);
}

#[test]
fn smooth_noise_amplitude_test() {
    let noise = &SmoothNoise1D::new(
        0,
        fx(12.5),
        fx(1.0),
        LinearInterpolator,
        DefaultI32Noise::new(0),
    );
    let range = sample_positions(-200, 201, 3);
    test_noise(noise, -12.5, 12.5, 25.0 / 3.0, 3, &range);
}

#[test]
fn new_defaults_test() {
    let noise = &SmoothNoise1D::new_default(0, fx(10.0), fx(1.0));
    let range = sample_positions(-200, 201, 7);
    test_noise(noise, -10.0, 10.0, 20.0 / 7.0 * 1.5, 7, &range);
}

#[test]
fn smooth_noise_reference_value_test() {
    let noise = SmoothNoise1D::new(0, fx(1.0), fx(1.0), LinearInterpolator, DefaultI32Noise::new(0));
    assert_eq!(noise.value(fx(0.5)), -267099539);
}

#[test]
fn smooth_noise_determinism_test() {
    let first = SmoothNoise1D::new_default(42, fx(2.5), fx(0.25));
    let second = SmoothNoise1D::new_default(42, fx(2.5), fx(0.25));
    for i in -500..500 {
        let position = i * SCALE / 9;
        assert_eq!(first.value(position), second.value(position));
    }
}
