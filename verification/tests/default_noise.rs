use noise::{ConstantNoise, DefaultI32Noise, NoOpNoise, Noise};

const SCALE_F: f64 = 1073741824.0;

#[test]
fn integer_noise_test() {
    let noise = DefaultI32Noise::new(0);
    let mut n = i32::MIN;
    loop {
        let value = noise.value(n) as f64 / SCALE_F;
        assert!(-1.0 <= value && value <= 1.0);
        match n.checked_add(1001) {
            Some(next) => n = next,
            None => break,
        }
    }
    let lowest = noise.value(i32::MIN) as f64 / SCALE_F;
    assert!(-1.0 <= lowest && lowest <= 1.0);
    let highest = noise.value(i32::MAX) as f64 / SCALE_F;
    assert!(-1.0 <= highest && highest <= 1.0);
}

#[test]
fn integer_noise_reference_value_test() {
    assert_eq!(DefaultI32Noise::new(0).value(0), -302570765);
    assert_eq!(DefaultI32Noise::new(1).value(12345), 682895621);
}

#[test]
fn integer_noise_determinism_test() {
    let first = DefaultI32Noise::new(77);
    let second = DefaultI32Noise::new(77);
    let mut n = i32::MIN;
    loop {
        assert_eq!(first.value(n), second.value(n));
        match n.checked_add(99991) {
            Some(next) => n = next,
            None => break,
        }
    }
}

#[test]
fn constant_noise_test() {
    let noise = ConstantNoise::new('x');
    let mut n = i32::MIN;
    loop {
        let value = noise.value(n);
        assert!(value == 'x');
        match n.checked_add(1001) {
            Some(next) => n = next,
            None => break,
        }
    }
}

#[test]
fn no_op_noise_test() {
    let noise = NoOpNoise;
    let mut n = i32::MIN;
    loop {
        let value = noise.value(n);
        assert!(value == n);
        match n.checked_add(1001) {
            Some(next) => n = next,
            None => break,
        }
    }
}

#[test]
fn unbox_noise_test() {
    let boxed: Box<dyn Noise<i32, i32>> = Box::new(NoOpNoise);
    let noise = noise::UnboxNoise::new(boxed);
    for i in -10..10 {
        assert_eq!(noise.value(i), i);
    }
}

#[test]
fn unbox_noise_from_vec_test() {
    let boxed: Vec<Box<dyn Noise<i32, i32>>> = vec![Box::new(NoOpNoise)];
    let noise = noise::UnboxNoise::from_vec(boxed);
    for i in -10..10 {
        assert_eq!(noise.value(i), i);
    }
}
