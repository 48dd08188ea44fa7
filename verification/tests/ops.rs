use noise::{CombinedNoise, CombinedNoise2, ConstantNoise, InputOp, NoOpNoise, Noise, OutputOp};

#[test]
fn output_op_test() {
    let noise = OutputOp::new(NoOpNoise, |i: i32| i * 2);
    for i in -10..10 {
        assert!(noise.value(i) == i * 2);
    }
}

#[test]
fn input_op_test() {
    let noise = InputOp::new(NoOpNoise, |p: i32| p * 2);
    for i in -10..10 {
        assert!(noise.value(i) == i * 2);
    }
}

#[test]
fn combined_noise_test() {
    let sources: Vec<Box<dyn Noise<i32, i32>>> = vec![
        Box::new(ConstantNoise::new(5)),
        Box::new(NoOpNoise),
        Box::new(ConstantNoise::new(-1)),
    ];
    let noise = CombinedNoise::new(sources, |a: i32, b: i32| a + b);
    for i in -10..10 {
        assert!(noise.value(i) == i + 4);
    }
}

#[test]
fn combined_noise2_test() {
    let noise = CombinedNoise2::new(NoOpNoise, NoOpNoise, |a: i32, b: i32| a * b);
    for i in -10..10 {
        assert!(noise.value(i) == i * i);
    }
}

#[test]
fn constant_and_identity_building_blocks_test() {
    let constant = ConstantNoise::new(7i64);
    let identity = NoOpNoise;
    for i in -5i64..5 {
        assert_eq!(constant.value(i), 7);
        assert_eq!(identity.value(i), i);
    }
}
