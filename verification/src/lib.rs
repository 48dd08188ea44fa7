//! Composable generators for one and multi dimensional smooth and Perlin
//! noise.
//!
//! Every generator maps a position to a deterministic pseudo-random scalar:
//! the same position and seed always produce the same output.  Scalars are
//! binary fixed-point numbers (see [`fixed`]), so each generator carries an
//! exact arithmetic contract, proved for the full range of inputs it
//! accepts.

pub mod combined_noise;
pub mod default_noise;
pub mod interpolated_noise;
pub mod noise_1d;
pub mod noise_2d;
pub mod output_op;
pub mod perlin;
pub mod fixed;
pub mod input_op;
pub mod interpolate;
pub mod noise;

pub use combined_noise::{CombinedNoise, CombinedNoise2};
pub use default_noise::{ConstantNoise, DefaultI32Noise, NoOpNoise, UnboxNoise};
pub use input_op::InputOp;
pub use interpolated_noise::{InterpolatedNoise, InterpolatedNoise2D};
pub use noise::Noise;
pub use noise_1d::SmoothNoise1D;
pub use noise_2d::SmoothNoise2D;
pub use output_op::OutputOp;
pub use perlin::PerlinNoise;
