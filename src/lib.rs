//! A bounded two-dimensional physics playground in fixed-point arithmetic.
//!
//! Lengths are kept in thousandths of a unit, times in milliseconds,
//! velocities in thousandths of a unit per second and factors in thousandths.
pub mod fixed;
pub mod vector;
pub mod color;
pub mod config;
pub mod random;
pub mod ball;
pub mod bullet;
pub mod particle;
pub mod world;
pub mod render;
