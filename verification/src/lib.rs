//! Deterministic 2D rigid-body simulation over fixed-point numbers.
//!
//! Every quantity is a [`scalar::Scalar`], a signed count of billionths that
//! saturates instead of overflowing, so a simulation step gives the same
//! result on every machine and its behaviour is stated exactly.
pub mod algebra;
pub mod scalar;
pub mod vector;
pub mod components;
pub mod entity;
pub mod world;
pub mod systems;
