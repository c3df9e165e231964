//! The systems that act on a world.
pub mod input;
pub mod laws;
pub mod pairs;
pub mod physics;
pub mod renderer;
pub mod settling;
pub mod timing;
