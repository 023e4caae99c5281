//! A verified gesture-driven interaction pipeline: decoded hand-skeleton
//! packets are turned into smoothed world-space points, palm orientation and
//! gesture state, and a per-frame force field over the dynamic bodies of a
//! physics scene.  All geometry runs on fixed-point scalars so every step of
//! the arithmetic carries an exact contract.

pub mod config;
pub mod fixed;
pub mod force;
pub mod frame;
pub mod gesture;
pub mod packet;
pub mod pose;
pub mod presence;
pub mod render;
pub mod vec3;
