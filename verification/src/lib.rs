//! A Monte-Carlo path tracer over saturating fixed-point arithmetic.
//!
//! Geometry, colors and camera parameters are Q47.16 fixed-point scalars
//! ([`fixed::Fixed`]), so every arithmetic step has an exact integer
//! specification. The engine estimates the radiance arriving along a ray
//! by recursive, depth-bounded sampling of material scattering events.

pub mod camera;
pub mod fixed;
pub mod material;
pub mod render;
pub mod rt;
pub mod shape;
pub mod sample;
pub mod vec3;

pub use fixed::Fixed;
pub use vec3::Vec3;
