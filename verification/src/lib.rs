//! A small ray tracer for scenes of spheres, verified end to end over an
//! exact fixed-point model of the real-number arithmetic it performs.
//!
//! Numbers are fixed point: an `i64` raw value standing for `raw / 65536`,
//! with every operation truncating toward zero. The ghost model mirrors that
//! arithmetic exactly, so the contracts of the geometry, the materials, the
//! camera and the integrator state their results to the last raw unit. A
//! value that would leave the representable range is handled explicitly:
//! an intersection becomes a miss, a scattered ray falls back to a stated
//! direction, and each such case is part of the function's contract.
pub mod camera;
pub mod fx;
pub mod hitable;
pub mod material;
pub mod ray;
pub mod render;
pub mod sphere;
pub mod utils;
pub mod vec3;

pub use fx::Fx;
pub use vec3::Vec3;
