//! Signed distance field (SDF) generation for triangle meshes, on a fixed-point
//! coordinate grid, together with the per-tick cache/scheduling policy that
//! decides which objects need a fresh field and how atlas regions are tracked.
//!
//! All scalar quantities are fixed-point numbers: an `i64` raw value `r`
//! stands for the real number `r / 65536`. Arithmetic saturates instead of
//! overflowing, so every operation is total and exactly specified.

pub mod fx;
pub mod vec3;
pub mod order;
pub mod accum;
pub mod preprocess;
pub mod sample;
pub mod grid;
pub mod aabb;
pub mod mesh;
pub mod schedule;
pub mod analytic;
