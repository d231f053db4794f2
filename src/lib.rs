//! Integer core of a CPU ray tracer: pixel addressing over a resolution,
//! the final colour combination and filter of the shading pipeline, mesh face
//! validation, and the per-pixel dispatch that every rendering strategy shares.

pub mod color;
pub mod controls;
pub mod mesh;
pub mod partition;
pub mod renderer;
pub mod resolution;
pub mod shading;
