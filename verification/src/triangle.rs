//! One triangle's worth of per-vertex data, assembled on demand from a
//! model's flat arrays. A triangle carries geometry only; the texture it is
//! shaded with stays owned by the model and is borrowed for the duration of
//! one rasterization call.

use vstd::prelude::*;

use crate::vector::{Vector2, Vector3};

verus! {

#[derive(Clone, Copy, Debug, PartialEq, Eq, Structural)]
pub struct Triangle {
    /// World-space vertex positions.
    pub v0: Vector3,
    pub v1: Vector3,
    pub v2: Vector3,
    /// Per-vertex normals; the zero vector where the mesh lacks normals, in
    /// which case shading degenerates (a known edge case).
    pub n0: Vector3,
    pub n1: Vector3,
    pub n2: Vector3,
    /// Per-vertex texture coordinates; zero where absent.
    pub uv0: Vector2,
    pub uv1: Vector2,
    pub uv2: Vector2,
}

} // verus!
