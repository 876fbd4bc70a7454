//! Light sources: a closed sum over parallel (directional) and point lights.

use vstd::prelude::*;

use crate::vector::Vector3;

verus! {

/// Blinn-Phong shininess exponent.
pub const BP_P: u32 = 160;

#[derive(Clone, Copy, Debug, PartialEq, Eq, Structural)]
pub enum Light {
    /// Direction-only light at infinite distance, no attenuation.
    Parallel { dir: Vector3, li: Vector3 },
    /// Positioned light attenuating with the inverse square of distance.
    Point { pos: Vector3, li: Vector3 },
}

} // verus!
