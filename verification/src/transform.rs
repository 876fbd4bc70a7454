//! A model-space transform builder: translation, scale and axis-angle
//! rotation composed onto an accumulated matrix.
//!
//! Rotation uses the Rodrigues form over the skew matrix of the normalized
//! axis; the angle enters through its sine and cosine, supplied as plain
//! scalars by the caller.

use vstd::prelude::*;

use crate::fx::{fx_neg, fx_sub, s_neg, s_sub, FX_ONE};
use crate::matrix::{m4_add, m4_identity, m4_mul, m4_mul_s, Matrix4};
use crate::vector::{v3_normalize, Vector3, Vector4};

verus! {

#[derive(Clone, Copy, Debug, PartialEq, Eq, Structural)]
pub struct Transform {
    pub mat: Matrix4,
}

/// The homogeneous translation matrix.
pub open spec fn translation_mat(pos: Vector3) -> Matrix4 {
    Matrix4 {
        r0: Vector4 { x: FX_ONE as i64, y: 0i64, z: 0i64, w: pos.x },
        r1: Vector4 { x: 0i64, y: FX_ONE as i64, z: 0i64, w: pos.y },
        r2: Vector4 { x: 0i64, y: 0i64, z: FX_ONE as i64, w: pos.z },
        r3: Vector4 { x: 0i64, y: 0i64, z: 0i64, w: FX_ONE as i64 },
    }
}

/// The axis-aligned scale matrix.
pub open spec fn scale_mat(scale: Vector3) -> Matrix4 {
    Matrix4 {
        r0: Vector4 { x: scale.x, y: 0i64, z: 0i64, w: 0i64 },
        r1: Vector4 { x: 0i64, y: scale.y, z: 0i64, w: 0i64 },
        r2: Vector4 { x: 0i64, y: 0i64, z: scale.z, w: 0i64 },
        r3: Vector4 { x: 0i64, y: 0i64, z: 0i64, w: FX_ONE as i64 },
    }
}

/// The skew (cross-product) matrix of an axis.
pub open spec fn cross_mat(a: Vector3) -> Matrix4 {
    Matrix4 {
        r0: Vector4 { x: 0i64, y: s_neg(a.z as int) as i64, z: a.y, w: 0i64 },
        r1: Vector4 { x: a.z, y: 0i64, z: s_neg(a.x as int) as i64, w: 0i64 },
        r2: Vector4 { x: s_neg(a.y as int) as i64, y: a.x, z: 0i64, w: 0i64 },
        r3: Vector4 { x: 0i64, y: 0i64, z: 0i64, w: 0i64 },
    }
}

/// One Rodrigues rotation step folded onto an accumulated matrix:
/// `m + k*sin*m + k*k*(1-cos)*m` for the normalized axis's skew matrix `k`.
pub open spec fn rotation_spec(m: Matrix4, axis: Vector3, sin_a: int, cos_a: int) -> Matrix4 {
    let k = cross_mat(v3_normalize(axis));
    m4_add(
        m4_add(m, m4_mul(m4_mul_s(k, sin_a), m)),
        m4_mul(m4_mul_s(m4_mul(k, k), s_sub(FX_ONE as int, cos_a)), m),
    )
}

impl Transform {
    pub fn new() -> (r: Transform)
        ensures
            r.mat == m4_identity(),
    {
        Transform { mat: Matrix4::identity() }
    }

    /// Prepends a translation.
    pub fn translation(self, pos: Vector3) -> (r: Transform)
        ensures
            r.mat == m4_mul(translation_mat(pos), self.mat),
    {
        let m: Matrix4 = Matrix4 {
            r0: Vector4 { x: FX_ONE, y: 0, z: 0, w: pos.x },
            r1: Vector4 { x: 0, y: FX_ONE, z: 0, w: pos.y },
            r2: Vector4 { x: 0, y: 0, z: FX_ONE, w: pos.z },
            r3: Vector4 { x: 0, y: 0, z: 0, w: FX_ONE },
        };
        Transform { mat: m.mul(self.mat) }
    }

    /// Prepends an axis-aligned scale.
    pub fn scale(self, scale: Vector3) -> (r: Transform)
        ensures
            r.mat == m4_mul(scale_mat(scale), self.mat),
    {
        let m: Matrix4 = Matrix4 {
            r0: Vector4 { x: scale.x, y: 0, z: 0, w: 0 },
            r1: Vector4 { x: 0, y: scale.y, z: 0, w: 0 },
            r2: Vector4 { x: 0, y: 0, z: scale.z, w: 0 },
            r3: Vector4 { x: 0, y: 0, z: 0, w: FX_ONE },
        };
        Transform { mat: m.mul(self.mat) }
    }

    /// Folds a rotation about `axis` onto the accumulated matrix; `sin_a`
    /// and `cos_a` are the angle's sine and cosine as scalars.
    pub fn rotation(self, axis: Vector3, sin_a: i64, cos_a: i64) -> (r: Transform)
        ensures
            r.mat == rotation_spec(self.mat, axis, sin_a as int, cos_a as int),
    {
        let a: Vector3 = axis.normalize();
        let k: Matrix4 = Matrix4 {
            r0: Vector4 { x: 0, y: fx_neg(a.z), z: a.y, w: 0 },
            r1: Vector4 { x: a.z, y: 0, z: fx_neg(a.x), w: 0 },
            r2: Vector4 { x: fx_neg(a.y), y: a.x, z: 0, w: 0 },
            r3: Vector4 { x: 0, y: 0, z: 0, w: 0 },
        };
        let term1: Matrix4 = k.mul_s(sin_a).mul(self.mat);
        let term2: Matrix4 = k.mul(k).mul_s(fx_sub(FX_ONE, cos_a)).mul(self.mat);
        Transform { mat: self.mat.add(term1).add(term2) }
    }

    /// The accumulated matrix.
    pub fn mat(&self) -> (r: Matrix4)
        ensures
            r == self.mat,
    {
        self.mat
    }
}

} // verus!
