//! The camera: view (world-to-camera) and perspective transforms.
//!
//! The camera keeps its forward and up directions normalized and requires
//! them orthogonal within EPS, checked at construction and again before the
//! view matrix is built. In place of a field-of-view angle the camera stores
//! the tangent of half the vertical field of view (a plain scalar the caller
//! computes; for a 90-degree field it is exactly 1), from which the
//! perspective transform derives its focal scales.

use vstd::prelude::*;

use crate::fx::{fx_div, fx_mul, fx_neg, fx_sub, iabs, s_div, s_mul, s_neg, s_sub, FX_ONE};
use crate::matrix::Matrix4;
use crate::vector::{v3_cross, v3_dot, v3_normalize, Vector3, Vector4, EPS};

verus! {

/// Fixed-point -2, the factor in the perspective depth column.
pub const NEG_TWO_FX: i64 = -131072;

#[derive(Clone, Copy, Debug, PartialEq, Eq, Structural)]
pub struct Camera {
    pub pos: Vector3,
    pub dir: Vector3,
    pub up: Vector3,
    /// Tangent of half the vertical field of view; positive for a field of
    /// view strictly between 0 and pi.
    pub half_fov_tan: i64,
    /// Width over height of the intended output.
    pub aspect: i64,
}

/// The camera's construction invariant: forward and up are orthogonal within
/// EPS.
pub open spec fn camera_ortho(dir: Vector3, up: Vector3) -> bool {
    iabs(v3_dot(dir, up)) < EPS as int
}

/// The world-to-camera change of basis: rows are the right vector
/// (forward x up), up, and minus forward, with translation terms that cancel
/// the camera position.
pub open spec fn camera_transform_spec(c: Camera) -> Matrix4 {
    let v = v3_cross(c.dir, c.up);
    let kv = v3_dot(c.pos, v);
    let ku = v3_dot(c.pos, c.up);
    let kd = v3_dot(c.pos, c.dir);
    Matrix4 {
        r0: Vector4 { x: v.x, y: v.y, z: v.z, w: s_neg(kv) as i64 },
        r1: Vector4 { x: c.up.x, y: c.up.y, z: c.up.z, w: s_neg(ku) as i64 },
        r2: Vector4 {
            x: s_neg(c.dir.x as int) as i64,
            y: s_neg(c.dir.y as int) as i64,
            z: s_neg(c.dir.z as int) as i64,
            w: kd as i64,
        },
        r3: Vector4 { x: 0i64, y: 0i64, z: 0i64, w: FX_ONE as i64 },
    }
}

/// The perspective projection: focal scales from the half-angle tangent and
/// the aspect ratio, and the standard depth remapping between the near and
/// far planes.
pub open spec fn perspective_transform_spec(c: Camera, near: int, far: int) -> Matrix4 {
    let fy = s_div(FX_ONE as int, c.half_fov_tan as int);
    let fxs = s_div(fy, c.aspect as int);
    Matrix4 {
        r0: Vector4 { x: fxs as i64, y: 0i64, z: 0i64, w: 0i64 },
        r1: Vector4 { x: 0i64, y: fy as i64, z: 0i64, w: 0i64 },
        r2: Vector4 {
            x: 0i64,
            y: 0i64,
            z: s_div(s_sub(s_neg(near), far), s_sub(far, near)) as i64,
            w: s_div(s_mul(s_mul(NEG_TWO_FX as int, far), near), s_sub(far, near)) as i64,
        },
        r3: Vector4 { x: 0i64, y: 0i64, z: s_neg(FX_ONE as int) as i64, w: 0i64 },
    }
}

impl Camera {
    /// Builds a camera, normalizing the two directions. The directions must
    /// be orthogonal within EPS; a violation is a fatal configuration error,
    /// so it is excluded here rather than handled.
    pub fn new(pos: Vector3, dir: Vector3, up: Vector3, half_fov_tan: i64, aspect: i64) -> (r:
        Camera)
        requires
            camera_ortho(dir, up),
            half_fov_tan > 0,
            aspect > 0,
        ensures
            r == (Camera {
                pos,
                dir: v3_normalize(dir),
                up: v3_normalize(up),
                half_fov_tan,
                aspect,
            }),
    {
        Camera { pos, dir: dir.normalize(), up: up.normalize(), half_fov_tan, aspect }
    }

    /// The world-to-camera view matrix; the orthogonality invariant is
    /// re-validated here, as at construction.
    pub fn camera_transform(&self) -> (r: Matrix4)
        requires
            camera_ortho(self.dir, self.up),
        ensures
            r == camera_transform_spec(*self),
    {
        let v: Vector3 = self.dir.cross(self.up);
        let kv: i64 = self.pos.dot(v);
        let ku: i64 = self.pos.dot(self.up);
        let kd: i64 = self.pos.dot(self.dir);
        Matrix4 {
            r0: Vector4 { x: v.x, y: v.y, z: v.z, w: fx_neg(kv) },
            r1: Vector4 { x: self.up.x, y: self.up.y, z: self.up.z, w: fx_neg(ku) },
            r2: Vector4 {
                x: fx_neg(self.dir.x),
                y: fx_neg(self.dir.y),
                z: fx_neg(self.dir.z),
                w: kd,
            },
            r3: Vector4 { x: 0, y: 0, z: 0, w: FX_ONE },
        }
    }

    /// The camera-to-clip perspective matrix for clip distances
    /// `0 < near < far`.
    pub fn perspective_transform(&self, near: i64, far: i64) -> (r: Matrix4)
        requires
            0 < near < far,
        ensures
            r == perspective_transform_spec(*self, near as int, far as int),
    {
        let fy: i64 = fx_div(FX_ONE, self.half_fov_tan);
        let fxs: i64 = fx_div(fy, self.aspect);
        Matrix4 {
            r0: Vector4 { x: fxs, y: 0, z: 0, w: 0 },
            r1: Vector4 { x: 0, y: fy, z: 0, w: 0 },
            r2: Vector4 {
                x: 0,
                y: 0,
                z: fx_div(fx_sub(fx_neg(near), far), fx_sub(far, near)),
                w: fx_div(fx_mul(fx_mul(NEG_TWO_FX, far), near), fx_sub(far, near)),
            },
            r3: Vector4 { x: 0, y: 0, z: fx_neg(FX_ONE), w: 0 },
        }
    }
}

} // verus!
