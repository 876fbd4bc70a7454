//! Fixed-size vectors over fixed-point scalars, with exact spec mirrors.
//!
//! Each executable operation is specified by an `s_`/`v*_` spec function that
//! states the resulting components exactly, in the saturating fixed-point
//! arithmetic of the `fx` module.

use vstd::prelude::*;

use crate::fx::{
    fx_add, fx_div, fx_mul, fx_neg, fx_sqrt, fx_sub, iabs, s_add, s_div, s_mul, s_neg, s_sub,
    sqrt_floor, tdiv, FX_ONE, SCALE,
};

verus! {

/// Tolerance below which a magnitude is treated as zero (about 1e-4).
pub const EPS: i64 = 7;

#[derive(Clone, Copy, Debug, PartialEq, Eq, Structural)]
pub struct Vector2 {
    pub x: i64,
    pub y: i64,
}

#[derive(Clone, Copy, Debug, PartialEq, Eq, Structural)]
pub struct Vector3 {
    pub x: i64,
    pub y: i64,
    pub z: i64,
}

#[derive(Clone, Copy, Debug, PartialEq, Eq, Structural)]
pub struct Vector4 {
    pub x: i64,
    pub y: i64,
    pub z: i64,
    pub w: i64,
}

pub open spec fn v2_add(a: Vector2, b: Vector2) -> Vector2 {
    Vector2 { x: s_add(a.x as int, b.x as int) as i64, y: s_add(a.y as int, b.y as int) as i64 }
}

pub open spec fn v2_sub(a: Vector2, b: Vector2) -> Vector2 {
    Vector2 { x: s_sub(a.x as int, b.x as int) as i64, y: s_sub(a.y as int, b.y as int) as i64 }
}

pub open spec fn v2_neg(a: Vector2) -> Vector2 {
    Vector2 { x: s_neg(a.x as int) as i64, y: s_neg(a.y as int) as i64 }
}

pub open spec fn v2_mul_s(a: Vector2, k: int) -> Vector2 {
    Vector2 { x: s_mul(a.x as int, k) as i64, y: s_mul(a.y as int, k) as i64 }
}

/// The scalar z-component of the 3-D cross product of two plane vectors.
pub open spec fn v2_cross(a: Vector2, b: Vector2) -> int {
    s_sub(s_mul(a.x as int, b.y as int), s_mul(a.y as int, b.x as int))
}

pub open spec fn v3_add(a: Vector3, b: Vector3) -> Vector3 {
    Vector3 {
        x: s_add(a.x as int, b.x as int) as i64,
        y: s_add(a.y as int, b.y as int) as i64,
        z: s_add(a.z as int, b.z as int) as i64,
    }
}

pub open spec fn v3_sub(a: Vector3, b: Vector3) -> Vector3 {
    Vector3 {
        x: s_sub(a.x as int, b.x as int) as i64,
        y: s_sub(a.y as int, b.y as int) as i64,
        z: s_sub(a.z as int, b.z as int) as i64,
    }
}

/// Componentwise product (used to modulate a colour by a radiance).
pub open spec fn v3_mul(a: Vector3, b: Vector3) -> Vector3 {
    Vector3 {
        x: s_mul(a.x as int, b.x as int) as i64,
        y: s_mul(a.y as int, b.y as int) as i64,
        z: s_mul(a.z as int, b.z as int) as i64,
    }
}

pub open spec fn v3_mul_s(a: Vector3, k: int) -> Vector3 {
    Vector3 {
        x: s_mul(a.x as int, k) as i64,
        y: s_mul(a.y as int, k) as i64,
        z: s_mul(a.z as int, k) as i64,
    }
}

pub open spec fn v3_div_s(a: Vector3, k: int) -> Vector3 {
    Vector3 {
        x: s_div(a.x as int, k) as i64,
        y: s_div(a.y as int, k) as i64,
        z: s_div(a.z as int, k) as i64,
    }
}

pub open spec fn v3_dot(a: Vector3, b: Vector3) -> int {
    s_add(
        s_add(s_mul(a.x as int, b.x as int), s_mul(a.y as int, b.y as int)),
        s_mul(a.z as int, b.z as int),
    )
}

pub open spec fn v3_cross(a: Vector3, b: Vector3) -> Vector3 {
    Vector3 {
        x: s_sub(s_mul(a.y as int, b.z as int), s_mul(a.z as int, b.y as int)) as i64,
        y: s_sub(s_mul(a.z as int, b.x as int), s_mul(a.x as int, b.z as int)) as i64,
        z: s_sub(s_mul(a.x as int, b.y as int), s_mul(a.y as int, b.x as int)) as i64,
    }
}

/// Euclidean length of a vector: the floor square root of the rescaled
/// self-dot-product, itself a fixed-point scalar.
pub open spec fn v3_norm(a: Vector3) -> int {
    sqrt_floor(v3_dot(a, a) * (SCALE as int))
}

/// Normalization divides each component by the length; a (near-)zero vector
/// yields the saturated quotients of `s_div`, the analogue of the
/// non-finite components a float division would give.
pub open spec fn v3_normalize(a: Vector3) -> Vector3 {
    v3_div_s(a, v3_norm(a))
}

/// `s_mul` of a scalar with itself is never negative.
pub proof fn lemma_smul_self_nonneg(c: int)
    ensures
        s_mul(c, c) >= 0,
{
    assert(c * c >= 0) by (nonlinear_arith);
    vstd::arithmetic::div_mod::lemma_div_pos_is_pos(c * c, SCALE as int);
}

/// A vector's dot product with itself is never negative.
pub proof fn lemma_v3_dot_self_nonneg(a: Vector3)
    ensures
        v3_dot(a, a) >= 0,
{
    lemma_smul_self_nonneg(a.x as int);
    lemma_smul_self_nonneg(a.y as int);
    lemma_smul_self_nonneg(a.z as int);
}

impl Vector2 {
    pub fn new(x: i64, y: i64) -> (r: Vector2)
        ensures
            r == (Vector2 { x, y }),
    {
        Vector2 { x, y }
    }

    pub fn add(&self, o: Vector2) -> (r: Vector2)
        ensures
            r == v2_add(*self, o),
    {
        Vector2 { x: fx_add(self.x, o.x), y: fx_add(self.y, o.y) }
    }

    pub fn sub(&self, o: Vector2) -> (r: Vector2)
        ensures
            r == v2_sub(*self, o),
    {
        Vector2 { x: fx_sub(self.x, o.x), y: fx_sub(self.y, o.y) }
    }

    pub fn neg(&self) -> (r: Vector2)
        ensures
            r == v2_neg(*self),
    {
        Vector2 { x: fx_neg(self.x), y: fx_neg(self.y) }
    }

    pub fn mul_s(&self, k: i64) -> (r: Vector2)
        ensures
            r == v2_mul_s(*self, k as int),
    {
        Vector2 { x: fx_mul(self.x, k), y: fx_mul(self.y, k) }
    }

    /// Signed-area cross product of two plane vectors.
    pub fn cross(&self, o: Vector2) -> (r: i64)
        ensures
            r as int == v2_cross(*self, o),
    {
        fx_sub(fx_mul(self.x, o.y), fx_mul(self.y, o.x))
    }
}

impl Vector3 {
    pub fn new(x: i64, y: i64, z: i64) -> (r: Vector3)
        ensures
            r == (Vector3 { x, y, z }),
    {
        Vector3 { x, y, z }
    }

    pub fn add(&self, o: Vector3) -> (r: Vector3)
        ensures
            r == v3_add(*self, o),
    {
        Vector3 { x: fx_add(self.x, o.x), y: fx_add(self.y, o.y), z: fx_add(self.z, o.z) }
    }

    pub fn sub(&self, o: Vector3) -> (r: Vector3)
        ensures
            r == v3_sub(*self, o),
    {
        Vector3 { x: fx_sub(self.x, o.x), y: fx_sub(self.y, o.y), z: fx_sub(self.z, o.z) }
    }

    /// Componentwise product.
    pub fn mul(&self, o: Vector3) -> (r: Vector3)
        ensures
            r == v3_mul(*self, o),
    {
        Vector3 { x: fx_mul(self.x, o.x), y: fx_mul(self.y, o.y), z: fx_mul(self.z, o.z) }
    }

    pub fn mul_s(&self, k: i64) -> (r: Vector3)
        ensures
            r == v3_mul_s(*self, k as int),
    {
        Vector3 { x: fx_mul(self.x, k), y: fx_mul(self.y, k), z: fx_mul(self.z, k) }
    }

    pub fn div_s(&self, k: i64) -> (r: Vector3)
        ensures
            r == v3_div_s(*self, k as int),
    {
        Vector3 { x: fx_div(self.x, k), y: fx_div(self.y, k), z: fx_div(self.z, k) }
    }

    pub fn dot(&self, o: Vector3) -> (r: i64)
        ensures
            r as int == v3_dot(*self, o),
    {
        fx_add(fx_add(fx_mul(self.x, o.x), fx_mul(self.y, o.y)), fx_mul(self.z, o.z))
    }

    pub fn cross(&self, o: Vector3) -> (r: Vector3)
        ensures
            r == v3_cross(*self, o),
    {
        Vector3 {
            x: fx_sub(fx_mul(self.y, o.z), fx_mul(self.z, o.y)),
            y: fx_sub(fx_mul(self.z, o.x), fx_mul(self.x, o.z)),
            z: fx_sub(fx_mul(self.x, o.y), fx_mul(self.y, o.x)),
        }
    }

    /// Euclidean length.
    pub fn norm(&self) -> (r: i64)
        ensures
            r as int == v3_norm(*self),
            r >= 0,
    {
        proof {
            lemma_v3_dot_self_nonneg(*self);
        }
        let d: i64 = self.dot(*self);
        fx_sqrt(d)
    }

    /// Direction of the vector; the components of a (near-)zero vector
    /// saturate as `s_div` describes.
    pub fn normalize(&self) -> (r: Vector3)
        ensures
            r == v3_normalize(*self),
    {
        let n: i64 = self.norm();
        self.div_s(n)
    }

    /// Homogeneous promotion of a point (w = 1).
    pub fn homo_point(&self) -> (r: Vector4)
        ensures
            r == (Vector4 { x: self.x, y: self.y, z: self.z, w: FX_ONE }),
    {
        Vector4 { x: self.x, y: self.y, z: self.z, w: FX_ONE }
    }

    /// Homogeneous promotion of a direction (w = 0).
    pub fn homo_vec(&self) -> (r: Vector4)
        ensures
            r == (Vector4 { x: self.x, y: self.y, z: self.z, w: 0i64 }),
    {
        Vector4 { x: self.x, y: self.y, z: self.z, w: 0 }
    }
}

pub open spec fn v4_add(a: Vector4, b: Vector4) -> Vector4 {
    Vector4 {
        x: s_add(a.x as int, b.x as int) as i64,
        y: s_add(a.y as int, b.y as int) as i64,
        z: s_add(a.z as int, b.z as int) as i64,
        w: s_add(a.w as int, b.w as int) as i64,
    }
}

pub open spec fn v4_sub(a: Vector4, b: Vector4) -> Vector4 {
    Vector4 {
        x: s_sub(a.x as int, b.x as int) as i64,
        y: s_sub(a.y as int, b.y as int) as i64,
        z: s_sub(a.z as int, b.z as int) as i64,
        w: s_sub(a.w as int, b.w as int) as i64,
    }
}

pub open spec fn v4_mul_s(a: Vector4, k: int) -> Vector4 {
    Vector4 {
        x: s_mul(a.x as int, k) as i64,
        y: s_mul(a.y as int, k) as i64,
        z: s_mul(a.z as int, k) as i64,
        w: s_mul(a.w as int, k) as i64,
    }
}

pub open spec fn v4_dot(a: Vector4, b: Vector4) -> int {
    s_add(
        s_add(
            s_add(s_mul(a.x as int, b.x as int), s_mul(a.y as int, b.y as int)),
            s_mul(a.z as int, b.z as int),
        ),
        s_mul(a.w as int, b.w as int),
    )
}

/// Homogeneous demotion: divide by w, except that a w within EPS of zero is
/// treated as already Euclidean and the components pass through unchanged.
pub open spec fn v4_vec3_homo(p: Vector4) -> Vector3 {
    if iabs(p.w as int) < EPS as int {
        Vector3 { x: p.x, y: p.y, z: p.z }
    } else {
        Vector3 {
            x: s_div(p.x as int, p.w as int) as i64,
            y: s_div(p.y as int, p.w as int) as i64,
            z: s_div(p.z as int, p.w as int) as i64,
        }
    }
}

impl Vector4 {
    pub fn new(x: i64, y: i64, z: i64, w: i64) -> (r: Vector4)
        ensures
            r == (Vector4 { x, y, z, w }),
    {
        Vector4 { x, y, z, w }
    }

    pub fn add(&self, o: Vector4) -> (r: Vector4)
        ensures
            r == v4_add(*self, o),
    {
        Vector4 {
            x: fx_add(self.x, o.x),
            y: fx_add(self.y, o.y),
            z: fx_add(self.z, o.z),
            w: fx_add(self.w, o.w),
        }
    }

    pub fn sub(&self, o: Vector4) -> (r: Vector4)
        ensures
            r == v4_sub(*self, o),
    {
        Vector4 {
            x: fx_sub(self.x, o.x),
            y: fx_sub(self.y, o.y),
            z: fx_sub(self.z, o.z),
            w: fx_sub(self.w, o.w),
        }
    }

    pub fn mul_s(&self, k: i64) -> (r: Vector4)
        ensures
            r == v4_mul_s(*self, k as int),
    {
        Vector4 {
            x: fx_mul(self.x, k),
            y: fx_mul(self.y, k),
            z: fx_mul(self.z, k),
            w: fx_mul(self.w, k),
        }
    }

    pub fn dot(&self, o: Vector4) -> (r: i64)
        ensures
            r as int == v4_dot(*self, o),
    {
        fx_add(
            fx_add(fx_add(fx_mul(self.x, o.x), fx_mul(self.y, o.y)), fx_mul(self.z, o.z)),
            fx_mul(self.w, o.w),
        )
    }

    /// Homogeneous demotion to a 3-D point.
    pub fn vec3_homo(&self) -> (r: Vector3)
        ensures
            r == v4_vec3_homo(*self),
    {
        let wa: i64 = if self.w < 0 {
            fx_neg(self.w)
        } else {
            self.w
        };
        if wa < EPS {
            Vector3 { x: self.x, y: self.y, z: self.z }
        } else {
            Vector3 { x: fx_div(self.x, self.w), y: fx_div(self.y, self.w), z: fx_div(self.z, self.w) }
        }
    }
}

} // verus!
