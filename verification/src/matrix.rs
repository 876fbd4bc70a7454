//! 4x4 fixed-point matrices: the only matrix shape the pipeline composes.
//!
//! A matrix is four row vectors. Composition and matrix-vector application
//! are specified exactly as chains of saturating fixed-point operations, in
//! the same association order the executable code uses.

use vstd::prelude::*;

use crate::fx::FX_ONE;
use crate::vector::{v4_add, v4_dot, v4_mul_s, v4_sub, Vector4};

verus! {

#[derive(Clone, Copy, Debug, PartialEq, Eq, Structural)]
pub struct Matrix4 {
    pub r0: Vector4,
    pub r1: Vector4,
    pub r2: Vector4,
    pub r3: Vector4,
}

/// Column `x` of a matrix, as a vector.
pub open spec fn m4_col_x(m: Matrix4) -> Vector4 {
    Vector4 { x: m.r0.x, y: m.r1.x, z: m.r2.x, w: m.r3.x }
}

pub open spec fn m4_col_y(m: Matrix4) -> Vector4 {
    Vector4 { x: m.r0.y, y: m.r1.y, z: m.r2.y, w: m.r3.y }
}

pub open spec fn m4_col_z(m: Matrix4) -> Vector4 {
    Vector4 { x: m.r0.z, y: m.r1.z, z: m.r2.z, w: m.r3.z }
}

pub open spec fn m4_col_w(m: Matrix4) -> Vector4 {
    Vector4 { x: m.r0.w, y: m.r1.w, z: m.r2.w, w: m.r3.w }
}

pub open spec fn m4_add(a: Matrix4, b: Matrix4) -> Matrix4 {
    Matrix4 {
        r0: v4_add(a.r0, b.r0),
        r1: v4_add(a.r1, b.r1),
        r2: v4_add(a.r2, b.r2),
        r3: v4_add(a.r3, b.r3),
    }
}

pub open spec fn m4_sub(a: Matrix4, b: Matrix4) -> Matrix4 {
    Matrix4 {
        r0: v4_sub(a.r0, b.r0),
        r1: v4_sub(a.r1, b.r1),
        r2: v4_sub(a.r2, b.r2),
        r3: v4_sub(a.r3, b.r3),
    }
}

pub open spec fn m4_mul_s(a: Matrix4, k: int) -> Matrix4 {
    Matrix4 {
        r0: v4_mul_s(a.r0, k),
        r1: v4_mul_s(a.r1, k),
        r2: v4_mul_s(a.r2, k),
        r3: v4_mul_s(a.r3, k),
    }
}

/// One row of a matrix product: the row dotted with each column.
pub open spec fn m4_mul_row(r: Vector4, b: Matrix4) -> Vector4 {
    Vector4 {
        x: v4_dot(r, m4_col_x(b)) as i64,
        y: v4_dot(r, m4_col_y(b)) as i64,
        z: v4_dot(r, m4_col_z(b)) as i64,
        w: v4_dot(r, m4_col_w(b)) as i64,
    }
}

/// Matrix composition, row by row.
pub open spec fn m4_mul(a: Matrix4, b: Matrix4) -> Matrix4 {
    Matrix4 {
        r0: m4_mul_row(a.r0, b),
        r1: m4_mul_row(a.r1, b),
        r2: m4_mul_row(a.r2, b),
        r3: m4_mul_row(a.r3, b),
    }
}

/// Matrix applied to a column vector.
pub open spec fn m4_mul_vec(a: Matrix4, v: Vector4) -> Vector4 {
    Vector4 {
        x: v4_dot(a.r0, v) as i64,
        y: v4_dot(a.r1, v) as i64,
        z: v4_dot(a.r2, v) as i64,
        w: v4_dot(a.r3, v) as i64,
    }
}

pub open spec fn m4_zeros() -> Matrix4 {
    Matrix4 {
        r0: Vector4 { x: 0i64, y: 0i64, z: 0i64, w: 0i64 },
        r1: Vector4 { x: 0i64, y: 0i64, z: 0i64, w: 0i64 },
        r2: Vector4 { x: 0i64, y: 0i64, z: 0i64, w: 0i64 },
        r3: Vector4 { x: 0i64, y: 0i64, z: 0i64, w: 0i64 },
    }
}

pub open spec fn m4_identity() -> Matrix4 {
    Matrix4 {
        r0: Vector4 { x: FX_ONE as i64, y: 0i64, z: 0i64, w: 0i64 },
        r1: Vector4 { x: 0i64, y: FX_ONE as i64, z: 0i64, w: 0i64 },
        r2: Vector4 { x: 0i64, y: 0i64, z: FX_ONE as i64, w: 0i64 },
        r3: Vector4 { x: 0i64, y: 0i64, z: 0i64, w: FX_ONE as i64 },
    }
}

impl Matrix4 {
    pub fn new(r0: Vector4, r1: Vector4, r2: Vector4, r3: Vector4) -> (r: Matrix4)
        ensures
            r == (Matrix4 { r0, r1, r2, r3 }),
    {
        Matrix4 { r0, r1, r2, r3 }
    }

    /// The all-zero matrix.
    pub fn zeros() -> (r: Matrix4)
        ensures
            r == m4_zeros(),
    {
        Matrix4 {
            r0: Vector4 { x: 0, y: 0, z: 0, w: 0 },
            r1: Vector4 { x: 0, y: 0, z: 0, w: 0 },
            r2: Vector4 { x: 0, y: 0, z: 0, w: 0 },
            r3: Vector4 { x: 0, y: 0, z: 0, w: 0 },
        }
    }

    /// The identity (ones on the diagonal, in fixed-point form).
    pub fn identity() -> (r: Matrix4)
        ensures
            r == m4_identity(),
    {
        Matrix4 {
            r0: Vector4 { x: FX_ONE, y: 0, z: 0, w: 0 },
            r1: Vector4 { x: 0, y: FX_ONE, z: 0, w: 0 },
            r2: Vector4 { x: 0, y: 0, z: FX_ONE, w: 0 },
            r3: Vector4 { x: 0, y: 0, z: 0, w: FX_ONE },
        }
    }

    pub fn add(&self, o: Matrix4) -> (r: Matrix4)
        ensures
            r == m4_add(*self, o),
    {
        Matrix4 {
            r0: self.r0.add(o.r0),
            r1: self.r1.add(o.r1),
            r2: self.r2.add(o.r2),
            r3: self.r3.add(o.r3),
        }
    }

    pub fn sub(&self, o: Matrix4) -> (r: Matrix4)
        ensures
            r == m4_sub(*self, o),
    {
        Matrix4 {
            r0: self.r0.sub(o.r0),
            r1: self.r1.sub(o.r1),
            r2: self.r2.sub(o.r2),
            r3: self.r3.sub(o.r3),
        }
    }

    pub fn mul_s(&self, k: i64) -> (r: Matrix4)
        ensures
            r == m4_mul_s(*self, k as int),
    {
        Matrix4 {
            r0: self.r0.mul_s(k),
            r1: self.r1.mul_s(k),
            r2: self.r2.mul_s(k),
            r3: self.r3.mul_s(k),
        }
    }

    /// Matrix composition.
    pub fn mul(&self, o: Matrix4) -> (r: Matrix4)
        ensures
            r == m4_mul(*self, o),
    {
        let cx: Vector4 = Vector4 { x: o.r0.x, y: o.r1.x, z: o.r2.x, w: o.r3.x };
        let cy: Vector4 = Vector4 { x: o.r0.y, y: o.r1.y, z: o.r2.y, w: o.r3.y };
        let cz: Vector4 = Vector4 { x: o.r0.z, y: o.r1.z, z: o.r2.z, w: o.r3.z };
        let cw: Vector4 = Vector4 { x: o.r0.w, y: o.r1.w, z: o.r2.w, w: o.r3.w };
        Matrix4 {
            r0: Vector4 {
                x: self.r0.dot(cx),
                y: self.r0.dot(cy),
                z: self.r0.dot(cz),
                w: self.r0.dot(cw),
            },
            r1: Vector4 {
                x: self.r1.dot(cx),
                y: self.r1.dot(cy),
                z: self.r1.dot(cz),
                w: self.r1.dot(cw),
            },
            r2: Vector4 {
                x: self.r2.dot(cx),
                y: self.r2.dot(cy),
                z: self.r2.dot(cz),
                w: self.r2.dot(cw),
            },
            r3: Vector4 {
                x: self.r3.dot(cx),
                y: self.r3.dot(cy),
                z: self.r3.dot(cz),
                w: self.r3.dot(cw),
            },
        }
    }

    /// Matrix applied to a column vector.
    pub fn mul_vec(&self, v: Vector4) -> (r: Vector4)
        ensures
            r == m4_mul_vec(*self, v),
    {
        Vector4 {
            x: self.r0.dot(v),
            y: self.r1.dot(v),
            z: self.r2.dot(v),
            w: self.r3.dot(v),
        }
    }
}

} // verus!
