//! Plane geometry helpers: signed-area barycentric coordinates and the
//! bilinear filter weights.

use vstd::prelude::*;

use crate::fx::{fx_div, fx_floor, fx_mul, fx_sub, s_div, s_floor, s_mul, s_sub, FX_ONE};
use crate::vector::{v2_cross, v2_neg, v2_sub, Vector2};

verus! {

/// The first two barycentric coordinates of `p` against the triangle
/// `(t0, t1, t2)`, by the signed-area (cross product) formula; the third is
/// one minus the other two. A degenerate (zero-area) triangle divides by
/// zero, which saturates as `s_div` describes and is discarded by the
/// coverage test downstream.
pub open spec fn bary_a(t0: Vector2, t1: Vector2, t2: Vector2, p: Vector2) -> int {
    let l0 = v2_sub(t1, t0);
    let l1 = v2_sub(t2, t1);
    let v1 = v2_sub(p, t1);
    s_div(v2_cross(l1, v1), v2_cross(l1, v2_neg(l0)))
}

pub open spec fn bary_b(t0: Vector2, t1: Vector2, t2: Vector2, p: Vector2) -> int {
    let l1 = v2_sub(t2, t1);
    let l2 = v2_sub(t0, t2);
    let v2 = v2_sub(p, t2);
    s_div(v2_cross(l2, v2), v2_cross(l2, v2_neg(l1)))
}

pub open spec fn bary_c(t0: Vector2, t1: Vector2, t2: Vector2, p: Vector2) -> int {
    s_sub(s_sub(FX_ONE as int, bary_a(t0, t1, t2, p)), bary_b(t0, t1, t2, p))
}

/// 2-D barycentric coordinates of a point against a screen-space triangle.
pub fn barycentric_2d(tri: [Vector2; 3], p: Vector2) -> (r: (i64, i64, i64))
    ensures
        r.0 as int == bary_a(tri[0], tri[1], tri[2], p),
        r.1 as int == bary_b(tri[0], tri[1], tri[2], p),
        r.2 as int == bary_c(tri[0], tri[1], tri[2], p),
{
    let l0: Vector2 = tri[1].sub(tri[0]);
    let l1: Vector2 = tri[2].sub(tri[1]);
    let l2: Vector2 = tri[0].sub(tri[2]);
    let v1: Vector2 = p.sub(tri[1]);
    let v2: Vector2 = p.sub(tri[2]);
    let a: i64 = fx_div(l1.cross(v1), l1.cross(l0.neg()));
    let b: i64 = fx_div(l2.cross(v2), l2.cross(l1.neg()));
    (a, b, fx_sub(fx_sub(FX_ONE, a), b))
}

/// The integer corner below `p` and the four bilinear weights of a value `v`
/// against the fractional offsets of `p` within its cell.
pub open spec fn filter_spec(p: Vector2, v: int) -> (Vector2, int, int, int, int) {
    let p1 = Vector2 { x: s_floor(p.x as int) as i64, y: s_floor(p.y as int) as i64 };
    let t = s_sub(p.x as int, p1.x as int);
    let s = s_sub(p.y as int, p1.y as int);
    (
        p1,
        s_mul(s_mul(v, s_sub(FX_ONE as int, t)), s_sub(FX_ONE as int, s)),
        s_mul(s_mul(v, t), s_sub(FX_ONE as int, s)),
        s_mul(s_mul(v, s_sub(FX_ONE as int, t)), s),
        s_mul(s_mul(v, t), s),
    )
}

/// Bilinear filter: splits a value over the four integer corners around `p`.
pub fn filter(p: Vector2, v: i64) -> (r: (Vector2, i64, i64, i64, i64))
    ensures
        (r.0, r.1 as int, r.2 as int, r.3 as int, r.4 as int) == filter_spec(p, v as int),
{
    let p1: Vector2 = Vector2 { x: fx_floor(p.x), y: fx_floor(p.y) };
    let delta: Vector2 = p.sub(p1);
    let t: i64 = delta.x;
    let s: i64 = delta.y;
    (
        p1,
        fx_mul(fx_mul(v, fx_sub(FX_ONE, t)), fx_sub(FX_ONE, s)),
        fx_mul(fx_mul(v, t), fx_sub(FX_ONE, s)),
        fx_mul(fx_mul(v, fx_sub(FX_ONE, t)), s),
        fx_mul(fx_mul(v, t), s),
    )
}

} // verus!
