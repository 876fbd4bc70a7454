//! Laws of the pipeline, proved from the specifications alone.
//!
//! Each proof function states a property of the renderer's mathematics for
//! every input its premises allow; the premises only exclude saturation of
//! the fixed-point range and the degenerate denominators the design leaves
//! unguarded.

use vstd::prelude::*;

use crate::camera::{camera_transform_spec, perspective_transform_spec, Camera, NEG_TWO_FX};
use crate::fx::{iabs, s_add, s_div, s_min, s_mul, s_neg, s_sub, s_to_u64, tdiv, FX_ONE, SCALE};
use crate::light::Light;
use crate::matrix::m4_mul_vec;
use crate::scene::{buf_index, sample_covered, sample_depth, sample_step, sample_weights, shade};
use crate::texture::{at_uv_channel, Texture};
use crate::triangle::Triangle;
use crate::utils::{bary_a, bary_b, bary_c};
use crate::vector::{v2_cross, v2_neg, v2_sub, v3_cross, v3_dot, v4_vec3_homo, Vector2, Vector3,
    Vector4, EPS};

verus! {

/// A bound on vector components generous enough for any scene and small
/// enough that the arithmetic of these laws cannot saturate.
pub const COORD_BOUND: i64 = 0x40000000000;

/// Rescaling by the fixed-point unit and dividing it out is the identity.
proof fn lemma_tdiv_scale(x: int)
    ensures
        tdiv(x * (SCALE as int), SCALE as int) == x,
{
    let sc = SCALE as int;
    if x >= 0 {
        assert(iabs(x * sc) == x * sc) by (nonlinear_arith)
            requires
                x >= 0,
                sc > 0,
        ;
        vstd::arithmetic::div_mod::lemma_div_by_multiple(x, sc);
    } else {
        assert(iabs(x * sc) == (-x) * sc) by (nonlinear_arith)
            requires
                x < 0,
                sc > 0,
        ;
        vstd::arithmetic::div_mod::lemma_div_by_multiple(-x, sc);
    }
}

/// Saturating multiplication is symmetric.
proof fn lemma_smul_comm(a: int, b: int)
    ensures
        s_mul(a, b) == s_mul(b, a),
{
    assert(a * b == b * a) by (nonlinear_arith);
}

/// Below the saturation threshold, `s_mul` is the exact rescaled product,
/// with a magnitude bound.
proof fn lemma_smul_abs(a: int, b: int, ma: int, mb: int)
    requires
        iabs(a) <= ma,
        iabs(b) <= mb,
        0 <= ma,
        0 <= mb,
        ma * mb <= 0x7fffffffffffffffint * 0x10000int,
    ensures
        s_mul(a, b) == tdiv(a * b, SCALE as int),
        iabs(s_mul(a, b)) <= (ma * mb) / (SCALE as int),
{
    let sc = SCALE as int;
    assert(iabs(a * b) <= ma * mb) by (nonlinear_arith)
        requires
            iabs(a) <= ma,
            iabs(b) <= mb,
            0 <= ma,
            0 <= mb,
    ;
    vstd::arithmetic::div_mod::lemma_div_is_ordered(iabs(a * b), ma * mb, sc);
    vstd::arithmetic::div_mod::lemma_div_pos_is_pos(iabs(a * b), sc);
    assert((0x7fffffffffffffffint * 0x10000int) / sc == 0x7fffffffffffffffint);
    vstd::arithmetic::div_mod::lemma_div_is_ordered(ma * mb, 0x7fffffffffffffffint * 0x10000int, sc);
}

/// Homogeneous round trip: promoting a point to w = 1 and demoting it again
/// returns the original vector exactly (the components must only stay below
/// the saturation threshold).
pub proof fn lemma_homo_round_trip(v: Vector3)
    requires
        iabs(v.x as int) <= COORD_BOUND as int,
        iabs(v.y as int) <= COORD_BOUND as int,
        iabs(v.z as int) <= COORD_BOUND as int,
    ensures
        v4_vec3_homo(Vector4 { x: v.x, y: v.y, z: v.z, w: FX_ONE as i64 }) == v,
{
    lemma_tdiv_scale(v.x as int);
    lemma_tdiv_scale(v.y as int);
    lemma_tdiv_scale(v.z as int);
    assert(iabs(FX_ONE as int) >= EPS as int);
}

/// A nonzero scalar divided by itself is exactly one.
proof fn lemma_sdiv_self(d: int)
    requires
        d != 0,
    ensures
        s_div(d, d) == FX_ONE as int,
{
    let sc = SCALE as int;
    assert(iabs(d * sc) == iabs(d) * sc) by (nonlinear_arith)
        requires
            sc > 0,
    ;
    vstd::arithmetic::div_mod::lemma_div_by_multiple(sc, iabs(d));
    assert((iabs(d) * sc) / iabs(d) == (sc * iabs(d)) / iabs(d)) by (nonlinear_arith);
    assert((d >= 0) == (d * sc >= 0)) by (nonlinear_arith)
        requires
            sc > 0,
            d != 0,
    ;
}

/// Zero divided by anything is zero.
proof fn lemma_sdiv_zero(d: int)
    ensures
        s_div(0, d) == 0,
{
    if d != 0 {
        assert(iabs(0 * (SCALE as int)) == 0);
        vstd::arithmetic::div_mod::lemma_div_pos_is_pos(0, iabs(d));
        vstd::arithmetic::div_mod::lemma_div_is_ordered(0, 0, iabs(d));
        assert(0int / iabs(d) == 0) by {
            vstd::arithmetic::div_mod::lemma_fundamental_div_mod_converse(0, iabs(d), 0, 0);
        }
    }
}

/// Multiplying any scalar by zero gives zero.
proof fn lemma_smul_zero(x: int)
    ensures
        s_mul(x, 0) == 0,
{
    assert(x * 0 == 0) by (nonlinear_arith);
    assert(iabs(0int) / iabs(SCALE as int) == 0) by {
        vstd::arithmetic::div_mod::lemma_fundamental_div_mod_converse(0, SCALE as int, 0, 0);
    }
}

/// The cross product of a plane vector with itself vanishes.
proof fn lemma_cross_self(v: Vector2)
    ensures
        v2_cross(v, v) == 0,
{
    lemma_smul_comm(v.x as int, v.y as int);
}

/// Barycentric weights at the triangle's first vertex are exactly
/// (1, 0, 0); the area denominator for the first weight must not vanish.
pub proof fn lemma_barycentric_at_vertex0(t0: Vector2, t1: Vector2, t2: Vector2)
    requires
        iabs(t0.x as int) <= COORD_BOUND as int,
        iabs(t0.y as int) <= COORD_BOUND as int,
        iabs(t1.x as int) <= COORD_BOUND as int,
        iabs(t1.y as int) <= COORD_BOUND as int,
        iabs(t2.x as int) <= COORD_BOUND as int,
        iabs(t2.y as int) <= COORD_BOUND as int,
        v2_cross(v2_sub(t2, t1), v2_neg(v2_sub(t1, t0))) != 0,
    ensures
        bary_a(t0, t1, t2, t0) == FX_ONE as int,
        bary_b(t0, t1, t2, t0) == 0,
        bary_c(t0, t1, t2, t0) == 0,
{
    assert(v2_sub(t0, t1) == v2_neg(v2_sub(t1, t0)));
    lemma_sdiv_self(v2_cross(v2_sub(t2, t1), v2_neg(v2_sub(t1, t0))));
    assert(v2_sub(t0, t2) == v2_sub(t0, t2));
    lemma_cross_self(v2_sub(t0, t2));
    lemma_sdiv_zero(v2_cross(v2_sub(t0, t2), v2_neg(v2_sub(t2, t1))));
}

/// Barycentric weights at the second vertex are exactly (0, 1, 0).
pub proof fn lemma_barycentric_at_vertex1(t0: Vector2, t1: Vector2, t2: Vector2)
    requires
        iabs(t0.x as int) <= COORD_BOUND as int,
        iabs(t0.y as int) <= COORD_BOUND as int,
        iabs(t1.x as int) <= COORD_BOUND as int,
        iabs(t1.y as int) <= COORD_BOUND as int,
        iabs(t2.x as int) <= COORD_BOUND as int,
        iabs(t2.y as int) <= COORD_BOUND as int,
        v2_cross(v2_sub(t0, t2), v2_neg(v2_sub(t2, t1))) != 0,
    ensures
        bary_a(t0, t1, t2, t1) == 0,
        bary_b(t0, t1, t2, t1) == FX_ONE as int,
        bary_c(t0, t1, t2, t1) == 0,
{
    assert(v2_sub(t1, t1) == (Vector2 { x: 0i64, y: 0i64 }));
    assert(v2_cross(v2_sub(t2, t1), Vector2 { x: 0i64, y: 0i64 }) == 0);
    lemma_sdiv_zero(v2_cross(v2_sub(t2, t1), v2_neg(v2_sub(t1, t0))));
    assert(v2_sub(t1, t2) == v2_neg(v2_sub(t2, t1)));
    lemma_sdiv_self(v2_cross(v2_sub(t0, t2), v2_neg(v2_sub(t2, t1))));
}

/// Barycentric weights at the third vertex are exactly (0, 0, 1), with no
/// condition at all: both numerators vanish identically.
pub proof fn lemma_barycentric_at_vertex2(t0: Vector2, t1: Vector2, t2: Vector2)
    requires
        iabs(t0.x as int) <= COORD_BOUND as int,
        iabs(t0.y as int) <= COORD_BOUND as int,
        iabs(t1.x as int) <= COORD_BOUND as int,
        iabs(t1.y as int) <= COORD_BOUND as int,
        iabs(t2.x as int) <= COORD_BOUND as int,
        iabs(t2.y as int) <= COORD_BOUND as int,
    ensures
        bary_a(t0, t1, t2, t2) == 0,
        bary_b(t0, t1, t2, t2) == 0,
        bary_c(t0, t1, t2, t2) == FX_ONE as int,
{
    assert(v2_sub(t2, t1) == v2_sub(t2, t1));
    lemma_cross_self(v2_sub(t2, t1));
    lemma_sdiv_zero(v2_cross(v2_sub(t2, t1), v2_neg(v2_sub(t1, t0))));
    assert(v2_sub(t2, t2) == (Vector2 { x: 0i64, y: 0i64 }));
    assert(v2_cross(v2_sub(t0, t2), Vector2 { x: 0i64, y: 0i64 }) == 0);
    lemma_sdiv_zero(v2_cross(v2_sub(t0, t2), v2_neg(v2_sub(t2, t1))));
}

/// Wherever the first two weights do not saturate — everywhere inside the
/// triangle in particular — the three weights sum exactly to one, because
/// the third is defined as the exact complement.
pub proof fn lemma_barycentric_sum(t0: Vector2, t1: Vector2, t2: Vector2, p: Vector2)
    requires
        iabs(bary_a(t0, t1, t2, p)) <= 0x1000000000000000,
        iabs(bary_b(t0, t1, t2, p)) <= 0x1000000000000000,
    ensures
        s_add(
            s_add(bary_a(t0, t1, t2, p), bary_b(t0, t1, t2, p)),
            bary_c(t0, t1, t2, p),
        ) == FX_ONE as int,
{
}

/// Sampling a texture at an exact texel centre returns that texel's value
/// unchanged: the fractional offsets vanish and the three blends are
/// identities.
pub proof fn lemma_texture_center(t: Texture, u: int, v: int, px: int, py: int, m: int)
    requires
        t.wf(),
        0 <= px < t.width,
        0 <= py < t.height,
        s_mul(u, t.width * (SCALE as int)) == px * (SCALE as int),
        s_mul(v, t.height * (SCALE as int)) == py * (SCALE as int),
        0 <= m < 3,
    ensures
        at_uv_channel(t, u, v, m) == t.texel(px, py, m) as int,
{
    let sc = SCALE as int;
    let x = px * sc;
    let y = py * sc;
    assert(0 <= x <= (t.width - 1) * sc && 0 <= y <= (t.height - 1) * sc) by (nonlinear_arith)
        requires
            0 <= px < t.width,
            0 <= py < t.height,
            sc > 0,
            x == px * sc,
            y == py * sc,
    ;
    vstd::arithmetic::div_mod::lemma_div_by_multiple(px, sc);
    vstd::arithmetic::div_mod::lemma_div_by_multiple(py, sc);
    assert(px * sc == sc * px && py * sc == sc * py) by (nonlinear_arith);
    assert(x / sc == px && y / sc == py);
    assert((x / sc) * sc == x && (y / sc) * sc == y) by (nonlinear_arith)
        requires
            x / sc == px,
            y / sc == py,
            x == px * sc,
            y == py * sc,
    ;
    let p1 = t.texel(px, py, m) as int * sc;
    assert(0 <= p1 <= 255 * sc) by (nonlinear_arith)
        requires
            0 <= t.texel(px, py, m) as int <= 255,
            p1 == t.texel(px, py, m) as int * sc,
            sc == 65536,
    ;
    lemma_tdiv_scale(p1);
    assert(s_mul(p1, sc) == p1);
    let p2 = t.texel(s_to_u64(s_min(s_add(x, sc), (t.width - 1) * sc)), py, m) as int * sc;
    let p3 = t.texel(px, s_to_u64(s_min(s_add(y, sc), (t.height - 1) * sc)), m) as int * sc;
    let p4 = t.texel(
        s_to_u64(s_min(s_add(x, sc), (t.width - 1) * sc)),
        s_to_u64(s_min(s_add(y, sc), (t.height - 1) * sc)),
        m,
    ) as int * sc;
    lemma_smul_zero(p2);
    lemma_smul_zero(p4);
    assert(s_sub(x, x) == 0);
    assert(s_sub(FX_ONE as int, 0) == sc);
    let row1 = s_add(s_mul(p1, sc), s_mul(p2, 0));
    assert(row1 == p1);
    let row2 = s_add(s_mul(p3, sc), s_mul(p4, 0));
    lemma_smul_zero(row2);
    assert(s_add(s_mul(row1, sc), s_mul(row2, 0)) == p1);
    vstd::arithmetic::div_mod::lemma_div_by_multiple(t.texel(px, py, m) as int, sc);
    assert(s_to_u64(p1) == t.texel(px, py, m) as int) by {
        assert(p1 == sc * (t.texel(px, py, m) as int)) by (nonlinear_arith)
            requires
                p1 == t.texel(px, py, m) as int * sc,
        ;
        vstd::arithmetic::div_mod::lemma_div_multiples_vanish(t.texel(px, py, m) as int, sc);
    }
}

/// A bound on camera parameters below which the view-transform algebra
/// cannot saturate.
pub const CAM_BOUND: i64 = 0x40000000;

/// Truncating division flips sign with its dividend.
proof fn lemma_tdiv_neg(n: int, dd: int)
    requires
        dd > 0,
    ensures
        tdiv(-n, dd) == -tdiv(n, dd),
{
    assert(iabs(-n) == iabs(n));
}

/// One row term of the view matrix times the position cancels the matching
/// term of the translation dot product.
proof fn lemma_row_terms(px: int, py: int, pz: int, vx: int, vy: int, vz: int, bv: int)
    requires
        iabs(px) <= CAM_BOUND as int,
        iabs(py) <= CAM_BOUND as int,
        iabs(pz) <= CAM_BOUND as int,
        iabs(vx) <= bv,
        iabs(vy) <= bv,
        iabs(vz) <= bv,
        0 <= bv <= 0x200000000000,
    ensures
        s_add(
            s_add(
                s_add(s_mul(vx, px), s_mul(vy, py)),
                s_mul(vz, pz),
            ),
            s_neg(s_add(s_add(s_mul(px, vx), s_mul(py, vy)), s_mul(pz, vz))),
        ) == 0,
        iabs(s_add(s_add(s_mul(px, vx), s_mul(py, vy)), s_mul(pz, vz))) <= 0x1800000000000000,
{
    let b = CAM_BOUND as int;
    lemma_smul_comm(vx, px);
    lemma_smul_comm(vy, py);
    lemma_smul_comm(vz, pz);
    lemma_smul_abs(px, vx, b, bv);
    lemma_smul_abs(py, vy, b, bv);
    lemma_smul_abs(pz, vz, b, bv);
    assert(0 <= b * bv <= 0x8000000000000000000) by (nonlinear_arith)
        requires
            b == 0x40000000,
            0 <= bv <= 0x200000000000,
    ;
    vstd::arithmetic::div_mod::lemma_div_is_ordered(b * bv, 0x8000000000000000000int, SCALE as int);
    vstd::arithmetic::div_mod::lemma_div_by_multiple(0x800000000000000int, SCALE as int);
    assert(0x800000000000000int * (SCALE as int) == 0x8000000000000000000int) by (nonlinear_arith);
}

/// The camera transform maps the camera's own position exactly to the
/// origin of camera space: each row's translation term is built from the
/// same products the row itself produces against the position.
pub proof fn lemma_camera_maps_position_to_origin(c: Camera)
    requires
        iabs(c.pos.x as int) <= CAM_BOUND as int,
        iabs(c.pos.y as int) <= CAM_BOUND as int,
        iabs(c.pos.z as int) <= CAM_BOUND as int,
        iabs(c.dir.x as int) <= CAM_BOUND as int,
        iabs(c.dir.y as int) <= CAM_BOUND as int,
        iabs(c.dir.z as int) <= CAM_BOUND as int,
        iabs(c.up.x as int) <= CAM_BOUND as int,
        iabs(c.up.y as int) <= CAM_BOUND as int,
        iabs(c.up.z as int) <= CAM_BOUND as int,
    ensures
        m4_mul_vec(
            camera_transform_spec(c),
            Vector4 { x: c.pos.x, y: c.pos.y, z: c.pos.z, w: FX_ONE as i64 },
        ) == (Vector4 { x: 0i64, y: 0i64, z: 0i64, w: FX_ONE as i64 }),
{
    let sc = SCALE as int;
    let b = CAM_BOUND as int;
    let p = c.pos;
    let d = c.dir;
    let u = c.up;
    lemma_smul_abs(d.y as int, u.z as int, b, b);
    lemma_smul_abs(d.z as int, u.y as int, b, b);
    lemma_smul_abs(d.z as int, u.x as int, b, b);
    lemma_smul_abs(d.x as int, u.z as int, b, b);
    lemma_smul_abs(d.x as int, u.y as int, b, b);
    lemma_smul_abs(d.y as int, u.x as int, b, b);
    assert(b * b == 0x100000000000int * sc) by (nonlinear_arith)
        requires
            b == 0x40000000,
            sc == 65536,
    ;
    vstd::arithmetic::div_mod::lemma_div_by_multiple(0x100000000000int, sc);
    let v = v3_cross(d, u);
    assert(iabs(v.x as int) <= 0x200000000000 && iabs(v.y as int) <= 0x200000000000 && iabs(
        v.z as int,
    ) <= 0x200000000000);
    lemma_row_terms(p.x as int, p.y as int, p.z as int, v.x as int, v.y as int, v.z as int,
        0x200000000000);
    lemma_row_terms(p.x as int, p.y as int, p.z as int, u.x as int, u.y as int, u.z as int,
        b);
    let kv = v3_dot(p, v);
    let ku = v3_dot(p, u);
    let kd = v3_dot(p, d);
    lemma_tdiv_scale(s_neg(kv));
    lemma_tdiv_scale(s_neg(ku));
    lemma_tdiv_scale(kd);
    // third row: the negated direction terms cancel the positive ones of kd
    lemma_smul_abs(p.x as int, d.x as int, b, b);
    lemma_smul_abs(p.y as int, d.y as int, b, b);
    lemma_smul_abs(p.z as int, d.z as int, b, b);
    lemma_smul_comm(s_neg(d.x as int), p.x as int);
    lemma_smul_comm(s_neg(d.y as int), p.y as int);
    lemma_smul_comm(s_neg(d.z as int), p.z as int);
    lemma_smul_abs(p.x as int, s_neg(d.x as int), b, b);
    lemma_smul_abs(p.y as int, s_neg(d.y as int), b, b);
    lemma_smul_abs(p.z as int, s_neg(d.z as int), b, b);
    assert(p.x as int * (s_neg(d.x as int)) == -(p.x as int * (d.x as int))) by (nonlinear_arith)
        requires
            s_neg(d.x as int) == -(d.x as int),
    ;
    assert(p.y as int * (s_neg(d.y as int)) == -(p.y as int * (d.y as int))) by (nonlinear_arith)
        requires
            s_neg(d.y as int) == -(d.y as int),
    ;
    assert(p.z as int * (s_neg(d.z as int)) == -(p.z as int * (d.z as int))) by (nonlinear_arith)
        requires
            s_neg(d.z as int) == -(d.z as int),
    ;
    lemma_tdiv_neg(p.x as int * (d.x as int), sc);
    lemma_tdiv_neg(p.y as int * (d.y as int), sc);
    lemma_tdiv_neg(p.z as int * (d.z as int), sc);
    // last row: zeros and the homogeneous one
    lemma_smul_comm(0, p.x as int);
    lemma_smul_comm(0, p.y as int);
    lemma_smul_comm(0, p.z as int);
    lemma_smul_zero(p.x as int);
    lemma_smul_zero(p.y as int);
    lemma_smul_zero(p.z as int);
    lemma_tdiv_scale(sc);
}

/// Depth-buffer monotonicity at one subsample: a covered sample stores the
/// minimum of the old depth and its own; a sample farther than the stored
/// depth never overwrites it; no other entry moves.
pub proof fn lemma_depth_buffer_monotonic(
    fb: Seq<u8>,
    zb: Seq<i64>,
    tri: Triangle,
    tex: Option<Texture>,
    lights: Seq<Light>,
    campos: Vector3,
    w0: int,
    w1: int,
    w2: int,
    pc0: Vector3,
    pc1: Vector3,
    pc2: Vector3,
    width: int,
    height: int,
    msaa: int,
    xpx: int,
    ypx: int,
    kx: int,
    ky: int,
)
    requires
        0 <= buf_index(width, height, msaa, xpx, ypx, kx, ky) < zb.len(),
    ensures
        sample_step(fb, zb, tri, tex, lights, campos, w0, w1, w2, pc0, pc1, pc2, width, height,
            msaa, xpx, ypx, kx, ky).1.len() == zb.len(),
        forall|j: int|
            0 <= j < zb.len() && j != buf_index(width, height, msaa, xpx, ypx, kx, ky)
                ==> sample_step(fb, zb, tri, tex, lights, campos, w0, w1, w2, pc0, pc1, pc2,
                width, height, msaa, xpx, ypx, kx, ky).1[j] == zb[j],
        sample_step(fb, zb, tri, tex, lights, campos, w0, w1, w2, pc0, pc1, pc2, width, height,
            msaa, xpx, ypx, kx, ky).1[buf_index(width, height, msaa, xpx, ypx, kx, ky)] <= zb[
            buf_index(width, height, msaa, xpx, ypx, kx, ky)],
        sample_covered(pc0, pc1, pc2, msaa, xpx, ypx, kx, ky) ==> sample_step(fb, zb, tri, tex,
            lights, campos, w0, w1, w2, pc0, pc1, pc2, width, height, msaa, xpx, ypx, kx,
            ky).1[buf_index(width, height, msaa, xpx, ypx, kx, ky)] as int == s_min(
            zb[buf_index(width, height, msaa, xpx, ypx, kx, ky)] as int,
            sample_depth(w0, w1, w2, pc0, pc1, pc2, msaa, xpx, ypx, kx, ky),
        ),
        sample_depth(w0, w1, w2, pc0, pc1, pc2, msaa, xpx, ypx, kx, ky) > zb[buf_index(
            width,
            height,
            msaa,
            xpx,
            ypx,
            kx,
            ky,
        )] as int ==> sample_step(fb, zb, tri, tex, lights, campos, w0, w1, w2, pc0, pc1, pc2,
            width, height, msaa, xpx, ypx, kx, ky).1 == zb,
{
}

/// Visibility is draw-order independent at a subsample for strictly
/// different depths: rasterizing triangle A then B leaves exactly the same
/// framebuffer and depth buffer as B then A.
#[verifier::rlimit(100)]
#[verifier::spinoff_prover]
pub proof fn lemma_draw_order_independent(
    fb: Seq<u8>,
    zb: Seq<i64>,
    tri_a: Triangle,
    tex_a: Option<Texture>,
    tri_b: Triangle,
    tex_b: Option<Texture>,
    lights: Seq<Light>,
    campos: Vector3,
    wa0: int,
    wa1: int,
    wa2: int,
    pa0: Vector3,
    pa1: Vector3,
    pa2: Vector3,
    wb0: int,
    wb1: int,
    wb2: int,
    pb0: Vector3,
    pb1: Vector3,
    pb2: Vector3,
    width: int,
    height: int,
    msaa: int,
    xpx: int,
    ypx: int,
    kx: int,
    ky: int,
)
    requires
        0 <= buf_index(width, height, msaa, xpx, ypx, kx, ky),
        3 * buf_index(width, height, msaa, xpx, ypx, kx, ky) + 2 < fb.len(),
        buf_index(width, height, msaa, xpx, ypx, kx, ky) < zb.len(),
        sample_depth(wa0, wa1, wa2, pa0, pa1, pa2, msaa, xpx, ypx, kx, ky) != sample_depth(
            wb0,
            wb1,
            wb2,
            pb0,
            pb1,
            pb2,
            msaa,
            xpx,
            ypx,
            kx,
            ky,
        ),
    ensures
        ({
            let ab1 = sample_step(fb, zb, tri_a, tex_a, lights, campos, wa0, wa1, wa2, pa0, pa1,
                pa2, width, height, msaa, xpx, ypx, kx, ky);
            let ab = sample_step(ab1.0, ab1.1, tri_b, tex_b, lights, campos, wb0, wb1, wb2, pb0,
                pb1, pb2, width, height, msaa, xpx, ypx, kx, ky);
            let ba1 = sample_step(fb, zb, tri_b, tex_b, lights, campos, wb0, wb1, wb2, pb0, pb1,
                pb2, width, height, msaa, xpx, ypx, kx, ky);
            let ba = sample_step(ba1.0, ba1.1, tri_a, tex_a, lights, campos, wa0, wa1, wa2, pa0,
                pa1, pa2, width, height, msaa, xpx, ypx, kx, ky);
            ab.0 == ba.0 && ab.1 == ba.1
        }),
{
    let idx = buf_index(width, height, msaa, xpx, ypx, kx, ky);
    let cov_a = sample_covered(pa0, pa1, pa2, msaa, xpx, ypx, kx, ky);
    let cov_b = sample_covered(pb0, pb1, pb2, msaa, xpx, ypx, kx, ky);
    let da = sample_depth(wa0, wa1, wa2, pa0, pa1, pa2, msaa, xpx, ypx, kx, ky);
    let db = sample_depth(wb0, wb1, wb2, pb0, pb1, pb2, msaa, xpx, ypx, kx, ky);
    let rgb_a = shade(
        tri_a,
        tex_a,
        lights,
        campos,
        sample_weights(wa0, wa1, wa2, pa0, pa1, pa2, msaa, xpx, ypx, kx, ky).0,
        sample_weights(wa0, wa1, wa2, pa0, pa1, pa2, msaa, xpx, ypx, kx, ky).1,
        sample_weights(wa0, wa1, wa2, pa0, pa1, pa2, msaa, xpx, ypx, kx, ky).2,
    );
    let rgb_b = shade(
        tri_b,
        tex_b,
        lights,
        campos,
        sample_weights(wb0, wb1, wb2, pb0, pb1, pb2, msaa, xpx, ypx, kx, ky).0,
        sample_weights(wb0, wb1, wb2, pb0, pb1, pb2, msaa, xpx, ypx, kx, ky).1,
        sample_weights(wb0, wb1, wb2, pb0, pb1, pb2, msaa, xpx, ypx, kx, ky).2,
    );
    if cov_a && cov_b {
        let z0 = zb[idx] as int;
        if da <= z0 && db <= z0 {
            if da < db {
                assert(zb.update(idx, da as i64)[idx] == da as i64);
                assert(zb.update(idx, db as i64).update(idx, da as i64) =~= zb.update(
                    idx,
                    da as i64,
                ));
                assert(fb.update(3 * idx, rgb_b.0 as u8).update(3 * idx + 1, rgb_b.1 as u8).update(
                    3 * idx + 2,
                    rgb_b.2 as u8,
                ).update(3 * idx, rgb_a.0 as u8).update(3 * idx + 1, rgb_a.1 as u8).update(
                    3 * idx + 2,
                    rgb_a.2 as u8,
                ) =~= fb.update(3 * idx, rgb_a.0 as u8).update(3 * idx + 1, rgb_a.1 as u8).update(
                    3 * idx + 2,
                    rgb_a.2 as u8,
                ));
            } else {
                assert(zb.update(idx, db as i64)[idx] == db as i64);
                assert(zb.update(idx, da as i64).update(idx, db as i64) =~= zb.update(
                    idx,
                    db as i64,
                ));
                assert(fb.update(3 * idx, rgb_a.0 as u8).update(3 * idx + 1, rgb_a.1 as u8).update(
                    3 * idx + 2,
                    rgb_a.2 as u8,
                ).update(3 * idx, rgb_b.0 as u8).update(3 * idx + 1, rgb_b.1 as u8).update(
                    3 * idx + 2,
                    rgb_b.2 as u8,
                ) =~= fb.update(3 * idx, rgb_b.0 as u8).update(3 * idx + 1, rgb_b.1 as u8).update(
                    3 * idx + 2,
                    rgb_b.2 as u8,
                ));
            }
        } else if da <= z0 {
            assert(zb.update(idx, da as i64)[idx] == da as i64);
        } else if db <= z0 {
            assert(zb.update(idx, db as i64)[idx] == db as i64);
        }
    }
}

/// Exact truncating division: where the divisor divides the dividend, the
/// truncated quotient is the Euclidean one and reconstructs the dividend.
proof fn lemma_tdiv_exact(x: int, d: int)
    requires
        d > 0,
        0 <= x,
        x % d == 0,
    ensures
        tdiv(x, d) == x / d,
        d * (x / d) == x,
        0 <= x / d <= x,
{
    vstd::arithmetic::div_mod::lemma_fundamental_div_mod(x, d);
    vstd::arithmetic::div_mod::lemma_div_pos_is_pos(x, d);
    vstd::arithmetic::div_mod::lemma_div_is_ordered_by_denominator(x, 1, d);
    vstd::arithmetic::div_mod::lemma_div_by_multiple(x, 1);
}

/// The perspective transform maps the on-axis point at the near clip
/// distance to a post-divide depth of exactly minus one, and the far one to
/// exactly plus one — at parameter values where the fixed-point operations
/// are exact, which the divisibility premises state (for instance whole
/// near and far distances whose difference divides the products involved).
/// At other values the mapping is off by the rounding of the matrix
/// entries.
pub proof fn lemma_perspective_boundaries(c: Camera, n: int, f: int)
    requires
        EPS as int <= n < f,
        f <= 0x100000000,
        ((n + f) * (SCALE as int)) % (f - n) == 0,
        (2 * f * n) % (SCALE as int) == 0,
        (2 * f * n) % (f - n) == 0,
        (n * (n + f)) % (f - n) == 0,
        (f * (n + f)) % (f - n) == 0,
        2 * f * n / (f - n) <= 0x100000000000000,
    ensures
        v4_vec3_homo(
            m4_mul_vec(
                perspective_transform_spec(c, n, f),
                Vector4 { x: 0i64, y: 0i64, z: (-n) as i64, w: FX_ONE as i64 },
            ),
        ).z == -(FX_ONE as int),
        v4_vec3_homo(
            m4_mul_vec(
                perspective_transform_spec(c, n, f),
                Vector4 { x: 0i64, y: 0i64, z: (-f) as i64, w: FX_ONE as i64 },
            ),
        ).z == FX_ONE as int,
{
    let sc = SCALE as int;
    let d = f - n;
    // the z-scale entry: A = -(n + f) * sc / d, exactly
    assert(0 <= (n + f) * sc && ((n + f) * sc) % d == 0 && (-(n + f)) * sc == -((n + f) * sc))
        by (nonlinear_arith)
        requires
            0 < n < f,
            ((n + f) * sc) % d == 0,
            sc > 0,
            d == f - n,
    ;
    lemma_tdiv_exact((n + f) * sc, d);
    lemma_tdiv_neg((n + f) * sc, d);
    let qa = ((n + f) * sc) / d;
    assert(s_neg(n) == -n && s_sub(s_neg(n), f) == -(n + f) && s_sub(f, n) == d);
    assert(s_div(-(n + f), d) == -qa);
    // the translation entry: B = -(2 f n / d), exactly
    assert((NEG_TWO_FX as int) * f == -((2 * f) * sc) && 0 <= (2 * f) * sc && ((2 * f) * sc) % sc
        == 0) by (nonlinear_arith)
        requires
            0 < f,
            sc == 65536,
            NEG_TWO_FX as int == -2 * sc,
    ;
    lemma_tdiv_exact((2 * f) * sc, sc);
    lemma_tdiv_neg((2 * f) * sc, sc);
    vstd::arithmetic::div_mod::lemma_div_multiples_vanish(2 * f, sc);
    assert(((2 * f) * sc) == sc * (2 * f)) by (nonlinear_arith);
    assert(s_mul(NEG_TWO_FX as int, f) == -(2 * f));
    let m1 = 2 * f * n / sc;
    assert((-(2 * f)) * n == -(2 * f * n) && 0 <= 2 * f * n) by (nonlinear_arith)
        requires
            0 < n < f,
    ;
    lemma_tdiv_exact(2 * f * n, sc);
    lemma_tdiv_neg(2 * f * n, sc);
    assert(2 * f * n <= 0x20000000000000000) by (nonlinear_arith)
        requires
            0 < n < f <= 0x100000000,
    ;
    vstd::arithmetic::div_mod::lemma_div_is_ordered(2 * f * n, 0x20000000000000000int, sc);
    vstd::arithmetic::div_mod::lemma_div_by_multiple(0x2000000000000int, sc);
    assert(0x2000000000000int * sc == 0x20000000000000000int) by (nonlinear_arith)
        requires
            sc == 65536,
    ;
    assert(s_mul(-(2 * f), n) == -m1);
    let m2 = 2 * f * n / d;
    assert((-m1) * sc == -(2 * f * n)) by (nonlinear_arith)
        requires
            sc * m1 == 2 * f * n,
    ;
    lemma_tdiv_exact(2 * f * n, d);
    lemma_tdiv_neg(2 * f * n, d);
    assert(s_div(-m1, d) == -m2);
    // the row against the near point: qa * n == (n (n + f) / d) * sc
    let t1 = n * (n + f) / d;
    assert(0 <= n * (n + f)) by (nonlinear_arith)
        requires
            0 < n < f,
    ;
    lemma_tdiv_exact(n * (n + f), d);
    assert((-qa) * (-n) == qa * n && qa * n == t1 * sc) by (nonlinear_arith)
        requires
            d * qa == (n + f) * sc,
            d * t1 == n * (n + f),
            d > 0,
    ;
    lemma_tdiv_scale(t1);
    assert(t1 == m2 - n) by (nonlinear_arith)
        requires
            d * t1 == n * (n + f),
            d * m2 == 2 * f * n,
            d == f - n,
            d > 0,
    ;
    assert(s_mul(-qa, -n) == t1);
    // the row against the far point: qa * f == (f (n + f) / d) * sc
    let t2 = f * (n + f) / d;
    assert(0 <= f * (n + f)) by (nonlinear_arith)
        requires
            0 < n < f,
    ;
    lemma_tdiv_exact(f * (n + f), d);
    assert((-qa) * (-f) == qa * f && qa * f == t2 * sc) by (nonlinear_arith)
        requires
            d * qa == (n + f) * sc,
            d * t2 == f * (n + f),
            d > 0,
    ;
    lemma_tdiv_scale(t2);
    assert(t2 == m2 + f) by (nonlinear_arith)
        requires
            d * t2 == f * (n + f),
            d * m2 == 2 * f * n,
            d == f - n,
            d > 0,
    ;
    assert(s_mul(-qa, -f) == t2);
    // remaining matrix entries against the point are zeros and identities
    lemma_smul_zero(0);
    lemma_smul_comm(0, sc);
    lemma_smul_zero(sc);
    lemma_tdiv_scale(-m2);
    assert(s_mul(-m2, sc) == -m2);
    assert((-(sc)) * (-n) == n * sc && (-(sc)) * (-f) == f * sc) by (nonlinear_arith);
    lemma_tdiv_scale(n);
    lemma_tdiv_scale(f);
    assert(s_neg(FX_ONE as int) == -sc);
    assert(s_mul(-sc, -n) == n && s_mul(-sc, -f) == f);
    // the interpolated depths collapse to -n and f, and the divides are
    // exact
    assert(s_add(s_add(s_add(0, 0), t1), -m2) == -n);
    assert(s_add(s_add(s_add(0, 0), t2), -m2) == f);
    assert(s_add(s_add(s_add(0, 0), n), 0) == n);
    assert(s_add(s_add(s_add(0, 0), f), 0) == f);
    vstd::arithmetic::div_mod::lemma_mod_multiples_basic(sc, n);
    lemma_tdiv_exact(n * sc, n);
    lemma_tdiv_neg(n * sc, n);
    vstd::arithmetic::div_mod::lemma_div_multiples_vanish(sc, n);
    assert(n * sc == sc * n && (-n) * sc == -(n * sc)) by (nonlinear_arith);
    assert(s_div(-n, n) == -sc);
    lemma_sdiv_self(f);
}

} // verus!
