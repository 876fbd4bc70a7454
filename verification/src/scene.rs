//! The scene and its rasterizer: the core pipeline.
//!
//! For each triangle of each model the three vertices are taken through the
//! camera, perspective and viewport transforms, keeping the pre-divide clip
//! w; a screen-space bounding box, clamped to the image, is walked per pixel
//! and per MSAA subsample; covered subsamples (by signed-area barycentric
//! coordinates, edge inclusive) get perspective-correct attribute weights, a
//! screen-space-interpolated depth test against the z-buffer, Blinn-Phong
//! shading and a write into the supersampled framebuffer, which a box filter
//! finally reduces to the output resolution.
//!
//! Every step is specified exactly: the result of `rasterize` equals a
//! mathematical mirror (`render_spec`) of the whole pipeline, stated over
//! sequences and saturating fixed-point scalars.

use vstd::prelude::*;

use crate::camera::{camera_ortho, camera_transform_spec, perspective_transform_spec, Camera};
use crate::fx::{fx_add, fx_div, fx_max, fx_min, fx_mul, fx_neg, fx_powi, fx_sub, fx_to_u64,
    iabs, s_add, s_div, s_max, s_min, s_mul, s_neg, s_powi, s_sub, s_to_u64, sqrt_floor, FX_ONE,
    SCALE};
use crate::light::{Light, BP_P};
use crate::matrix::{m4_mul, m4_mul_vec, Matrix4};
use crate::model::{get_tri_spec, Model};
use crate::texture::{at_uv_channel, Texture, MAX_DIM};
use crate::triangle::Triangle;
use crate::utils::{bary_a, bary_b, barycentric_2d};
use crate::vector::{v2_add, v2_mul_s, v3_add, v3_div_s, v3_dot, v3_mul, v3_mul_s, v3_norm,
    v3_normalize, v3_sub, v4_vec3_homo, Vector2, Vector3, Vector4, EPS};

verus! {

/// Near clip distance (0.01 in fixed-point form).
pub const ZNR: i64 = 655;

/// Far clip distance (500 in fixed-point form).
pub const ZFR: i64 = 32768000;

/// Ambient light added per sample and channel (0.03 in fixed-point form).
pub const AMBIENT: i64 = 1966;

/// 255 in fixed-point form: full channel intensity.
pub const FX_255: i64 = 16711680;

/// Largest supersampling factor; greater requests are clamped to it.
pub const MAX_MSAA: usize = 16;

#[derive(Clone, Copy, Debug, PartialEq, Eq, Structural)]
pub enum RenderError {
    /// A side of the requested output is zero, above the addressable
    /// maximum, or the buffers would not fit in memory.
    SizeOutOfRange,
    /// The output's width-over-height differs from the camera's aspect
    /// ratio by EPS or more.
    AspectMismatch,
}

pub struct Scene {
    pub camera: Camera,
    pub models: Vec<Model>,
    pub lights: Vec<Light>,
}

/// The requested supersampling factor, coerced to at least 1 and clamped to
/// the maximum.
pub open spec fn clamp_msaa(msaa: int) -> int {
    if msaa <= 1 {
        1
    } else if msaa > MAX_MSAA as int {
        MAX_MSAA as int
    } else {
        msaa
    }
}

/// The viewport transform: maps post-divide clip x, y from [-1, 1] to pixel
/// coordinates, passing z and w through.
pub open spec fn viewport_mat(width: int, height: int) -> Matrix4 {
    let hw = width * ((SCALE as int) / 2);
    let hh = height * ((SCALE as int) / 2);
    Matrix4 {
        r0: Vector4 { x: hw as i64, y: 0i64, z: 0i64, w: hw as i64 },
        r1: Vector4 { x: 0i64, y: hh as i64, z: 0i64, w: hh as i64 },
        r2: Vector4 { x: 0i64, y: 0i64, z: FX_ONE as i64, w: 0i64 },
        r3: Vector4 { x: 0i64, y: 0i64, z: 0i64, w: FX_ONE as i64 },
    }
}

/// A world-space point taken to clip space.
pub open spec fn clip_vert(cmat: Matrix4, v: Vector3) -> Vector4 {
    m4_mul_vec(cmat, Vector4 { x: v.x, y: v.y, z: v.z, w: FX_ONE as i64 })
}

/// Subsample position within a pixel row or column: the (2k+1)/(2 msaa)
/// offsets of regular supersampling.
pub open spec fn sample_coord(px: int, k: int, msaa: int) -> int {
    ((2 * (px * msaa + k) + 1) * (SCALE as int)) / (2 * msaa)
}

/// Index of a subsample in the supersampled buffers (row 0 of the image is
/// the top, so the pixel row is flipped).
pub open spec fn buf_index(width: int, height: int, msaa: int, xpx: int, ypx: int, kx: int, ky: int) -> int {
    (xpx + (height - ypx - 1) * width) * (msaa * msaa) + ky * msaa + kx
}

/// Screen-space projection of a clip vertex, as a plane point.
pub open spec fn flat(pc: Vector3) -> Vector2 {
    Vector2 { x: pc.x, y: pc.y }
}

pub open spec fn white() -> Vector3 {
    Vector3 { x: FX_ONE as i64, y: FX_ONE as i64, z: FX_ONE as i64 }
}

pub open spec fn ambient() -> Vector3 {
    Vector3 { x: AMBIENT as i64, y: AMBIENT as i64, z: AMBIENT as i64 }
}

/// Screen-space-linear interpolation of three vectors by barycentric
/// weights.
pub open spec fn interp3(p0: Vector3, p1: Vector3, p2: Vector3, a: int, b: int, c: int) -> Vector3 {
    v3_add(v3_add(v3_mul_s(p0, a), v3_mul_s(p1, b)), v3_mul_s(p2, c))
}

pub open spec fn interp2(p0: Vector2, p1: Vector2, p2: Vector2, a: int, b: int, c: int) -> Vector2 {
    v2_add(v2_add(v2_mul_s(p0, a), v2_mul_s(p1, b)), v2_mul_s(p2, c))
}

/// The diffuse colour under a sample: the texture's bilinear sample, or
/// white without a texture, as full-intensity channel scalars.
pub open spec fn base_color(tex: Option<Texture>, u: int, v: int) -> Vector3 {
    match tex {
        Some(t) => Vector3 {
            x: (at_uv_channel(t, u, v, 0) * (SCALE as int)) as i64,
            y: (at_uv_channel(t, u, v, 1) * (SCALE as int)) as i64,
            z: (at_uv_channel(t, u, v, 2) * (SCALE as int)) as i64,
        },
        None => Vector3 { x: FX_255 as i64, y: FX_255 as i64, z: FX_255 as i64 },
    }
}

/// One light's Blinn-Phong contribution at a sample: ambient plus diffuse
/// plus specular, attenuated by inverse squared distance for point lights.
pub open spec fn light_contrib(l: Light, clr: Vector3, norm: Vector3, pos: Vector3, campos: Vector3) -> Vector3 {
    match l {
        Light::Point { pos: lp, li } => {
            let dist = v3_norm(v3_sub(lp, pos));
            let id2 = s_div(FX_ONE as int, s_mul(dist, dist));
            let lv = v3_normalize(v3_sub(lp, pos));
            let vv = v3_normalize(v3_sub(campos, pos));
            let h = v3_normalize(v3_add(lv, vv));
            let diff = v3_mul_s(v3_mul(clr, v3_mul_s(li, id2)), s_max(v3_dot(norm, lv), 0));
            let spc = v3_mul_s(
                v3_mul(white(), v3_mul_s(li, id2)),
                s_powi(s_max(v3_dot(norm, h), 0), BP_P as nat),
            );
            v3_add(v3_add(ambient(), diff), spc)
        },
        Light::Parallel { dir: ld, li } => {
            let lv = v3_normalize(ld);
            let vv = v3_normalize(v3_sub(campos, pos));
            let h = v3_normalize(v3_add(lv, vv));
            let diff = v3_mul_s(v3_mul(clr, li), s_max(v3_dot(norm, lv), 0));
            let spc = v3_mul_s(v3_mul(white(), li), s_powi(s_max(v3_dot(norm, h), 0), BP_P as nat));
            v3_add(v3_add(ambient(), diff), spc)
        },
    }
}

/// Additive composition of the first `n` lights' contributions.
pub open spec fn light_sum(lights: Seq<Light>, n: int, clr: Vector3, norm: Vector3, pos: Vector3, campos: Vector3) -> Vector3
    decreases n,
{
    if n <= 0 {
        Vector3 { x: 0i64, y: 0i64, z: 0i64 }
    } else {
        v3_add(
            light_sum(lights, n - 1, clr, norm, pos, campos),
            light_contrib(lights[n - 1], clr, norm, pos, campos),
        )
    }
}

/// A shaded channel quantized to a byte: clamped to [0, 1], scaled by 255
/// and truncated.
pub open spec fn color_byte(x: int) -> int {
    s_to_u64(s_mul(s_min(s_max(x, 0), FX_ONE as int), FX_255 as int))
}

/// The full shading of one covered sample from its perspective-correct
/// weights: interpolated position, renormalized normal, UV, texture colour,
/// and the additive Blinn-Phong sum, per channel.
pub open spec fn shade(tri: Triangle, tex: Option<Texture>, lights: Seq<Light>, campos: Vector3, a: int, b: int, c: int) -> (int, int, int) {
    let pos = interp3(tri.v0, tri.v1, tri.v2, a, b, c);
    let norm = v3_normalize(interp3(tri.n0, tri.n1, tri.n2, a, b, c));
    let uv = interp2(tri.uv0, tri.uv1, tri.uv2, a, b, c);
    let clr = v3_div_s(base_color(tex, uv.x as int, uv.y as int), FX_255 as int);
    let liv = light_sum(lights, lights.len() as int, clr, norm, pos, campos);
    (color_byte(liv.x as int), color_byte(liv.y as int), color_byte(liv.z as int))
}

/// The plane point of one subsample.
pub open spec fn sample_point(msaa: int, xpx: int, ypx: int, kx: int, ky: int) -> Vector2 {
    Vector2 { x: sample_coord(xpx, kx, msaa) as i64, y: sample_coord(ypx, ky, msaa) as i64 }
}

/// Whether the subsample lies in the projected triangle (edge inclusive).
pub open spec fn sample_covered(
    pc0: Vector3,
    pc1: Vector3,
    pc2: Vector3,
    msaa: int,
    xpx: int,
    ypx: int,
    kx: int,
    ky: int,
) -> bool {
    let ps = sample_point(msaa, xpx, ypx, kx, ky);
    let af = bary_a(flat(pc0), flat(pc1), flat(pc2), ps);
    let bf = bary_b(flat(pc0), flat(pc1), flat(pc2), ps);
    !(af < 0 || bf < 0 || s_add(af, bf) > FX_ONE as int)
}

/// The perspective-correct barycentric weights of a covered subsample: the
/// raw screen-space weights divided by their vertex's clip w and
/// renormalized.
pub open spec fn sample_weights(
    w0: int,
    w1: int,
    w2: int,
    pc0: Vector3,
    pc1: Vector3,
    pc2: Vector3,
    msaa: int,
    xpx: int,
    ypx: int,
    kx: int,
    ky: int,
) -> (int, int, int) {
    let ps = sample_point(msaa, xpx, ypx, kx, ky);
    let af = bary_a(flat(pc0), flat(pc1), flat(pc2), ps);
    let bf = bary_b(flat(pc0), flat(pc1), flat(pc2), ps);
    let cf = s_sub(s_sub(FX_ONE as int, af), bf);
    let zn = s_div(FX_ONE as int, s_add(s_add(s_div(af, w0), s_div(bf, w1)), s_div(cf, w2)));
    (s_div(s_mul(af, zn), w0), s_div(s_mul(bf, zn), w1), s_div(s_mul(cf, zn), w2))
}

/// The subsample's depth: the screen-space z interpolated by the corrected
/// weights (not itself perspective corrected, as standard depth buffering).
pub open spec fn sample_depth(
    w0: int,
    w1: int,
    w2: int,
    pc0: Vector3,
    pc1: Vector3,
    pc2: Vector3,
    msaa: int,
    xpx: int,
    ypx: int,
    kx: int,
    ky: int,
) -> int {
    let abc = sample_weights(w0, w1, w2, pc0, pc1, pc2, msaa, xpx, ypx, kx, ky);
    s_add(
        s_add(s_mul(abc.0, pc0.z as int), s_mul(abc.1, pc1.z as int)),
        s_mul(abc.2, pc2.z as int),
    )
}

/// One subsample of one triangle: coverage test, perspective correction,
/// depth test, shading, and the buffer writes — or the buffers unchanged.
pub open spec fn sample_step(
    fb: Seq<u8>,
    zb: Seq<i64>,
    tri: Triangle,
    tex: Option<Texture>,
    lights: Seq<Light>,
    campos: Vector3,
    w0: int,
    w1: int,
    w2: int,
    pc0: Vector3,
    pc1: Vector3,
    pc2: Vector3,
    width: int,
    height: int,
    msaa: int,
    xpx: int,
    ypx: int,
    kx: int,
    ky: int,
) -> (Seq<u8>, Seq<i64>) {
    let idx = buf_index(width, height, msaa, xpx, ypx, kx, ky);
    if !sample_covered(pc0, pc1, pc2, msaa, xpx, ypx, kx, ky) {
        (fb, zb)
    } else {
        let abc = sample_weights(w0, w1, w2, pc0, pc1, pc2, msaa, xpx, ypx, kx, ky);
        let psz = sample_depth(w0, w1, w2, pc0, pc1, pc2, msaa, xpx, ypx, kx, ky);
        if psz > zb[idx] {
            (fb, zb)
        } else {
            let rgb = shade(tri, tex, lights, campos, abc.0, abc.1, abc.2);
            (
                fb.update(3 * idx, rgb.0 as u8).update(3 * idx + 1, rgb.1 as u8).update(
                    3 * idx + 2,
                    rgb.2 as u8,
                ),
                zb.update(idx, psz as i64),
            )
        }
    }
}

/// The texture a borrowed option stands for.
pub open spec fn opt_tex(t: Option<&Texture>) -> Option<Texture> {
    match t {
        Some(tt) => Some(*tt),
        None => None,
    }
}

impl Scene {
    /// The scene's invariant: a valid camera and resolvable models.
    pub open spec fn wf(self) -> bool {
        &&& camera_ortho(self.camera.dir, self.camera.up)
        &&& forall|i: int| 0 <= i < self.models.len() ==> (#[trigger] self.models[i]).wf()
    }

    /// An empty scene with the default camera: at the origin, looking down
    /// the negative z axis, y up, a 90-degree vertical field of view
    /// (half-angle tangent exactly 1) and square aspect.
    pub fn new() -> (r: Scene)
        ensures
            r.camera == (Camera {
                pos: Vector3 { x: 0i64, y: 0i64, z: 0i64 },
                dir: Vector3 { x: 0i64, y: 0i64, z: (-(FX_ONE as int)) as i64 },
                up: Vector3 { x: 0i64, y: FX_ONE as i64, z: 0i64 },
                half_fov_tan: FX_ONE as i64,
                aspect: FX_ONE as i64,
            }),
            r.models.len() == 0,
            r.lights.len() == 0,
            r.wf(),
    {
        let dir: Vector3 = Vector3 { x: 0, y: 0, z: -FX_ONE };
        let up: Vector3 = Vector3 { x: 0, y: FX_ONE, z: 0 };
        proof {
            crate::fx::lemma_sqrt_floor_is(0x100000000, 0x10000);
            assert(s_mul(0, 0) == 0 && s_mul(-65536, 65536) == -65536);
            assert(s_mul(-65536, -65536) == 65536 && s_mul(65536, 65536) == 65536);
            assert(v3_dot(dir, dir) == 65536 && v3_dot(up, up) == 65536);
            assert(v3_norm(dir) == FX_ONE as int);
            assert(v3_norm(up) == FX_ONE as int);
            assert(s_div(0, 65536) == 0 && s_div(-65536, 65536) == -65536 && s_div(
                65536,
                65536,
            ) == 65536);
            assert(v3_normalize(dir) == dir);
            assert(v3_normalize(up) == up);
        }
        let camera: Camera = Camera::new(Vector3 { x: 0, y: 0, z: 0 }, dir, up, FX_ONE, FX_ONE);
        Scene { camera, models: Vec::new(), lights: Vec::new() }
    }

    /// Replaces the camera wholesale; the new one must satisfy the camera
    /// invariant.
    pub fn set_camera(&mut self, camera: Camera)
        requires
            camera_ortho(camera.dir, camera.up),
        ensures
            final(self).camera == camera,
            final(self).models == old(self).models,
            final(self).lights == old(self).lights,
            old(self).wf() ==> final(self).wf(),
    {
        self.camera = camera;
    }

    pub fn add_model(&mut self, model: Model)
        requires
            model.wf(),
        ensures
            final(self).models@ == old(self).models@.push(model),
            final(self).camera == old(self).camera,
            final(self).lights == old(self).lights,
            old(self).wf() ==> final(self).wf(),
    {
        self.models.push(model);
        proof {
            if old(self).wf() {
                assert forall|i: int| 0 <= i < self.models.len() implies (
                #[trigger] self.models[i]).wf() by {
                    if i < old(self).models.len() {
                        assert(old(self).models[i].wf());
                    }
                }
            }
        }
    }

    pub fn add_light(&mut self, light: Light)
        ensures
            final(self).lights@ == old(self).lights@.push(light),
            final(self).camera == old(self).camera,
            final(self).models == old(self).models,
            old(self).wf() ==> final(self).wf(),
    {
        self.lights.push(light);
    }
}

/// A fresh zeroed byte buffer.
fn zeros_u8(n: usize) -> (r: Vec<u8>)
    ensures
        r@.len() == n,
        forall|i: int| 0 <= i < n ==> r@[i] == 0u8,
{
    let mut v: Vec<u8> = Vec::new();
    let mut i: usize = 0;
    while i < n
        invariant
            i <= n,
            v@.len() == i,
            forall|j: int| 0 <= j < i ==> v@[j] == 0u8,
        decreases n - i,
    {
        v.push(0);
        i = i + 1;
    }
    v
}

/// A fresh depth buffer, every entry at the farthest representable depth.
fn fill_i64(n: usize, value: i64) -> (r: Vec<i64>)
    ensures
        r@.len() == n,
        forall|i: int| 0 <= i < n ==> r@[i] == value,
{
    let mut v: Vec<i64> = Vec::new();
    let mut i: usize = 0;
    while i < n
        invariant
            i <= n,
            v@.len() == i,
            forall|j: int| 0 <= j < i ==> v@[j] == value,
        decreases n - i,
    {
        v.push(value);
        i = i + 1;
    }
    v
}

/// The viewport matrix for an output of the given size.
pub fn viewport_transform(width: usize, height: usize) -> (r: Matrix4)
    requires
        1 <= width <= MAX_DIM,
        1 <= height <= MAX_DIM,
    ensures
        r == viewport_mat(width as int, height as int),
{
    let hw: i64 = (width as i64) * (SCALE / 2);
    let hh: i64 = (height as i64) * (SCALE / 2);
    Matrix4 {
        r0: Vector4 { x: hw, y: 0, z: 0, w: hw },
        r1: Vector4 { x: 0, y: hh, z: 0, w: hh },
        r2: Vector4 { x: 0, y: 0, z: FX_ONE, w: 0 },
        r3: Vector4 { x: 0, y: 0, z: 0, w: FX_ONE },
    }
}

/// A shaded channel as its quantized byte.
fn color_byte_exec(x: i64) -> (r: u8)
    ensures
        r as int == color_byte(x as int),
{
    let clamped: i64 = fx_min(fx_max(x, 0), FX_ONE);
    let v: i64 = fx_mul(clamped, FX_255);
    proof {
        let sc = SCALE as int;
        assert(0 <= clamped as int * (FX_255 as int) <= (FX_ONE as int) * (FX_255 as int))
            by (nonlinear_arith)
            requires
                0 <= clamped as int <= FX_ONE as int,
        ;
        vstd::arithmetic::div_mod::lemma_div_pos_is_pos(clamped as int * (FX_255 as int), sc);
        vstd::arithmetic::div_mod::lemma_div_is_ordered(
            clamped as int * (FX_255 as int),
            255 * sc * sc,
            sc,
        );
        assert(255 * sc * sc == (255 * sc) * sc) by (nonlinear_arith);
        vstd::arithmetic::div_mod::lemma_div_by_multiple(255 * sc, sc);
        vstd::arithmetic::div_mod::lemma_div_pos_is_pos(v as int, sc);
        vstd::arithmetic::div_mod::lemma_div_is_ordered(v as int, 255 * sc, sc);
        vstd::arithmetic::div_mod::lemma_div_by_multiple(255, sc);
    }
    let b: u64 = fx_to_u64(v);
    b as u8
}

/// One light's contribution, mirrored from its specification.
fn light_contrib_exec(l: &Light, clr: Vector3, norm: Vector3, pos: Vector3, campos: Vector3) -> (r: Vector3)
    ensures
        r == light_contrib(*l, clr, norm, pos, campos),
{
    let amb: Vector3 = Vector3 { x: AMBIENT, y: AMBIENT, z: AMBIENT };
    let wht: Vector3 = Vector3 { x: FX_ONE, y: FX_ONE, z: FX_ONE };
    match l {
        Light::Point { pos: lp, li } => {
            let dist: i64 = lp.sub(pos).norm();
            let id2: i64 = fx_div(FX_ONE, fx_mul(dist, dist));
            let lv: Vector3 = lp.sub(pos).normalize();
            let vv: Vector3 = campos.sub(pos).normalize();
            let h: Vector3 = lv.add(vv).normalize();
            let diff: Vector3 = clr.mul(li.mul_s(id2)).mul_s(fx_max(norm.dot(lv), 0));
            let spc: Vector3 = wht.mul(li.mul_s(id2)).mul_s(
                fx_powi(fx_max(norm.dot(h), 0), BP_P),
            );
            amb.add(diff).add(spc)
        },
        Light::Parallel { dir: ld, li } => {
            let lv: Vector3 = ld.normalize();
            let vv: Vector3 = campos.sub(pos).normalize();
            let h: Vector3 = lv.add(vv).normalize();
            let diff: Vector3 = clr.mul(*li).mul_s(fx_max(norm.dot(lv), 0));
            let spc: Vector3 = wht.mul(*li).mul_s(fx_powi(fx_max(norm.dot(h), 0), BP_P));
            amb.add(diff).add(spc)
        },
    }
}

/// A subsample index stays inside the supersampled buffers.
proof fn lemma_buf_index_bound(width: int, height: int, msaa: int, xpx: int, ypx: int, kx: int, ky: int)
    requires
        1 <= width,
        1 <= height,
        1 <= msaa,
        0 <= xpx < width,
        0 <= ypx < height,
        0 <= kx < msaa,
        0 <= ky < msaa,
    ensures
        0 <= buf_index(width, height, msaa, xpx, ypx, kx, ky) < width * height * (msaa * msaa),
{
    assert(0 <= (xpx + (height - ypx - 1) * width) * (msaa * msaa) + ky * msaa + kx < width
        * height * (msaa * msaa)) by (nonlinear_arith)
        requires
            1 <= width,
            1 <= height,
            1 <= msaa,
            0 <= xpx < width,
            0 <= ypx < height,
            0 <= kx < msaa,
            0 <= ky < msaa,
    ;
}

/// Rasterizes one subsample of one triangle, exactly as `sample_step`
/// describes.
#[verifier::rlimit(30)]
fn raster_sample(
    fb: &mut Vec<u8>,
    zb: &mut Vec<i64>,
    tri: &Triangle,
    tex: Option<&Texture>,
    lights: &Vec<Light>,
    campos: Vector3,
    w0: i64,
    w1: i64,
    w2: i64,
    pc0: Vector3,
    pc1: Vector3,
    pc2: Vector3,
    width: usize,
    height: usize,
    msaa: usize,
    xpx: u64,
    ypx: u64,
    kx: u64,
    ky: u64,
)
    requires
        1 <= width <= MAX_DIM,
        1 <= height <= MAX_DIM,
        1 <= msaa <= MAX_MSAA,
        xpx < width as u64,
        ypx < height as u64,
        kx < msaa as u64,
        ky < msaa as u64,
        old(zb).len() == width * height * (msaa * msaa),
        old(fb).len() == 3 * (width * height * (msaa * msaa)),
        tex matches Some(t) ==> t.wf(),
    ensures
        (final(fb)@, final(zb)@) == sample_step(
            old(fb)@,
            old(zb)@,
            *tri,
            opt_tex(tex),
            lights@,
            campos,
            w0 as int,
            w1 as int,
            w2 as int,
            pc0,
            pc1,
            pc2,
            width as int,
            height as int,
            msaa as int,
            xpx as int,
            ypx as int,
            kx as int,
            ky as int,
        ),
        final(fb).len() == old(fb).len(),
        final(zb).len() == old(zb).len(),
{
    let m64: u64 = msaa as u64;
    proof {
        assert((xpx as int) * (m64 as int) + kx < 0x40000 && (ypx as int) * (m64 as int) + ky
            < 0x40000 && (ky as int) * (m64 as int) < 0x100 && 1 <= (m64 as int) * (m64 as int)
            <= 0x100) by (nonlinear_arith)
            requires
                xpx < 16384,
                ypx < 16384,
                kx < m64,
                ky < m64,
                1 <= m64 <= 16,
        ;
    }
    let nx: u64 = 2 * (xpx * m64 + kx) + 1;
    let ny: u64 = 2 * (ypx * m64 + ky) + 1;
    let psx: i64 = ((nx * 65536) / (2 * m64)) as i64;
    let psy: i64 = ((ny * 65536) / (2 * m64)) as i64;
    let ps: Vector2 = Vector2 { x: psx, y: psy };
    proof {
        lemma_buf_index_bound(
            width as int,
            height as int,
            msaa as int,
            xpx as int,
            ypx as int,
            kx as int,
            ky as int,
        );
        assert(0 <= ((height as int) - ypx - 1) * (width as int) <= 16383 * 16384)
            by (nonlinear_arith)
            requires
                0 <= (height as int) - ypx - 1 < 16384,
                1 <= width <= 16384,
        ;
        assert((xpx as int + ((height as int) - ypx - 1) * (width as int)) * ((m64 as int) * (
        m64 as int)) < 0x4000000000) by (nonlinear_arith)
            requires
                0 <= xpx as int + ((height as int) - ypx - 1) * (width as int) < 0x10000000,
                1 <= (m64 as int) * (m64 as int) <= 256,
        ;
    }
    let mm: u64 = m64 * m64;
    let row: u64 = (height as u64) - ypx - 1;
    let pix: u64 = xpx + row * (width as u64);
    let idx64: u64 = pix * mm + ky * m64 + kx;
    let idx: usize = idx64 as usize;
    let pf0: Vector2 = Vector2 { x: pc0.x, y: pc0.y };
    let pf1: Vector2 = Vector2 { x: pc1.x, y: pc1.y };
    let pf2: Vector2 = Vector2 { x: pc2.x, y: pc2.y };
    let (af, bf, _cf): (i64, i64, i64) = barycentric_2d([pf0, pf1, pf2], ps);
    if af < 0 || bf < 0 || fx_add(af, bf) > FX_ONE {
        return ;
    }
    let cf: i64 = fx_sub(fx_sub(FX_ONE, af), bf);
    let zn: i64 = fx_div(FX_ONE, fx_add(fx_add(fx_div(af, w0), fx_div(bf, w1)), fx_div(cf, w2)));
    let a: i64 = fx_div(fx_mul(af, zn), w0);
    let b: i64 = fx_div(fx_mul(bf, zn), w1);
    let c: i64 = fx_div(fx_mul(cf, zn), w2);
    let psz: i64 = fx_add(fx_add(fx_mul(a, pc0.z), fx_mul(b, pc1.z)), fx_mul(c, pc2.z));
    if psz > zb[idx] {
        return ;
    }
    zb.set(idx, psz);
    let pos: Vector3 = tri.v0.mul_s(a).add(tri.v1.mul_s(b)).add(tri.v2.mul_s(c));
    let norm: Vector3 = tri.n0.mul_s(a).add(tri.n1.mul_s(b)).add(tri.n2.mul_s(c)).normalize();
    let uv: Vector2 = tri.uv0.mul_s(a).add(tri.uv1.mul_s(b)).add(tri.uv2.mul_s(c));
    let base: Vector3 = match tex {
        Some(t) => {
            let uc: [u8; 3] = t.at_uv(uv.x, uv.y);
            Vector3 {
                x: (uc[0] as i64) * SCALE,
                y: (uc[1] as i64) * SCALE,
                z: (uc[2] as i64) * SCALE,
            }
        },
        None => Vector3 { x: FX_255, y: FX_255, z: FX_255 },
    };
    let clr: Vector3 = base.div_s(FX_255);
    let mut liv: Vector3 = Vector3 { x: 0, y: 0, z: 0 };
    let mut li_i: usize = 0;
    while li_i < lights.len()
        invariant
            li_i <= lights.len(),
            liv == light_sum(lights@, li_i as int, clr, norm, pos, campos),
        decreases lights.len() - li_i,
    {
        let one_light: Vector3 = light_contrib_exec(&lights[li_i], clr, norm, pos, campos);
        liv = liv.add(one_light);
        li_i = li_i + 1;
    }
    let cr: u8 = color_byte_exec(liv.x);
    let cg: u8 = color_byte_exec(liv.y);
    let cb: u8 = color_byte_exec(liv.z);
    fb.set(3 * idx, cr);
    fb.set(3 * idx + 1, cg);
    fb.set(3 * idx + 2, cb);
}

/// The number of subsamples the walk over a clamped bounding box visits.
pub open spec fn tri_sample_count(l: int, r: int, t: int, b: int, msaa: int) -> int {
    if l > r || t > b {
        0
    } else {
        (r - l + 1) * ((b - t + 1) * (msaa * msaa))
    }
}

/// The subsample with flat index `s` of the box walk: x advances slowest,
/// then y, then the subsample column, then the subsample row.
pub open spec fn sample_step_at(
    fb: Seq<u8>,
    zb: Seq<i64>,
    tri: Triangle,
    tex: Option<Texture>,
    lights: Seq<Light>,
    campos: Vector3,
    w0: int,
    w1: int,
    w2: int,
    pc0: Vector3,
    pc1: Vector3,
    pc2: Vector3,
    width: int,
    height: int,
    msaa: int,
    l: int,
    t: int,
    b: int,
    s: int,
) -> (Seq<u8>, Seq<i64>) {
    let per_x = (b - t + 1) * (msaa * msaa);
    let xpx = l + s / per_x;
    let rem = s % per_x;
    let ypx = t + rem / (msaa * msaa);
    let rem2 = rem % (msaa * msaa);
    let kx = rem2 / msaa;
    let ky = rem2 % msaa;
    sample_step(
        fb,
        zb,
        tri,
        tex,
        lights,
        campos,
        w0,
        w1,
        w2,
        pc0,
        pc1,
        pc2,
        width,
        height,
        msaa,
        xpx,
        ypx,
        kx,
        ky,
    )
}

/// The first `n` subsamples of one triangle's box walk, folded in order.
pub open spec fn raster_tri_upto(
    fb: Seq<u8>,
    zb: Seq<i64>,
    tri: Triangle,
    tex: Option<Texture>,
    lights: Seq<Light>,
    campos: Vector3,
    w0: int,
    w1: int,
    w2: int,
    pc0: Vector3,
    pc1: Vector3,
    pc2: Vector3,
    width: int,
    height: int,
    msaa: int,
    l: int,
    t: int,
    b: int,
    n: int,
) -> (Seq<u8>, Seq<i64>)
    decreases n,
{
    if n <= 0 {
        (fb, zb)
    } else {
        let prev = raster_tri_upto(
            fb,
            zb,
            tri,
            tex,
            lights,
            campos,
            w0,
            w1,
            w2,
            pc0,
            pc1,
            pc2,
            width,
            height,
            msaa,
            l,
            t,
            b,
            n - 1,
        );
        sample_step_at(
            prev.0,
            prev.1,
            tri,
            tex,
            lights,
            campos,
            w0,
            w1,
            w2,
            pc0,
            pc1,
            pc2,
            width,
            height,
            msaa,
            l,
            t,
            b,
            n - 1,
        )
    }
}

/// Low edge of the clamped bounding box on one axis.
pub open spec fn screen_lo(a: int, b: int, c: int) -> int {
    s_max(s_min(s_min(a, b), c), 0)
}

/// High edge of the clamped bounding box on one axis.
pub open spec fn screen_hi(a: int, b: int, c: int, limit: int) -> int {
    s_min(s_max(s_max(a, b), c), limit)
}

/// One whole triangle: transforms, projection, clamped bounding box, and the
/// fold over every subsample of the box.
pub open spec fn draw_tri_spec(
    fb: Seq<u8>,
    zb: Seq<i64>,
    cmat: Matrix4,
    tri: Triangle,
    tex: Option<Texture>,
    lights: Seq<Light>,
    campos: Vector3,
    width: int,
    height: int,
    msaa: int,
) -> (Seq<u8>, Seq<i64>) {
    let p0 = clip_vert(cmat, tri.v0);
    let p1 = clip_vert(cmat, tri.v1);
    let p2 = clip_vert(cmat, tri.v2);
    let pc0 = v4_vec3_homo(p0);
    let pc1 = v4_vec3_homo(p1);
    let pc2 = v4_vec3_homo(p2);
    let l = s_to_u64(screen_lo(pc0.x as int, pc1.x as int, pc2.x as int));
    let r = s_to_u64(
        screen_hi(pc0.x as int, pc1.x as int, pc2.x as int, (width - 1) * (SCALE as int)),
    );
    let t = s_to_u64(screen_lo(pc0.y as int, pc1.y as int, pc2.y as int));
    let b = s_to_u64(
        screen_hi(pc0.y as int, pc1.y as int, pc2.y as int, (height - 1) * (SCALE as int)),
    );
    raster_tri_upto(
        fb,
        zb,
        tri,
        tex,
        lights,
        campos,
        p0.w as int,
        p1.w as int,
        p2.w as int,
        pc0,
        pc1,
        pc2,
        width,
        height,
        msaa,
        l,
        t,
        b,
        tri_sample_count(l, r, t, b, msaa),
    )
}

/// Rasterizes one triangle into the supersampled buffers, exactly as
/// `draw_tri_spec` describes.
#[verifier::rlimit(50)]
pub fn draw_triangle(
    fb: &mut Vec<u8>,
    zb: &mut Vec<i64>,
    cmat: &Matrix4,
    tri: &Triangle,
    tex: Option<&Texture>,
    lights: &Vec<Light>,
    campos: Vector3,
    width: usize,
    height: usize,
    msaa: usize,
)
    requires
        1 <= width <= MAX_DIM,
        1 <= height <= MAX_DIM,
        1 <= msaa <= MAX_MSAA,
        old(zb).len() == width * height * (msaa * msaa),
        old(fb).len() == 3 * (width * height * (msaa * msaa)),
        tex matches Some(t) ==> t.wf(),
    ensures
        (final(fb)@, final(zb)@) == draw_tri_spec(
            old(fb)@,
            old(zb)@,
            *cmat,
            *tri,
            opt_tex(tex),
            lights@,
            campos,
            width as int,
            height as int,
            msaa as int,
        ),
        final(fb).len() == old(fb).len(),
        final(zb).len() == old(zb).len(),
{
    let p0: Vector4 = cmat.mul_vec(tri.v0.homo_point());
    let p1: Vector4 = cmat.mul_vec(tri.v1.homo_point());
    let p2: Vector4 = cmat.mul_vec(tri.v2.homo_point());
    let pc0: Vector3 = p0.vec3_homo();
    let pc1: Vector3 = p1.vec3_homo();
    let pc2: Vector3 = p2.vec3_homo();
    let last_x: i64 = ((width - 1) as i64) * SCALE;
    let last_y: i64 = ((height - 1) as i64) * SCALE;
    let lo_x: i64 = fx_max(fx_min(fx_min(pc0.x, pc1.x), pc2.x), 0);
    let hi_x: i64 = fx_min(fx_max(fx_max(pc0.x, pc1.x), pc2.x), last_x);
    let lo_y: i64 = fx_max(fx_min(fx_min(pc0.y, pc1.y), pc2.y), 0);
    let hi_y: i64 = fx_min(fx_max(fx_max(pc0.y, pc1.y), pc2.y), last_y);
    let l: u64 = fx_to_u64(lo_x);
    let rr: u64 = fx_to_u64(hi_x);
    let tt: u64 = fx_to_u64(lo_y);
    let bb: u64 = fx_to_u64(hi_y);
    proof {
        vstd::arithmetic::div_mod::lemma_div_by_multiple((width - 1) as int, SCALE as int);
        vstd::arithmetic::div_mod::lemma_div_by_multiple((height - 1) as int, SCALE as int);
        if hi_x >= 0 {
            vstd::arithmetic::div_mod::lemma_div_is_ordered(
                hi_x as int,
                last_x as int,
                SCALE as int,
            );
        }
        if hi_y >= 0 {
            vstd::arithmetic::div_mod::lemma_div_is_ordered(
                hi_y as int,
                last_y as int,
                SCALE as int,
            );
        }
        assert(rr < width as u64 && bb < height as u64);
    }
    if l > rr || tt > bb {
        return ;
    }
    let m64: u64 = msaa as u64;
    proof {
        assert(1 <= (m64 as int) * (m64 as int) <= 256) by (nonlinear_arith)
            requires
                1 <= m64 <= 16,
        ;
    }
    let mm: u64 = m64 * m64;
    let bw: u64 = rr - l + 1;
    let bh: u64 = bb - tt + 1;
    proof {
        assert(1 <= (bh as int) * (mm as int) <= 16384 * 256) by (nonlinear_arith)
            requires
                1 <= bh <= 16384,
                1 <= mm <= 256,
        ;
    }
    let per_x: u64 = bh * mm;
    proof {
        assert(1 <= (bw as int) * (per_x as int) <= 16384 * (16384 * 256)) by (nonlinear_arith)
            requires
                1 <= bw <= 16384,
                1 <= per_x <= 16384 * 256,
        ;
    }
    let count: u64 = bw * per_x;
    let ghost fb0 = fb@;
    let ghost zb0 = zb@;
    let mut s: u64 = 0;
    while s < count
        invariant
            s <= count,
            1 <= width <= MAX_DIM,
            1 <= height <= MAX_DIM,
            1 <= msaa <= MAX_MSAA,
            m64 == msaa as u64,
            mm == m64 * m64,
            1 <= mm <= 256,
            per_x == bh * mm,
            count == bw * per_x,
            bw == rr - l + 1,
            bh == bb - tt + 1,
            l <= rr,
            tt <= bb,
            rr < width as u64,
            bb < height as u64,
            zb.len() == width * height * (msaa * msaa),
            fb.len() == 3 * (width * height * (msaa * msaa)),
            tex matches Some(t) ==> t.wf(),
            fb0 == old(fb)@,
            zb0 == old(zb)@,
            p0 == clip_vert(*cmat, tri.v0),
            p1 == clip_vert(*cmat, tri.v1),
            p2 == clip_vert(*cmat, tri.v2),
            pc0 == v4_vec3_homo(p0),
            pc1 == v4_vec3_homo(p1),
            pc2 == v4_vec3_homo(p2),
            l as int == s_to_u64(screen_lo(pc0.x as int, pc1.x as int, pc2.x as int)),
            rr as int == s_to_u64(
                screen_hi(
                    pc0.x as int,
                    pc1.x as int,
                    pc2.x as int,
                    ((width as int) - 1) * (SCALE as int),
                ),
            ),
            tt as int == s_to_u64(screen_lo(pc0.y as int, pc1.y as int, pc2.y as int)),
            bb as int == s_to_u64(
                screen_hi(
                    pc0.y as int,
                    pc1.y as int,
                    pc2.y as int,
                    ((height as int) - 1) * (SCALE as int),
                ),
            ),
            (fb@, zb@) == raster_tri_upto(
                fb0,
                zb0,
                *tri,
                opt_tex(tex),
                lights@,
                campos,
                p0.w as int,
                p1.w as int,
                p2.w as int,
                pc0,
                pc1,
                pc2,
                width as int,
                height as int,
                msaa as int,
                l as int,
                tt as int,
                bb as int,
                s as int,
            ),
        decreases count - s,
    {
        proof {
            vstd::arithmetic::div_mod::lemma_div_by_multiple_is_strongly_ordered(
                s as int,
                (bw as int) * (per_x as int),
                bw as int,
                per_x as int,
            );
            vstd::arithmetic::div_mod::lemma_div_by_multiple(bw as int, per_x as int);
            vstd::arithmetic::div_mod::lemma_mod_bound(s as int, per_x as int);
        }
        let xpx: u64 = l + s / per_x;
        let rem: u64 = s % per_x;
        proof {
            vstd::arithmetic::div_mod::lemma_div_by_multiple_is_strongly_ordered(
                rem as int,
                (bh as int) * (mm as int),
                bh as int,
                mm as int,
            );
            vstd::arithmetic::div_mod::lemma_div_by_multiple(bh as int, mm as int);
            vstd::arithmetic::div_mod::lemma_mod_bound(rem as int, mm as int);
        }
        let ypx: u64 = tt + rem / mm;
        let rem2: u64 = rem % mm;
        proof {
            vstd::arithmetic::div_mod::lemma_div_by_multiple_is_strongly_ordered(
                rem2 as int,
                (m64 as int) * (m64 as int),
                m64 as int,
                m64 as int,
            );
            vstd::arithmetic::div_mod::lemma_div_by_multiple(m64 as int, m64 as int);
            vstd::arithmetic::div_mod::lemma_mod_bound(rem2 as int, m64 as int);
        }
        let kx: u64 = rem2 / m64;
        let ky: u64 = rem2 % m64;
        proof {
            assert(xpx <= rr && ypx <= bb && kx < m64 && ky < m64);
        }
        raster_sample(
            fb,
            zb,
            tri,
            tex,
            lights,
            campos,
            p0.w,
            p1.w,
            p2.w,
            pc0,
            pc1,
            pc2,
            width,
            height,
            msaa,
            xpx,
            ypx,
            kx,
            ky,
        );
        s = s + 1;
    }
}

/// The first `n` triangles of one model, folded in order; each is shaded
/// with the model's shared texture.
pub open spec fn raster_model_upto(
    fb: Seq<u8>,
    zb: Seq<i64>,
    cmat: Matrix4,
    m: Model,
    lights: Seq<Light>,
    campos: Vector3,
    width: int,
    height: int,
    msaa: int,
    n: int,
) -> (Seq<u8>, Seq<i64>)
    decreases n,
{
    if n <= 0 {
        (fb, zb)
    } else {
        let prev = raster_model_upto(fb, zb, cmat, m, lights, campos, width, height, msaa, n - 1);
        draw_tri_spec(
            prev.0,
            prev.1,
            cmat,
            get_tri_spec(m, n - 1),
            m.texture,
            lights,
            campos,
            width,
            height,
            msaa,
        )
    }
}

/// The first `n` models of a scene, folded in order.
pub open spec fn raster_models_upto(
    fb: Seq<u8>,
    zb: Seq<i64>,
    cmat: Matrix4,
    models: Seq<Model>,
    lights: Seq<Light>,
    campos: Vector3,
    width: int,
    height: int,
    msaa: int,
    n: int,
) -> (Seq<u8>, Seq<i64>)
    decreases n,
{
    if n <= 0 {
        (fb, zb)
    } else {
        let prev = raster_models_upto(
            fb,
            zb,
            cmat,
            models,
            lights,
            campos,
            width,
            height,
            msaa,
            n - 1,
        );
        raster_model_upto(
            prev.0,
            prev.1,
            cmat,
            models[n - 1],
            lights,
            campos,
            width,
            height,
            msaa,
            models[n - 1].tris.len() as int,
        )
    }
}

/// Rasterizes every triangle of one model, exactly as `raster_model_upto`
/// describes.
fn draw_model(
    fb: &mut Vec<u8>,
    zb: &mut Vec<i64>,
    cmat: &Matrix4,
    model: &Model,
    lights: &Vec<Light>,
    campos: Vector3,
    width: usize,
    height: usize,
    msaa: usize,
)
    requires
        model.wf(),
        1 <= width <= MAX_DIM,
        1 <= height <= MAX_DIM,
        1 <= msaa <= MAX_MSAA,
        old(zb).len() == width * height * (msaa * msaa),
        old(fb).len() == 3 * (width * height * (msaa * msaa)),
    ensures
        (final(fb)@, final(zb)@) == raster_model_upto(
            old(fb)@,
            old(zb)@,
            *cmat,
            *model,
            lights@,
            campos,
            width as int,
            height as int,
            msaa as int,
            model.tris.len() as int,
        ),
        final(fb).len() == old(fb).len(),
        final(zb).len() == old(zb).len(),
{
    let ghost fb0 = fb@;
    let ghost zb0 = zb@;
    let n: usize = model.len_tri();
    let mut ti: usize = 0;
    while ti < n
        invariant
            ti <= n,
            n == model.tris.len(),
            model.wf(),
            1 <= width <= MAX_DIM,
            1 <= height <= MAX_DIM,
            1 <= msaa <= MAX_MSAA,
            zb.len() == width * height * (msaa * msaa),
            fb.len() == 3 * (width * height * (msaa * msaa)),
            fb0 == old(fb)@,
            zb0 == old(zb)@,
            (fb@, zb@) == raster_model_upto(
                fb0,
                zb0,
                *cmat,
                *model,
                lights@,
                campos,
                width as int,
                height as int,
                msaa as int,
                ti as int,
            ),
        decreases n - ti,
    {
        let mt: Triangle = model.get_tri(ti);
        let tex: Option<&Texture> = match &model.texture {
            Some(t) => Some(t),
            None => None,
        };
        proof {
            assert(opt_tex(tex) == model.texture);
        }
        draw_triangle(fb, zb, cmat, &mt, tex, lights, campos, width, height, msaa);
        ti = ti + 1;
    }
}

/// The sum of the first `n` subsamples of output pixel `(i, j)`,
/// channel `ch`: the pixel's own block of msaa-squared samples in the
/// supersampled buffer, as the rasterizer laid them out.
pub open spec fn subsample_sum(
    fb: Seq<u8>,
    i: int,
    j: int,
    ch: int,
    width: int,
    msaa: int,
    n: int,
) -> int
    decreases n,
{
    if n <= 0 {
        0
    } else {
        subsample_sum(fb, i, j, ch, width, msaa, n - 1) + fb[((i + j * width) * (msaa * msaa) + (n
            - 1)) * 3 + ch]
    }
}

/// The downsampled byte at flat output index `q`: the box-filter average of
/// the pixel's subsamples, truncated.
pub open spec fn downsample_at(fb: Seq<u8>, q: int, width: int, msaa: int) -> int {
    let ch = q % 3;
    let pix = q / 3;
    let i = pix % width;
    let j = pix / width;
    subsample_sum(fb, i, j, ch, width, msaa, msaa * msaa) / (msaa * msaa)
}

/// Box-filter downsampling of the supersampled buffer; with no
/// supersampling the buffer is already the image.
pub open spec fn downsample_spec(fb: Seq<u8>, width: int, height: int, msaa: int) -> Seq<u8> {
    if msaa <= 1 {
        fb
    } else {
        Seq::new((width * height * 3) as nat, |q: int| downsample_at(fb, q, width, msaa) as u8)
    }
}

/// A sum of `n` bytes is at most `255 n`.
proof fn lemma_subsample_sum_bound(fb: Seq<u8>, i: int, j: int, ch: int, width: int, msaa: int, n: int)
    requires
        n >= 0,
    ensures
        0 <= subsample_sum(fb, i, j, ch, width, msaa, n) <= 255 * n,
    decreases n,
{
    if n > 0 {
        lemma_subsample_sum_bound(fb, i, j, ch, width, msaa, n - 1);
    }
}

/// A subsample's channel index stays inside the supersampled buffer.
proof fn lemma_sub_index_bound(w: int, h: int, m: int, i: int, j: int, n: int)
    requires
        1 <= w <= 16384,
        1 <= h <= 16384,
        1 <= m <= 16,
        0 <= i < w,
        0 <= j < h,
        0 <= n < m * m,
    ensures
        0 <= i + j * w < w * h,
        i + j * w < 0x10000000,
        1 <= m * m <= 256,
        0 <= (i + j * w) * (m * m) + n < w * h * (m * m),
        0 <= ((i + j * w) * (m * m) + n) * 3 + 2 < 3 * (w * h * (m * m)),
        (i + j * w) * (m * m) + n < 0x4000000000,
{
    assert(0 <= i + j * w < w * h && i + j * w < 0x10000000 && 1 <= m * m <= 256 && 0 <= (i + j
        * w) * (m * m) + n < w * h * (m * m) && 0 <= ((i
        + j * w) * (m * m) + n) * 3 + 2 < 3 * (w * h * (m * m)) && (i + j * w) * (m * m) + n
        < 0x4000000000) by (nonlinear_arith)
        requires
            1 <= w <= 16384,
            1 <= h <= 16384,
            1 <= m <= 16,
            0 <= i < w,
            0 <= j < h,
            0 <= n < m * m,
    ;
}

/// Box-filter downsampling, exactly as `downsample_spec` describes.
#[verifier::rlimit(50)]
fn downsample(fb: &Vec<u8>, width: usize, height: usize, msaa: usize) -> (r: Vec<u8>)
    requires
        1 <= width <= MAX_DIM,
        1 <= height <= MAX_DIM,
        2 <= msaa <= MAX_MSAA,
        fb.len() == 3 * (width * height * (msaa * msaa)),
    ensures
        r@ == downsample_spec(fb@, width as int, height as int, msaa as int),
{
    proof {
        assert((width as int) * (height as int) <= 16384 * 16384 && 1 <= (msaa as int) * (
        msaa as int) <= 256) by (nonlinear_arith)
            requires
                1 <= width <= 16384,
                1 <= height <= 16384,
                1 <= msaa <= 16,
        ;
    }
    let out_len: usize = width * height * 3;
    let mm: usize = msaa * msaa;
    let m64: u64 = msaa as u64;
    let mut out: Vec<u8> = Vec::new();
    let mut q: usize = 0;
    while q < out_len
        invariant
            q <= out_len,
            out_len == width * height * 3,
            mm == msaa * msaa,
            m64 == msaa as u64,
            1 <= width <= MAX_DIM,
            1 <= height <= MAX_DIM,
            2 <= msaa <= MAX_MSAA,
            1 <= mm <= 256,
            fb.len() == 3 * (width * height * (msaa * msaa)),
            out@.len() == q,
            forall|qq: int|
                0 <= qq < q ==> out@[qq] == downsample_at(
                    fb@,
                    qq,
                    width as int,
                    msaa as int,
                ) as u8,
        decreases out_len - q,
    {
        proof {
            vstd::arithmetic::div_mod::lemma_div_by_multiple_is_strongly_ordered(
                q as int,
                ((width as int) * (height as int)) * 3,
                (width as int) * (height as int),
                3,
            );
            vstd::arithmetic::div_mod::lemma_div_by_multiple(
                (width as int) * (height as int),
                3,
            );
        }
        let ch: usize = q % 3;
        let pix: usize = q / 3;
        proof {
            assert(((width as int) * (height as int)) == (height as int) * (width as int))
                by (nonlinear_arith);
            vstd::arithmetic::div_mod::lemma_div_by_multiple_is_strongly_ordered(
                pix as int,
                (height as int) * (width as int),
                height as int,
                width as int,
            );
            vstd::arithmetic::div_mod::lemma_div_by_multiple(height as int, width as int);
            vstd::arithmetic::div_mod::lemma_mod_bound(pix as int, width as int);
        }
        let i: usize = pix % width;
        let j: usize = pix / width;
        let mut acc: u32 = 0;
        let mut n2: usize = 0;
        while n2 < mm
            invariant
                n2 <= mm,
                mm == msaa * msaa,
                m64 == msaa as u64,
                1 <= width <= MAX_DIM,
                1 <= height <= MAX_DIM,
                2 <= msaa <= MAX_MSAA,
                1 <= mm <= 256,
                i < width,
                j < height,
                ch < 3,
                fb.len() == 3 * (width * height * (msaa * msaa)),
                acc as int == subsample_sum(
                    fb@,
                    i as int,
                    j as int,
                    ch as int,
                    width as int,
                    msaa as int,
                    n2 as int,
                ),
            decreases mm - n2,
        {
            proof {
                lemma_subsample_sum_bound(
                    fb@,
                    i as int,
                    j as int,
                    ch as int,
                    width as int,
                    msaa as int,
                    n2 as int,
                );
                lemma_sub_index_bound(
                    width as int,
                    height as int,
                    msaa as int,
                    i as int,
                    j as int,
                    n2 as int,
                );
            }
            let sub_idx: u64 = (((i as u64) + (j as u64) * (width as u64)) * (m64 * m64) + (
            n2 as u64)) * 3 + (ch as u64);
            let v: u8 = fb[sub_idx as usize];
            acc = acc + (v as u32);
            n2 = n2 + 1;
        }
        proof {
            lemma_subsample_sum_bound(
                fb@,
                i as int,
                j as int,
                ch as int,
                width as int,
                msaa as int,
                mm as int,
            );
            vstd::arithmetic::div_mod::lemma_div_pos_is_pos(acc as int, mm as int);
            vstd::arithmetic::div_mod::lemma_div_is_ordered(
                acc as int,
                255 * (mm as int),
                mm as int,
            );
            vstd::arithmetic::div_mod::lemma_div_by_multiple(255, mm as int);
        }
        let avg: u32 = acc / (mm as u32);
        out.push(avg as u8);
        q = q + 1;
    }
    proof {
        assert(out@ =~= downsample_spec(fb@, width as int, height as int, msaa as int));
    }
    out
}

/// The requested output is addressable: positive bounded sides and buffers
/// that fit in memory.
pub open spec fn render_size_ok(width: int, height: int, msaa: int) -> bool {
    let m = clamp_msaa(msaa);
    &&& 1 <= width <= MAX_DIM as int
    &&& 1 <= height <= MAX_DIM as int
    &&& 3 * (width * height * (m * m)) <= usize::MAX as int
}

/// How far the requested output's width-over-height sits from the camera's
/// configured aspect ratio.
pub open spec fn aspect_diff(c: Camera, width: int, height: int) -> int {
    s_sub(s_div(width * (SCALE as int), height * (SCALE as int)), c.aspect as int)
}

pub open spec fn aspect_ok(c: Camera, width: int, height: int) -> bool {
    iabs(aspect_diff(c, width, height)) < EPS as int
}

/// The whole render: fresh buffers, the composed viewport-perspective-view
/// matrix, every triangle of every model in order, then the box filter.
pub open spec fn render_spec(scene: Scene, width: int, height: int, msaa: int) -> Seq<u8> {
    let m = clamp_msaa(msaa);
    let n = width * height * (m * m);
    let fb0 = Seq::new((3 * n) as nat, |i: int| 0u8);
    let zb0 = Seq::new(n as nat, |i: int| i64::MAX);
    let cmat = m4_mul(
        m4_mul(
            viewport_mat(width, height),
            perspective_transform_spec(scene.camera, ZNR as int, ZFR as int),
        ),
        camera_transform_spec(scene.camera),
    );
    let fbz = raster_models_upto(
        fb0,
        zb0,
        cmat,
        scene.models@,
        scene.lights@,
        scene.camera.pos,
        width,
        height,
        m,
        scene.models@.len() as int,
    );
    downsample_spec(fbz.0, width, height, m)
}

impl Scene {
    /// Renders the scene to a row-major RGB byte buffer of the requested
    /// size. The supersampling factor is coerced to at least 1 and clamped
    /// to the maximum; a request whose size is out of range or whose aspect
    /// ratio does not match the camera's is rejected, each with its own
    /// error.
    #[verifier::rlimit(50)]
    pub fn rasterize(&self, width: usize, height: usize, msaa: usize) -> (res: Result<
        Vec<u8>,
        RenderError,
    >)
        requires
            self.wf(),
        ensures
            res matches Ok(buf) ==> buf@ == render_spec(
                *self,
                width as int,
                height as int,
                msaa as int,
            ),
            res matches Ok(buf) ==> buf@.len() == width * height * 3,
            res is Err <==> !(render_size_ok(width as int, height as int, msaa as int)
                && aspect_ok(self.camera, width as int, height as int)),
            !render_size_ok(width as int, height as int, msaa as int) ==> res == Err::<
                Vec<u8>,
                RenderError,
            >(RenderError::SizeOutOfRange),
            render_size_ok(width as int, height as int, msaa as int) && !aspect_ok(
                self.camera,
                width as int,
                height as int,
            ) ==> res == Err::<Vec<u8>, RenderError>(RenderError::AspectMismatch),
    {
        let msaa_c: usize = if msaa <= 1 {
            1
        } else if msaa > MAX_MSAA {
            MAX_MSAA
        } else {
            msaa
        };
        if width < 1 || width > MAX_DIM || height < 1 || height > MAX_DIM {
            return Err(RenderError::SizeOutOfRange);
        }
        let m64: u64 = msaa_c as u64;
        proof {
            assert(1 <= (m64 as int) * (m64 as int) <= 256 && 1 <= (width as int) * (
            height as int) <= 16384 * 16384) by (nonlinear_arith)
                requires
                    1 <= m64 <= 16,
                    1 <= width <= 16384,
                    1 <= height <= 16384,
            ;
            assert(((width as int) * (height as int)) * ((m64 as int) * (m64 as int))
                <= 0x4000000000) by (nonlinear_arith)
                requires
                    1 <= (width as int) * (height as int) <= 16384 * 16384,
                    1 <= (m64 as int) * (m64 as int) <= 256,
            ;
        }
        let total_u64: u64 = ((width as u64) * (height as u64)) * (m64 * m64);
        let total3_u64: u64 = 3 * total_u64;
        if total3_u64 > (usize::MAX as u64) {
            return Err(RenderError::SizeOutOfRange);
        }
        let fbuf_len: usize = total3_u64 as usize;
        let zbuf_len: usize = total_u64 as usize;
        let wfx: i64 = (width as i64) * SCALE;
        let hfx: i64 = (height as i64) * SCALE;
        let d: i64 = fx_sub(fx_div(wfx, hfx), self.camera.aspect);
        let da: i64 = if d < 0 {
            fx_neg(d)
        } else {
            d
        };
        if da >= EPS {
            return Err(RenderError::AspectMismatch);
        }
        let mut fb: Vec<u8> = zeros_u8(fbuf_len);
        let mut zb: Vec<i64> = fill_i64(zbuf_len, i64::MAX);
        let vp: Matrix4 = viewport_transform(width, height);
        let pm: Matrix4 = self.camera.perspective_transform(ZNR, ZFR);
        let cm: Matrix4 = self.camera.camera_transform();
        let cmat: Matrix4 = vp.mul(pm).mul(cm);
        let ghost fb0 = fb@;
        let ghost zb0 = zb@;
        proof {
            assert(fb0 =~= Seq::new(
                (3 * ((width as int) * (height as int) * ((msaa_c as int) * (msaa_c as int)))) as nat,
                |i: int| 0u8,
            ));
            assert(zb0 =~= Seq::new(
                ((width as int) * (height as int) * ((msaa_c as int) * (msaa_c as int))) as nat,
                |i: int| i64::MAX,
            ));
        }
        let nmodels: usize = self.models.len();
        let mut mi: usize = 0;
        while mi < nmodels
            invariant
                mi <= nmodels,
                nmodels == self.models.len(),
                self.wf(),
                1 <= width <= MAX_DIM,
                1 <= height <= MAX_DIM,
                1 <= msaa_c <= MAX_MSAA,
                zb.len() == width * height * (msaa_c * msaa_c),
                fb.len() == 3 * (width * height * (msaa_c * msaa_c)),
                fb0 == Seq::new(
                    (3 * ((width as int) * (height as int) * ((msaa_c as int) * (
                    msaa_c as int)))) as nat,
                    |i: int| 0u8,
                ),
                zb0 == Seq::new(
                    ((width as int) * (height as int) * ((msaa_c as int) * (
                    msaa_c as int))) as nat,
                    |i: int| i64::MAX,
                ),
                cmat == m4_mul(
                    m4_mul(
                        viewport_mat(width as int, height as int),
                        perspective_transform_spec(self.camera, ZNR as int, ZFR as int),
                    ),
                    camera_transform_spec(self.camera),
                ),
                (fb@, zb@) == raster_models_upto(
                    fb0,
                    zb0,
                    cmat,
                    self.models@,
                    self.lights@,
                    self.camera.pos,
                    width as int,
                    height as int,
                    msaa_c as int,
                    mi as int,
                ),
            decreases nmodels - mi,
        {
            let model: &Model = &self.models[mi];
            draw_model(
                &mut fb,
                &mut zb,
                &cmat,
                model,
                &self.lights,
                self.camera.pos,
                width,
                height,
                msaa_c,
            );
            mi = mi + 1;
        }
        proof {
            assert(clamp_msaa(msaa as int) == msaa_c as int);
            assert(3 * ((width as int) * (height as int) * ((msaa_c as int) * (msaa_c as int)))
                == ((width as int) * (height as int)) * (3 * ((msaa_c as int) * (
            msaa_c as int)))) by (nonlinear_arith);
        }
        if msaa_c <= 1 {
            proof {
                assert((width as int) * (height as int) * (1int * 1int) == (width as int) * (
                height as int)) by (nonlinear_arith);
                assert(fb@.len() == (width as int) * (height as int) * 3) by (nonlinear_arith)
                    requires
                        fb@.len() == 3 * ((width as int) * (height as int) * (1int * 1int)),
                ;
            }
            Ok(fb)
        } else {
            let out: Vec<u8> = downsample(&fb, width, height, msaa_c);
            Ok(out)
        }
    }
}

} // verus!
