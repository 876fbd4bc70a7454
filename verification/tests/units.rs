use rasterizer::camera::Camera;
use rasterizer::fx::{fx_add, fx_div, fx_floor, fx_mul, fx_powi, fx_sqrt, FX_ONE};
use rasterizer::matrix::Matrix4;
use rasterizer::model::{Model, ModelError};
use rasterizer::texture::Texture;
use rasterizer::transform::Transform;
use rasterizer::utils::{barycentric_2d, filter};
use rasterizer::vector::{Vector2, Vector3, Vector4};

#[test]
fn fx_mul_exact() {
    // 1.5 * 2.0 == 3.0
    assert_eq!(fx_mul(98304, 131072), 196608);
    // truncation toward zero on both signs
    assert_eq!(fx_mul(1, 1), 0);
    assert_eq!(fx_mul(-1, 1), 0);
}

#[test]
fn fx_mul_saturates() {
    assert_eq!(fx_mul(i64::MAX, i64::MAX), i64::MAX);
    assert_eq!(fx_mul(i64::MAX, -i64::MAX), i64::MIN);
}

#[test]
fn fx_add_saturates() {
    assert_eq!(fx_add(i64::MAX, 1), i64::MAX);
    assert_eq!(fx_add(i64::MIN, -1), i64::MIN);
    assert_eq!(fx_add(196608, -65536), 131072);
}

#[test]
fn fx_div_by_zero_is_signed_extreme() {
    assert_eq!(fx_div(FX_ONE, 0), i64::MAX);
    assert_eq!(fx_div(-FX_ONE, 0), i64::MIN);
    assert_eq!(fx_div(0, 0), 0);
}

#[test]
fn fx_div_exact() {
    assert_eq!(fx_div(131072, 65536), 131072);
    assert_eq!(fx_div(1, 3), 21845);
    assert_eq!(fx_div(-65536, 131072), -32768);
}

#[test]
fn fx_floor_values() {
    assert_eq!(fx_floor(65537), 65536);
    assert_eq!(fx_floor(-1), -65536);
    assert_eq!(fx_floor(-65537), -131072);
    assert_eq!(fx_floor(131072), 131072);
}

#[test]
fn fx_sqrt_values() {
    assert_eq!(fx_sqrt(65536), 65536);
    assert_eq!(fx_sqrt(262144), 131072);
    assert_eq!(fx_sqrt(131072), 92681);
    assert_eq!(fx_sqrt(0), 0);
}

#[test]
fn fx_powi_values() {
    assert_eq!(fx_powi(131072, 3), 524288);
    assert_eq!(fx_powi(-65536, 0), 65536);
    assert_eq!(fx_powi(32768, 2), 16384);
}

#[test]
fn vector_dot_and_cross() {
    let a = Vector3::new(65536, 131072, 196608);
    let b = Vector3::new(262144, 327680, 393216);
    assert_eq!(a.dot(b), 32 * 65536);
    let e1 = Vector2::new(65536, 0);
    let e2 = Vector2::new(0, 65536);
    assert_eq!(e1.cross(e2), 65536);
    assert_eq!(e2.cross(e1), -65536);
    let c = Vector3::new(65536, 0, 0).cross(Vector3::new(0, 65536, 0));
    assert_eq!(c, Vector3::new(0, 0, 65536));
}

#[test]
fn vector_norm_and_normalize() {
    let v = Vector3::new(196608, 262144, 0);
    assert_eq!(v.norm(), 327680);
    assert_eq!(v.normalize(), Vector3::new(39321, 52428, 0));
}

#[test]
fn homo_round_trip_identity() {
    // promoting to w = 1 and demoting returns the vector exactly
    let v = Vector3::new(123456, -789012, 345678);
    assert_eq!(v.homo_point().vec3_homo(), v);
}

#[test]
fn vec3_homo_near_zero_w_passes_through() {
    let p = Vector4::new(5, 6, 7, 3);
    assert_eq!(p.vec3_homo(), Vector3::new(5, 6, 7));
    let q = Vector4::new(131072, 262144, 393216, 131072);
    assert_eq!(q.vec3_homo(), Vector3::new(65536, 131072, 196608));
}

#[test]
fn matrix_identity_and_mul() {
    let id = Matrix4::identity();
    let m = Matrix4::new(
        Vector4::new(65536, 0, 0, 131072),
        Vector4::new(0, 65536, 0, 196608),
        Vector4::new(0, 0, 65536, 262144),
        Vector4::new(0, 0, 0, 65536),
    );
    assert_eq!(id.mul(m), m);
    assert_eq!(m.mul(id), m);
    assert_eq!(Matrix4::zeros().mul(m), Matrix4::zeros());
    let v = Vector4::new(65536, 131072, 196608, 65536);
    assert_eq!(m.mul_vec(v), Vector4::new(196608, 327680, 458752, 65536));
}

#[test]
fn camera_maps_its_position_to_origin() {
    let cam = Camera::new(
        Vector3::new(65536, 131072, 196608),
        Vector3::new(0, 0, -65536),
        Vector3::new(0, 65536, 0),
        65536,
        65536,
    );
    let m = cam.camera_transform();
    let r = m.mul_vec(cam.pos.homo_point());
    assert_eq!(r, Vector4::new(0, 0, 0, 65536));
}

#[test]
fn perspective_maps_clip_boundaries_exactly() {
    // near 1.0 and far 3.0: depth 1 maps to -1 and depth 3 to +1 exactly
    let cam = Camera::new(
        Vector3::new(0, 0, 0),
        Vector3::new(0, 0, -65536),
        Vector3::new(0, 65536, 0),
        65536,
        65536,
    );
    let p = cam.perspective_transform(65536, 196608);
    let near = p.mul_vec(Vector4::new(0, 0, -65536, 65536)).vec3_homo();
    assert_eq!(near.z, -65536);
    let far = p.mul_vec(Vector4::new(0, 0, -196608, 65536)).vec3_homo();
    assert_eq!(far.z, 65536);
}

#[test]
fn transform_translation_and_scale() {
    let t = Transform::new().translation(Vector3::new(65536, 131072, 196608));
    let expect = Matrix4::new(
        Vector4::new(65536, 0, 0, 65536),
        Vector4::new(0, 65536, 0, 131072),
        Vector4::new(0, 0, 65536, 196608),
        Vector4::new(0, 0, 0, 65536),
    );
    assert_eq!(t.mat(), expect);
    let s = Transform::new().scale(Vector3::new(131072, 131072, 131072));
    assert_eq!(
        s.mat().mul_vec(Vector4::new(65536, 65536, 65536, 65536)),
        Vector4::new(131072, 131072, 131072, 65536)
    );
}

#[test]
fn barycentric_at_vertices_and_inside() {
    let t0 = Vector2::new(0, 0);
    let t1 = Vector2::new(262144, 0);
    let t2 = Vector2::new(0, 262144);
    let tri = [t0, t1, t2];
    assert_eq!(barycentric_2d(tri, t0), (65536, 0, 0));
    assert_eq!(barycentric_2d(tri, t1), (0, 65536, 0));
    assert_eq!(barycentric_2d(tri, t2), (0, 0, 65536));
    let (a, b, c) = barycentric_2d(tri, Vector2::new(65536, 65536));
    assert_eq!((a, b, c), (32768, 16384, 16384));
    assert_eq!(a + b + c, 65536);
}

#[test]
fn filter_splits_weights() {
    // p = (1.5, 2.25), weights (0.375, 0.375, 0.125, 0.125)
    let (p1, w1, w2, w3, w4) = filter(Vector2::new(98304, 147456), 65536);
    assert_eq!(p1, Vector2::new(65536, 131072));
    assert_eq!((w1, w2, w3, w4), (24576, 24576, 8192, 8192));
    assert_eq!(w1 + w2 + w3 + w4, 65536);
}

#[test]
fn texture_center_returns_texel() {
    let data = vec![10, 20, 30, 40, 50, 60, 70, 80, 90, 100, 110, 120];
    let t = Texture::new(2, 2, data);
    assert_eq!(t.at_uv(0, 0), [10, 20, 30]);
    assert_eq!(t.at_uv(32768, 32768), [100, 110, 120]);
}

#[test]
fn texture_corners_clamp_in_bounds() {
    let data = vec![10, 20, 30, 40, 50, 60, 70, 80, 90, 100, 110, 120];
    let t = Texture::new(2, 2, data);
    // u = v = 1 addresses past the last texel and clamps to it
    assert_eq!(t.at_uv(65536, 65536), [100, 110, 120]);
    // far outside on both sides still clamps
    assert_eq!(t.at_uv(-655360, -655360), [10, 20, 30]);
    assert_eq!(t.at_uv(655360, 655360), [100, 110, 120]);
}

#[test]
fn texture_bilinear_midpoint() {
    let data = vec![10, 20, 30, 40, 50, 60, 70, 80, 90, 100, 110, 120];
    let t = Texture::new(2, 2, data);
    // u = 0.25 lands halfway between the first two texels of the top row
    assert_eq!(t.at_uv(16384, 0), [25, 35, 45]);
}

#[test]
fn model_rejects_bad_indices() {
    let mut m = Model::new();
    assert_eq!(
        m.push_tri((0, usize::MAX, usize::MAX), (0, usize::MAX, usize::MAX), (0, usize::MAX, usize::MAX)),
        Err(ModelError::IndexOutOfRange)
    );
    m.push_vertex(Vector3::new(0, 0, 0));
    m.push_vertex(Vector3::new(65536, 0, 0));
    m.push_vertex(Vector3::new(0, 65536, 0));
    assert_eq!(
        m.push_tri((0, usize::MAX, usize::MAX), (1, usize::MAX, usize::MAX), (2, usize::MAX, usize::MAX)),
        Ok(())
    );
    // a texture-coordinate index out of range is rejected too
    assert_eq!(
        m.push_tri((0, 0, usize::MAX), (1, usize::MAX, usize::MAX), (2, usize::MAX, usize::MAX)),
        Err(ModelError::IndexOutOfRange)
    );
    assert_eq!(m.len_tri(), 1);
}

#[test]
fn model_get_tri_substitutes_defaults() {
    let mut m = Model::new();
    m.push_vertex(Vector3::new(1, 2, 3));
    m.push_vertex(Vector3::new(4, 5, 6));
    m.push_vertex(Vector3::new(7, 8, 9));
    m.push_norm(Vector3::new(0, 0, 65536));
    m.push_tri((0, usize::MAX, 0), (1, usize::MAX, usize::MAX), (2, usize::MAX, usize::MAX))
        .unwrap();
    let t = m.get_tri(0);
    assert_eq!(t.v0, Vector3::new(1, 2, 3));
    assert_eq!(t.n0, Vector3::new(0, 0, 65536));
    assert_eq!(t.n1, Vector3::new(0, 0, 0));
    assert_eq!(t.uv0, Vector2::new(0, 0));
}
