use rasterizer::light::Light;
use rasterizer::model::Model;
use rasterizer::scene::{RenderError, Scene};
use rasterizer::texture::Texture;
use rasterizer::vector::Vector3;

const MAX: usize = usize::MAX;

/// Vertex at screen position s (in a 128-wide viewport) for the z = -1 plane.
fn plane_coord(s: f64) -> i64 {
    ((s / 64.0 - 1.0) * 65536.0).round() as i64
}

fn triangle_model(v0: (f64, f64), v1: (f64, f64), v2: (f64, f64), depth: f64) -> Model {
    let z = (-depth * 65536.0).round() as i64;
    let scale = depth;
    let mut m = Model::new();
    for &(x, y) in &[v0, v1, v2] {
        m.push_vertex(Vector3::new(
            ((plane_coord(x) as f64) * scale).round() as i64,
            ((plane_coord(y) as f64) * scale).round() as i64,
            z,
        ));
    }
    m.push_norm(Vector3::new(0, 0, 65536));
    m.push_tri((0, MAX, 0), (1, MAX, 0), (2, MAX, 0)).unwrap();
    m
}

fn pixel(buf: &[u8], width: usize, height: usize, x: usize, y: usize) -> [u8; 3] {
    let i = (x + (height - y - 1) * width) * 3;
    [buf[i], buf[i + 1], buf[i + 2]]
}

#[test]
fn size_errors() {
    let scene = Scene::new();
    assert_eq!(scene.rasterize(0, 128, 1), Err(RenderError::SizeOutOfRange));
    assert_eq!(scene.rasterize(128, 0, 1), Err(RenderError::SizeOutOfRange));
    assert_eq!(scene.rasterize(20000, 128, 1), Err(RenderError::SizeOutOfRange));
}

#[test]
fn aspect_error() {
    // the default camera has a square aspect; a 2:1 output is rejected
    let scene = Scene::new();
    assert_eq!(scene.rasterize(128, 64, 1), Err(RenderError::AspectMismatch));
}

#[test]
fn empty_scene_renders_background() {
    let scene = Scene::new();
    let buf = scene.rasterize(16, 16, 1).unwrap();
    assert_eq!(buf.len(), 16 * 16 * 3);
    assert!(buf.iter().all(|&b| b == 0));
}

#[test]
fn single_triangle_ambient_only() {
    // screen-space triangle (10,10), (50,10), (10,50); a zero-radiance
    // parallel light leaves only the ambient term: byte 7 per channel
    let mut scene = Scene::new();
    let mut model = Model::new();
    model.push_vertex(Vector3::new(-55296, -55296, -65536));
    model.push_vertex(Vector3::new(-14336, -55296, -65536));
    model.push_vertex(Vector3::new(-55296, -14336, -65536));
    model.push_tri((0, MAX, MAX), (1, MAX, MAX), (2, MAX, MAX)).unwrap();
    model.set_texture(Texture::new(1, 1, vec![255, 255, 255]));
    scene.add_model(model);
    scene.add_light(Light::Parallel {
        dir: Vector3::new(0, 0, 65536),
        li: Vector3::new(0, 0, 0),
    });
    let buf = scene.rasterize(128, 128, 1).unwrap();
    assert_eq!(pixel(&buf, 128, 128, 20, 20), [7, 7, 7]);
    assert_eq!(pixel(&buf, 128, 128, 5, 5), [0, 0, 0]);
}

#[test]
fn msaa_downsample_half_covered_pixel() {
    // a strip whose right edge sits at screen x = 20.6 covers exactly the
    // two left subsamples of pixel (20, 20) at msaa = 2; covered samples
    // shade to 255, so the box filter truncates (255+255)/4 to 127
    let mut scene = Scene::new();
    scene.add_model(triangle_model((-300.0, -300.0), (20.6, -300.0), (20.6, 300.0), 1.0));
    scene.add_light(Light::Parallel {
        dir: Vector3::new(0, 0, 65536),
        li: Vector3::new(65536, 65536, 65536),
    });
    let buf = scene.rasterize(128, 128, 2).unwrap();
    assert_eq!(pixel(&buf, 128, 128, 20, 20), [127, 127, 127]);
    assert_eq!(pixel(&buf, 128, 128, 19, 20), [255, 255, 255]);
    assert_eq!(pixel(&buf, 128, 128, 22, 20), [0, 0, 0]);
}

#[test]
fn draw_order_does_not_change_image() {
    // a red triangle at depth 1 overlapping a green one at depth 2: both
    // draw orders give the identical image, and the nearer (red) one wins
    let near_red = || {
        let mut m = triangle_model((10.0, 10.0), (50.0, 10.0), (10.0, 50.0), 1.0);
        m.set_texture(Texture::new(1, 1, vec![255, 0, 0]));
        m
    };
    let far_green = || {
        let mut m = triangle_model((10.0, 10.0), (50.0, 10.0), (10.0, 50.0), 2.0);
        m.set_texture(Texture::new(1, 1, vec![0, 255, 0]));
        m
    };
    let light = Light::Parallel {
        dir: Vector3::new(0, 0, 65536),
        li: Vector3::new(65536, 65536, 65536),
    };
    let mut s1 = Scene::new();
    s1.add_model(near_red());
    s1.add_model(far_green());
    s1.add_light(light);
    let mut s2 = Scene::new();
    s2.add_model(far_green());
    s2.add_model(near_red());
    s2.add_light(light);
    let b1 = s1.rasterize(128, 128, 1).unwrap();
    let b2 = s2.rasterize(128, 128, 1).unwrap();
    assert_eq!(b1, b2);
    let p = pixel(&b1, 128, 128, 20, 20);
    assert_eq!(p[0], 255);
    assert!(p[1] < 255);
}

#[test]
fn msaa_request_is_clamped() {
    // msaa 0 is coerced to 1: same image as msaa 1
    let mut s1 = Scene::new();
    s1.add_model(triangle_model((10.0, 10.0), (50.0, 10.0), (10.0, 50.0), 1.0));
    let b0 = s1.rasterize(64, 64, 0).unwrap();
    let b1 = s1.rasterize(64, 64, 1).unwrap();
    assert_eq!(b0, b1);
}
