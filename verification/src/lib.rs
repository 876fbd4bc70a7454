//! A software triangle rasterizer over saturating fixed-point arithmetic.
//!
//! Scalars are `i64` values in Q47.16 fixed-point form (`fx` module); every
//! arithmetic step saturates at the `i64` range, playing the role that
//! infinities play in a floating-point renderer. The pipeline — camera and
//! perspective transforms, viewport mapping, per-subsample barycentric
//! coverage, perspective-correct interpolation, depth buffering, Blinn-Phong
//! shading, bilinear texture sampling and MSAA box-filter downsampling — is
//! specified and verified against exact mathematical mirrors of each step.

pub mod camera;
pub mod fx;
pub mod laws;
pub mod light;
pub mod matrix;
pub mod model;
pub mod scene;
pub mod texture;
pub mod transform;
pub mod triangle;
pub mod utils;
pub mod vector;

pub use fx::FX_ONE;
pub use fx::SCALE;
