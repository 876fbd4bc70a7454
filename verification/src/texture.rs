//! Texture sampling: bilinear lookup into a decoded RGB grid.
//!
//! Decoding an image file is a collaborator's job (it happens outside the
//! library); a texture here is the decoded grid itself. Addressing is
//! clamp-to-edge on both the low and high side, so any UV pair — including
//! exactly (1,1) — stays within bounds.

use vstd::prelude::*;

use crate::fx::{fx_add, fx_floor, fx_max, fx_min, fx_mul, fx_sub, fx_to_u64, s_add, s_floor,
    s_max, s_min, s_mul, s_sub, s_to_u64, FX_ONE, SCALE};

verus! {

/// Largest texture / framebuffer side length the fixed-point pipeline
/// addresses.
pub const MAX_DIM: usize = 16384;

#[derive(Clone, Debug)]
pub struct Texture {
    pub width: usize,
    pub height: usize,
    /// Row-major RGB bytes, three per pixel.
    pub data: Vec<u8>,
}

impl Texture {
    /// Structural invariant: positive bounded sides and a matching buffer.
    pub open spec fn wf(self) -> bool {
        &&& 1 <= self.width <= MAX_DIM
        &&& 1 <= self.height <= MAX_DIM
        &&& self.data.len() == self.width * self.height * 3
    }

    /// Channel `m` of the texel at column `x`, row `y`.
    pub open spec fn texel(self, x: int, y: int, m: int) -> u8 {
        self.data[(y * self.width + x) * 3 + m]
    }

    pub fn new(width: usize, height: usize, data: Vec<u8>) -> (r: Texture)
        requires
            1 <= width <= MAX_DIM,
            1 <= height <= MAX_DIM,
            data.len() == width * height * 3,
        ensures
            r == (Texture { width, height, data }),
            r.wf(),
    {
        Texture { width, height, data }
    }
}

/// One channel of the bilinear sample: the four neighbouring texels blended
/// by the fractional offsets, exactly as the saturating arithmetic computes
/// them.
pub open spec fn at_uv_channel(t: Texture, u: int, v: int, m: int) -> int {
    let x = s_mul(u, t.width * (SCALE as int));
    let y = s_mul(v, t.height * (SCALE as int));
    let xf = s_floor(x);
    let yf = s_floor(y);
    let x1 = s_min(s_max(xf, 0), (t.width - 1) * (SCALE as int));
    let y1 = s_min(s_max(yf, 0), (t.height - 1) * (SCALE as int));
    let x2 = s_min(s_add(x1, SCALE as int), (t.width - 1) * (SCALE as int));
    let y2 = s_min(s_add(y1, SCALE as int), (t.height - 1) * (SCALE as int));
    let s = s_sub(x, xf);
    let tt = s_sub(y, yf);
    let p1 = t.texel(s_to_u64(x1), s_to_u64(y1), m) * (SCALE as int);
    let p2 = t.texel(s_to_u64(x2), s_to_u64(y1), m) * (SCALE as int);
    let p3 = t.texel(s_to_u64(x1), s_to_u64(y2), m) * (SCALE as int);
    let p4 = t.texel(s_to_u64(x2), s_to_u64(y2), m) * (SCALE as int);
    let row1 = s_add(s_mul(p1, s_sub(FX_ONE as int, s)), s_mul(p2, s));
    let row2 = s_add(s_mul(p3, s_sub(FX_ONE as int, s)), s_mul(p4, s));
    s_to_u64(s_add(s_mul(row1, s_sub(FX_ONE as int, tt)), s_mul(row2, tt)))
}

/// Blending two channel values (each at most 255, in fixed-point form) by
/// complementary weights keeps the result a channel value.
proof fn lemma_blend_bound(p1: int, p2: int, s: int)
    requires
        0 <= p1 <= 255 * (SCALE as int),
        0 <= p2 <= 255 * (SCALE as int),
        0 <= s <= SCALE as int,
    ensures
        0 <= s_add(s_mul(p1, (SCALE as int) - s), s_mul(p2, s)) <= 255 * (SCALE as int),
{
    let sc = SCALE as int;
    let a = p1 * (sc - s);
    let b = p2 * s;
    assert(0 <= p1 * (sc - s) <= (255 * sc) * (sc - s)) by (nonlinear_arith)
        requires
            0 <= p1 <= 255 * sc,
            0 <= s <= sc,
    ;
    assert(0 <= p2 * s <= (255 * sc) * s) by (nonlinear_arith)
        requires
            0 <= p2 <= 255 * sc,
            0 <= s <= sc,
    ;
    assert((255 * sc) * (sc - s) == (255 * (sc - s)) * sc) by (nonlinear_arith);
    assert((255 * sc) * s == (255 * s) * sc) by (nonlinear_arith);
    vstd::arithmetic::div_mod::lemma_div_pos_is_pos(a, sc);
    vstd::arithmetic::div_mod::lemma_div_pos_is_pos(b, sc);
    vstd::arithmetic::div_mod::lemma_div_is_ordered(a, (255 * (sc - s)) * sc, sc);
    vstd::arithmetic::div_mod::lemma_div_is_ordered(b, (255 * s) * sc, sc);
    vstd::arithmetic::div_mod::lemma_div_by_multiple(255 * (sc - s), sc);
    vstd::arithmetic::div_mod::lemma_div_by_multiple(255 * s, sc);
}

/// The fractional part of a scalar against its floor lies in [0, SCALE).
proof fn lemma_frac_range(x: int)
    requires
        i64::MIN as int <= x <= i64::MAX as int,
    ensures
        0 <= s_sub(x, s_floor(x)) < SCALE as int,
        s_sub(x, s_floor(x)) == x - s_floor(x),
{
    let sc = SCALE as int;
    vstd::arithmetic::div_mod::lemma_fundamental_div_mod(x, sc);
    vstd::arithmetic::div_mod::lemma_mod_bound(x, sc);
    assert(sc * (x / sc) == (x / sc) * sc) by (nonlinear_arith);
}

impl Texture {
    /// Bilinear sample at normalized UV coordinates, as fixed-point scalars.
    /// Total for every u, v: both neighbours are clamped into the grid.
    pub fn at_uv(&self, u: i64, v: i64) -> (r: [u8; 3])
        requires
            self.wf(),
        ensures
            r[0] as int == at_uv_channel(*self, u as int, v as int, 0),
            r[1] as int == at_uv_channel(*self, u as int, v as int, 1),
            r[2] as int == at_uv_channel(*self, u as int, v as int, 2),
    {
        let w_fx: i64 = (self.width as i64) * SCALE;
        let h_fx: i64 = (self.height as i64) * SCALE;
        let last_x: i64 = ((self.width - 1) as i64) * SCALE;
        let last_y: i64 = ((self.height - 1) as i64) * SCALE;
        let x: i64 = fx_mul(u, w_fx);
        let y: i64 = fx_mul(v, h_fx);
        let xf: i64 = fx_floor(x);
        let yf: i64 = fx_floor(y);
        let x1: i64 = fx_min(fx_max(xf, 0), last_x);
        let y1: i64 = fx_min(fx_max(yf, 0), last_y);
        let x2: i64 = fx_min(fx_add(x1, SCALE), last_x);
        let y2: i64 = fx_min(fx_add(y1, SCALE), last_y);
        let s: i64 = fx_sub(x, xf);
        let tt: i64 = fx_sub(y, yf);
        proof {
            lemma_frac_range(x as int);
            lemma_frac_range(y as int);
            vstd::arithmetic::div_mod::lemma_div_by_multiple(self.width - 1, SCALE as int);
            vstd::arithmetic::div_mod::lemma_div_by_multiple(self.height - 1, SCALE as int);
            vstd::arithmetic::div_mod::lemma_div_is_ordered(x1 as int, last_x as int, SCALE as int);
            vstd::arithmetic::div_mod::lemma_div_is_ordered(x2 as int, last_x as int, SCALE as int);
            vstd::arithmetic::div_mod::lemma_div_is_ordered(y1 as int, last_y as int, SCALE as int);
            vstd::arithmetic::div_mod::lemma_div_is_ordered(y2 as int, last_y as int, SCALE as int);
        }
        let xi1: usize = fx_to_u64(x1) as usize;
        let yi1: usize = fx_to_u64(y1) as usize;
        let xi2: usize = fx_to_u64(x2) as usize;
        let yi2: usize = fx_to_u64(y2) as usize;
        proof {
            assert(xi1 < self.width && xi2 < self.width && yi1 < self.height && yi2
                < self.height);
            lemma_pix_index(self.width as int, self.height as int, xi1 as int, yi1 as int);
            lemma_pix_index(self.width as int, self.height as int, xi2 as int, yi1 as int);
            lemma_pix_index(self.width as int, self.height as int, xi1 as int, yi2 as int);
            lemma_pix_index(self.width as int, self.height as int, xi2 as int, yi2 as int);
        }
        let one_minus_s: i64 = fx_sub(FX_ONE, s);
        let one_minus_t: i64 = fx_sub(FX_ONE, tt);
        let r1: u8 = self.data[(yi1 * self.width + xi1) * 3];
        let g1: u8 = self.data[(yi1 * self.width + xi1) * 3 + 1];
        let b1: u8 = self.data[(yi1 * self.width + xi1) * 3 + 2];
        let r2: u8 = self.data[(yi1 * self.width + xi2) * 3];
        let g2: u8 = self.data[(yi1 * self.width + xi2) * 3 + 1];
        let b2: u8 = self.data[(yi1 * self.width + xi2) * 3 + 2];
        let r3: u8 = self.data[(yi2 * self.width + xi1) * 3];
        let g3: u8 = self.data[(yi2 * self.width + xi1) * 3 + 1];
        let b3: u8 = self.data[(yi2 * self.width + xi1) * 3 + 2];
        let r4: u8 = self.data[(yi2 * self.width + xi2) * 3];
        let g4: u8 = self.data[(yi2 * self.width + xi2) * 3 + 1];
        let b4: u8 = self.data[(yi2 * self.width + xi2) * 3 + 2];
        let row1r: i64 = blend(to_fx(r1), to_fx(r2), one_minus_s, s);
        let row1g: i64 = blend(to_fx(g1), to_fx(g2), one_minus_s, s);
        let row1b: i64 = blend(to_fx(b1), to_fx(b2), one_minus_s, s);
        let row2r: i64 = blend(to_fx(r3), to_fx(r4), one_minus_s, s);
        let row2g: i64 = blend(to_fx(g3), to_fx(g4), one_minus_s, s);
        let row2b: i64 = blend(to_fx(b3), to_fx(b4), one_minus_s, s);
        proof {
            lemma_blend_bound(r1 as int * SCALE as int, r2 as int * SCALE as int, s as int);
            lemma_blend_bound(g1 as int * SCALE as int, g2 as int * SCALE as int, s as int);
            lemma_blend_bound(b1 as int * SCALE as int, b2 as int * SCALE as int, s as int);
            lemma_blend_bound(r3 as int * SCALE as int, r4 as int * SCALE as int, s as int);
            lemma_blend_bound(g3 as int * SCALE as int, g4 as int * SCALE as int, s as int);
            lemma_blend_bound(b3 as int * SCALE as int, b4 as int * SCALE as int, s as int);
        }
        let fr: u64 = fx_to_u64(blend(row1r, row2r, one_minus_t, tt));
        let fg: u64 = fx_to_u64(blend(row1g, row2g, one_minus_t, tt));
        let fb: u64 = fx_to_u64(blend(row1b, row2b, one_minus_t, tt));
        proof {
            lemma_byte_range(row1r as int, row2r as int, tt as int);
            lemma_byte_range(row1g as int, row2g as int, tt as int);
            lemma_byte_range(row1b as int, row2b as int, tt as int);
        }
        [fr as u8, fg as u8, fb as u8]
    }
}

/// A pixel's channel index lies inside a row-major RGB buffer.
proof fn lemma_pix_index(w: int, h: int, x: int, y: int)
    requires
        0 <= x < w,
        0 <= y < h,
    ensures
        0 <= (y * w + x) * 3 + 2 < w * h * 3,
        0 <= y * w + x < w * h,
{
    assert(0 <= (y * w + x) * 3 + 2 < w * h * 3 && 0 <= y * w + x < w * h) by (nonlinear_arith)
        requires
            0 <= x < w,
            0 <= y < h,
    ;
}

/// The value the `blend` helper computes.
pub open spec fn blend_val(a: int, b: int, s: int) -> int {
    s_add(s_mul(a, (SCALE as int) - s), s_mul(b, s))
}

/// A blend of two channel values stays within a byte after rescaling.
proof fn lemma_byte_range(a: int, b: int, s: int)
    requires
        0 <= a <= 255 * (SCALE as int),
        0 <= b <= 255 * (SCALE as int),
        0 <= s <= SCALE as int,
    ensures
        0 <= s_to_u64(blend_val(a, b, s)) <= 255,
{
    lemma_blend_bound(a, b, s);
    let v = blend_val(a, b, s);
    vstd::arithmetic::div_mod::lemma_div_pos_is_pos(v, SCALE as int);
    vstd::arithmetic::div_mod::lemma_div_is_ordered(v, 255 * (SCALE as int), SCALE as int);
    vstd::arithmetic::div_mod::lemma_div_by_multiple(255, SCALE as int);
}

/// Weighted sum of two scalars by complementary weights, as the sampler
/// chains them.
fn blend(a: i64, b: i64, one_minus_s: i64, s: i64) -> (r: i64)
    requires
        one_minus_s as int == (SCALE as int) - s as int,
    ensures
        r as int == blend_val(a as int, b as int, s as int),
{
    fx_add(fx_mul(a, one_minus_s), fx_mul(b, s))
}

/// A byte channel as a fixed-point scalar.
fn to_fx(v: u8) -> (r: i64)
    ensures
        r as int == v as int * SCALE as int,
{
    (v as i64) * SCALE
}

} // verus!
