//! An exact integer model of the edge anti-aliasing post-process: a
//! deterministic, stateless per-pixel filter over an 8-bit image.
//!
//! All fractional quantities (luma values, sub-texel positions and
//! offsets) are carried in fixed point with `FP` units per whole texel or
//! per unit of luma, so every step is integer arithmetic and the output
//! is a pure function of the input image and the pixel position.

use vstd::prelude::*;

use crate::color::Color;

verus! {

/// Fixed-point scale: the integer `FP` stands for 1.0, both for luma
/// values and for texel-space positions.
pub const FP: i64 = 4096;

/// An image: `width * height` colors in row-major order.
pub struct Image {
    pub width: usize,
    pub height: usize,
    pub pixels: Vec<Color>,
}

impl Image {
    /// Well-formedness: positive bounded dimensions and exactly one
    /// stored color per pixel.
    pub open spec fn wf(self) -> bool {
        &&& 0 < self.width <= 16384
        &&& 0 < self.height <= 16384
        &&& self.pixels@.len() == self.width * self.height
    }

    /// The color at texel `(x, y)`, with coordinates clamped to the
    /// image, matching a sampler that clamps to the edge.
    pub open spec fn texel(self, x: int, y: int) -> Color {
        spec_texel(self.width as int, self.height as int, self.pixels@, x, y)
    }

    /// Builds an image from its dimensions and row-major pixels.
    pub fn new(width: usize, height: usize, pixels: Vec<Color>) -> (img: Image)
        requires
            0 < width <= 16384,
            0 < height <= 16384,
            pixels@.len() == width * height,
        ensures
            img.wf(),
            img.width == width,
            img.height == height,
            img.pixels@ == pixels@,
    {
        Image { width, height, pixels }
    }

    /// Reads the texel at `(x, y)`, clamping out-of-range coordinates to
    /// the border as an edge-clamping sampler does.
    pub fn texel_at(&self, x: i64, y: i64) -> (c: Color)
        requires
            self.wf(),
        ensures
            c == self.texel(x as int, y as int),
    {
        let w = self.width as i64;
        let h = self.height as i64;
        let cx = clamp_i64(x, 0, w - 1);
        let cy = clamp_i64(y, 0, h - 1);
        let ix: usize = cx as usize;
        let iy: usize = cy as usize;
        let n: usize = self.pixels.len();
        proof {
            assert(iy * self.width + ix < n) by (nonlinear_arith)
                requires
                    0 <= ix < self.width,
                    0 <= iy < self.height,
                    n == self.width * self.height,
            ;
        }
        self.pixels[iy * self.width + ix]
    }
}

/// The color of the image `px` (row-major, `w` by `h`) at texel
/// `(x, y)`, with coordinates clamped to the image, matching a sampler
/// that clamps to the edge.
pub open spec fn spec_texel(w: int, h: int, px: Seq<Color>, x: int, y: int) -> Color {
    let cx = clamp_int(x, 0, w - 1);
    let cy = clamp_int(y, 0, h - 1);
    px[cy * w + cx]
}

/// The fixed-point luma of the texel at `(x, y)`.
#[verifier::opaque]
pub open spec fn spec_texel_luma(w: int, h: int, px: Seq<Color>, x: int, y: int) -> int {
    spec_luma(spec_texel(w, h, px, x, y))
}

/// The larger of two integers.
pub open spec fn spec_max(a: int, b: int) -> int {
    if a >= b {
        a
    } else {
        b
    }
}

/// The smaller of two integers.
pub open spec fn spec_min(a: int, b: int) -> int {
    if a <= b {
        a
    } else {
        b
    }
}

/// The absolute value.
pub open spec fn spec_abs(v: int) -> int {
    if v < 0 {
        -v
    } else {
        v
    }
}

/// Returns the larger of two values.
fn max_i64(a: i64, b: i64) -> (r: i64)
    ensures
        r == spec_max(a as int, b as int),
{
    if a >= b {
        a
    } else {
        b
    }
}

/// Returns the smaller of two values.
fn min_i64(a: i64, b: i64) -> (r: i64)
    ensures
        r == spec_min(a as int, b as int),
{
    if a <= b {
        a
    } else {
        b
    }
}

/// Returns the absolute value.
fn abs_i64(v: i64) -> (r: i64)
    requires
        i64::MIN < v,
    ensures
        r == spec_abs(v as int),
{
    if v < 0 {
        -v
    } else {
        v
    }
}

/// Floor division of a nonnegative value by a positive one; agrees with
/// the mathematical `/` on these inputs.
fn div_floor_nn(a: i64, b: i64) -> (q: i64)
    requires
        0 <= a,
        0 < b,
    ensures
        q == a as int / b as int,
        0 <= q <= a,
{
    ((a as u64) / (b as u64)) as i64
}

/// `v` clamped into `[lo, hi]`.
pub open spec fn clamp_int(v: int, lo: int, hi: int) -> int {
    if v < lo {
        lo
    } else if v > hi {
        hi
    } else {
        v
    }
}

/// Clamps `v` into `[lo, hi]`.
fn clamp_i64(v: i64, lo: i64, hi: i64) -> (r: i64)
    requires
        lo <= hi,
    ensures
        r == clamp_int(v as int, lo as int, hi as int),
{
    if v < lo {
        lo
    } else if v > hi {
        hi
    } else {
        v
    }
}

/// The integer square root: the unique `r` with `r * r <= x` and
/// `x < (r + 1) * (r + 1)`, defined by stepping `x` down to 0.
pub open spec fn spec_isqrt(x: int) -> int
    decreases x,
{
    if x <= 0 {
        0
    } else {
        let p = spec_isqrt(x - 1);
        if (p + 1) * (p + 1) <= x {
            p + 1
        } else {
            p
        }
    }
}

/// `spec_isqrt` is the floor of the square root: it is nonnegative,
/// its square is at most `x`, and the next square is beyond `x`.
pub proof fn lemma_isqrt_bounds(x: int)
    requires
        x >= 0,
    ensures
        spec_isqrt(x) >= 0,
        spec_isqrt(x) * spec_isqrt(x) <= x,
        x < (spec_isqrt(x) + 1) * (spec_isqrt(x) + 1),
    decreases x,
{
    if x == 0 {
        assert(spec_isqrt(0) == 0);
    } else {
        lemma_isqrt_bounds(x - 1);
        let p = spec_isqrt(x - 1);
        if (p + 1) * (p + 1) <= x {
            assert((p + 2) * (p + 2) > x) by (nonlinear_arith)
                requires
                    p >= 0,
                    x - 1 < (p + 1) * (p + 1),
                    (p + 1) * (p + 1) <= x,
            ;
        }
    }
}

/// Any `r` in the square-root sandwich equals `spec_isqrt(x)`.
pub proof fn lemma_isqrt_unique(x: int, r: int)
    requires
        x >= 0,
        r >= 0,
        r * r <= x,
        x < (r + 1) * (r + 1),
    ensures
        r == spec_isqrt(x),
{
    lemma_isqrt_bounds(x);
    let s = spec_isqrt(x);
    assert(r == s) by (nonlinear_arith)
        requires
            r >= 0 && s >= 0,
            r * r <= x && x < (r + 1) * (r + 1),
            s * s <= x && x < (s + 1) * (s + 1),
    ;
}

/// Computes the integer square root by binary search.
pub fn isqrt(x: u64) -> (r: u64)
    requires
        x < 0x1_0000_0000,
    ensures
        r == spec_isqrt(x as int),
        r * r <= x < (r + 1) * (r + 1),
        r <= 0x1_0000,
{
    let mut lo: u64 = 0;
    let mut hi: u64 = 0x1_0000;
    while lo + 1 < hi
        invariant
            lo < hi <= 0x1_0000,
            lo * lo <= x,
            x < hi * hi,
        decreases hi - lo,
    {
        let mid = lo + (hi - lo) / 2;
        proof {
            assert(mid * mid <= 0x1_0000_0000) by (nonlinear_arith)
                requires
                    mid <= 0x1_0000,
            ;
        }
        if mid * mid <= x {
            lo = mid;
        } else {
            hi = mid;
        }
    }
    proof {
        lemma_isqrt_unique(x as int, lo as int);
    }
    lo
}

/// The luma of a color in `FP` fixed point: the square root of the
/// rec.601-weighted average of the channels,
/// `sqrt((299 r + 587 g + 114 b) / (1000 * 255))`, a cheap gamma
/// approximation. Always in `[0, FP]`.
#[verifier::opaque]
pub open spec fn spec_luma(c: Color) -> int {
    spec_isqrt(((299 * c.r + 587 * c.g + 114 * c.b) * (FP * FP)) / 255000)
}

/// Computes the fixed-point luma of a color.
pub fn luma(c: Color) -> (l: i64)
    ensures
        l == spec_luma(c),
        0 <= l <= FP,
{
    let dot: u64 = 299 * (c.r as u64) + 587 * (c.g as u64) + 114 * (c.b as u64);
    let fp2: u64 = (FP as u64) * (FP as u64);
    proof {
        reveal(spec_luma);
        assert(dot * fp2 <= 0x3_d100_0000_0000) by (nonlinear_arith)
            requires
                dot <= 255000,
                fp2 == 16777216,
        ;
    }
    let scaled: u64 = (dot * fp2) / 255000;
    let r = isqrt(scaled);
    proof {
        assert(scaled <= (FP * FP) as u64);
        if r > FP {
            assert(r * r > (FP * FP)) by (nonlinear_arith)
                requires
                    r > FP,
                    FP > 0,
            ;
        }
    }
    r as i64
}

/// A sampling position clamped to just outside the image, where the
/// edge-clamped texel reads no longer change: sampling at the clamped
/// position gives the same color as at the unclamped one.
pub open spec fn spec_clamp_pos(v: int, dim: int) -> int {
    clamp_int(v, -2 * FP, (dim + 1) * FP)
}

/// The whole-texel part of a fixed-point position (floor), defined for
/// positions down to `-4` texels.
pub open spec fn spec_fp_floor(v: int) -> int {
    (v + 4 * FP) / (FP as int) - 4
}

/// The sub-texel part of a fixed-point position, in `[0, FP)`.
pub open spec fn spec_fp_frac(v: int) -> int {
    (v + 4 * FP) % (FP as int)
}

/// One channel of a bilinear blend: the four corner channels weighted by
/// the sub-texel fractions `fx`, `fy`, rounded to nearest.
#[verifier::opaque]
pub open spec fn spec_blend(c00: int, c10: int, c01: int, c11: int, fx: int, fy: int) -> int {
    ((c00 * (FP - fx) + c10 * fx) * (FP - fy) + (c01 * (FP - fx) + c11 * fx) * fy + 8388608)
        / 16777216
}

/// The bilinearly interpolated color of the image at the fixed-point
/// position `(sx, sy)` (in texel units, `FP` per texel, integer values
/// on texel centers), with edge clamping and full alpha.
#[verifier::opaque]
pub open spec fn spec_bilerp(w: int, h: int, px: Seq<Color>, sx: int, sy: int) -> Color {
    let cxp = spec_clamp_pos(sx, w);
    let cyp = spec_clamp_pos(sy, h);
    let x0 = spec_fp_floor(cxp);
    let y0 = spec_fp_floor(cyp);
    let fx = spec_fp_frac(cxp);
    let fy = spec_fp_frac(cyp);
    let c00 = spec_texel(w, h, px, x0, y0);
    let c10 = spec_texel(w, h, px, x0 + 1, y0);
    let c01 = spec_texel(w, h, px, x0, y0 + 1);
    let c11 = spec_texel(w, h, px, x0 + 1, y0 + 1);
    Color {
        r: spec_blend(c00.r as int, c10.r as int, c01.r as int, c11.r as int, fx, fy) as u8,
        g: spec_blend(c00.g as int, c10.g as int, c01.g as int, c11.g as int, fx, fy) as u8,
        b: spec_blend(c00.b as int, c10.b as int, c01.b as int, c11.b as int, fx, fy) as u8,
        a: 255,
    }
}

/// The luma of the bilinearly sampled color at `(sx, sy)`.
pub open spec fn spec_bilerp_luma(w: int, h: int, px: Seq<Color>, sx: int, sy: int) -> int {
    spec_luma(spec_bilerp(w, h, px, sx, sy))
}

/// Computes one bilinearly blended channel.
fn blend8(c00: u8, c10: u8, c01: u8, c11: u8, fx: i64, fy: i64) -> (r: u8)
    requires
        0 <= fx < FP,
        0 <= fy < FP,
    ensures
        r == spec_blend(c00 as int, c10 as int, c01 as int, c11 as int, fx as int, fy as int),
{
    let fxu = fx as u64;
    let fyu = fy as u64;
    let fpu = FP as u64;
    proof {
        reveal(spec_blend);
        assert({
            &&& (c00 as u64) * (fpu - fxu) + (c10 as u64) * fxu <= 255 * 4096
            &&& (c01 as u64) * (fpu - fxu) + (c11 as u64) * fxu <= 255 * 4096
        }) by (nonlinear_arith)
            requires
                c00 < 256 && c10 < 256 && c01 < 256 && c11 < 256,
                0 <= fxu <= 4096,
                fpu == 4096,
        ;
    }
    let top: u64 = (c00 as u64) * (fpu - fxu) + (c10 as u64) * fxu;
    let bot: u64 = (c01 as u64) * (fpu - fxu) + (c11 as u64) * fxu;
    proof {
        assert(top * (fpu - fyu) + bot * fyu <= 255 * 4096 * 4096) by (nonlinear_arith)
            requires
                top <= 255 * 4096,
                bot <= 255 * 4096,
                0 <= fyu <= 4096,
                fpu == 4096,
        ;
    }
    let num: u64 = top * (fpu - fyu) + bot * fyu + 8388608;
    let v: u64 = num / 16777216;
    v as u8
}

/// Samples the image bilinearly at the fixed-point position `(sx, sy)`,
/// clamping to the edge; the result carries full alpha.
pub fn bilerp(img: &Image, sx: i64, sy: i64) -> (c: Color)
    requires
        img.wf(),
        -0x2000_0000 <= sx <= 0x2000_0000,
        -0x2000_0000 <= sy <= 0x2000_0000,
    ensures
        c == spec_bilerp(img.width as int, img.height as int, img.pixels@, sx as int, sy as int),
{
    let w = img.width as i64;
    let h = img.height as i64;
    proof {
        reveal(spec_bilerp);
    }
    let cxp = clamp_i64(sx, -2 * FP, (w + 1) * FP);
    let cyp = clamp_i64(sy, -2 * FP, (h + 1) * FP);
    let tx: u64 = (cxp + 4 * FP) as u64;
    let ty: u64 = (cyp + 4 * FP) as u64;
    let x0: i64 = (tx / 4096) as i64 - 4;
    let y0: i64 = (ty / 4096) as i64 - 4;
    let fx: i64 = (tx % 4096) as i64;
    let fy: i64 = (ty % 4096) as i64;
    let c00 = img.texel_at(x0, y0);
    let c10 = img.texel_at(x0 + 1, y0);
    let c01 = img.texel_at(x0, y0 + 1);
    let c11 = img.texel_at(x0 + 1, y0 + 1);
    Color {
        r: blend8(c00.r, c10.r, c01.r, c11.r, fx, fy),
        g: blend8(c00.g, c10.g, c01.g, c11.g, fx, fy),
        b: blend8(c00.b, c10.b, c01.b, c11.b, fx, fy),
        a: 255,
    }
}

/// The bilinearly sampled luma at the fixed-point position `(sx, sy)`.
pub fn bilerp_luma(img: &Image, sx: i64, sy: i64) -> (l: i64)
    requires
        img.wf(),
        -0x2000_0000 <= sx <= 0x2000_0000,
        -0x2000_0000 <= sy <= 0x2000_0000,
    ensures
        l == spec_bilerp_luma(img.width as int, img.height as int, img.pixels@, sx as int,
            sy as int),
        0 <= l <= FP,
{
    luma(bilerp(img, sx, sy))
}

/// The bilinearly sampled luma at offset `p` along the search axis (x
/// for a horizontal edge, y for a vertical one), at cross position `fc`.
pub open spec fn spec_axis_luma(w: int, h: int, px: Seq<Color>, is_h: bool, fc: int, p: int)
    -> int {
    if is_h {
        spec_bilerp_luma(w, h, px, p, fc)
    } else {
        spec_bilerp_luma(w, h, px, fc, p)
    }
}

/// Samples the luma along the search axis.
fn axis_luma(img: &Image, is_h: bool, fc: i64, p: i64) -> (l: i64)
    requires
        img.wf(),
        -0x2000_0000 <= fc <= 0x2000_0000,
        -0x2000_0000 <= p <= 0x2000_0000,
    ensures
        l == spec_axis_luma(img.width as int, img.height as int, img.pixels@, is_h, fc as int,
            p as int),
        0 <= l <= FP,
{
    if is_h {
        bilerp_luma(img, p, fc)
    } else {
        bilerp_luma(img, fc, p)
    }
}

/// The per-iteration step length of the edge search, in fixed point:
/// one texel for the early iterations, then growing up to eight.
pub open spec fn spec_quality(i: int) -> int {
    if i < 6 {
        FP as int
    } else if i == 6 {
        FP + FP / 2
    } else if i < 10 {
        2 * FP
    } else if i == 10 {
        4 * FP
    } else {
        8 * FP
    }
}

/// Returns the step length for iteration `i` of the edge search.
fn quality(i: u32) -> (q: i64)
    ensures
        q == spec_quality(i as int),
        FP <= q <= 8 * FP,
{
    if i < 6 {
        FP
    } else if i == 6 {
        FP + FP / 2
    } else if i < 10 {
        2 * FP
    } else if i == 10 {
        4 * FP
    } else {
        8 * FP
    }
}

/// The edge search from iteration `i` on: while an end of the explored
/// segment has not crossed the luma threshold `gs` relative to the local
/// average `lla`, resample there and step it further outward, for at
/// most 12 iterations in all. Returns the final end positions `(p1, p2)`
/// along the axis, the last luma deltas at the two ends, and whether
/// each end crossed the threshold.
pub open spec fn spec_search(
    w: int, h: int, px: Seq<Color>, is_h: bool, fc: int, lla: int, gs: int,
    p1: int, p2: int, le1: int, le2: int, r1: bool, r2: bool, i: int,
) -> (int, int, int, int, bool, bool)
    decreases 12 - i,
{
    if i >= 12 || (r1 && r2) {
        (p1, p2, le1, le2, r1, r2)
    } else {
        let nle1 = if !r1 {
            spec_axis_luma(w, h, px, is_h, fc, p1) - lla
        } else {
            le1
        };
        let nle2 = if !r2 {
            spec_axis_luma(w, h, px, is_h, fc, p2) - lla
        } else {
            le2
        };
        let nr1 = spec_abs(nle1) >= gs;
        let nr2 = spec_abs(nle2) >= gs;
        let np1 = if !nr1 {
            p1 - spec_quality(i)
        } else {
            p1
        };
        let np2 = if !nr2 {
            p2 + spec_quality(i)
        } else {
            p2
        };
        spec_search(w, h, px, is_h, fc, lla, gs, np1, np2, nle1, nle2, nr1, nr2, i + 1)
    }
}

/// Runs the edge search from iteration 2, after the caller made the
/// first probe at one texel from the shifted center.
fn edge_search(
    img: &Image, is_h: bool, fc: i64, lla: i64, gs: i64,
    p1_init: i64, p2_init: i64, le1_init: i64, le2_init: i64, r1_init: bool, r2_init: bool,
) -> (st: (i64, i64, i64, i64, bool, bool))
    requires
        img.wf(),
        -0x1000_0000 <= fc <= 0x1000_0000,
        -0x1000_0000 <= p1_init <= 0x1000_0000,
        -0x1000_0000 <= p2_init <= 0x1000_0000,
        -0x2000 <= le1_init <= 0x2000,
        -0x2000 <= le2_init <= 0x2000,
        0 <= lla <= FP,
        0 <= gs <= FP,
    ensures
        (st.0 as int, st.1 as int, st.2 as int, st.3 as int, st.4, st.5) == spec_search(
            img.width as int, img.height as int, img.pixels@, is_h, fc as int, lla as int,
            gs as int, p1_init as int, p2_init as int, le1_init as int, le2_init as int,
            r1_init, r2_init, 2,
        ),
        p1_init - 0xC0000 <= st.0 <= p1_init,
        p2_init <= st.1 <= p2_init + 0xC0000,
        -0x2000 <= st.2 <= 0x2000,
        -0x2000 <= st.3 <= 0x2000,
{
    let mut p1 = p1_init;
    let mut p2 = p2_init;
    let mut le1 = le1_init;
    let mut le2 = le2_init;
    let mut r1 = r1_init;
    let mut r2 = r2_init;
    let mut i: u32 = 2;
    while i < 12 && !(r1 && r2)
        invariant
            img.wf(),
            -0x1000_0000 <= fc <= 0x1000_0000,
            0 <= lla <= FP,
            0 <= gs <= FP,
            2 <= i <= 12,
            p1_init - (i as int) * 0x8000 <= p1 <= p1_init,
            p2_init <= p2 <= p2_init + (i as int) * 0x8000,
            -0x1000_0000 <= p1_init <= 0x1000_0000,
            -0x1000_0000 <= p2_init <= 0x1000_0000,
            -0x2000 <= le1 <= 0x2000,
            -0x2000 <= le2 <= 0x2000,
            spec_search(img.width as int, img.height as int, img.pixels@, is_h, fc as int,
                lla as int, gs as int, p1_init as int, p2_init as int, le1_init as int,
                le2_init as int, r1_init, r2_init, 2) == spec_search(img.width as int,
                img.height as int, img.pixels@, is_h, fc as int, lla as int, gs as int,
                p1 as int, p2 as int, le1 as int, le2 as int, r1, r2, i as int),
        decreases 12 - i,
    {
        if !r1 {
            le1 = axis_luma(img, is_h, fc, p1) - lla;
        }
        if !r2 {
            le2 = axis_luma(img, is_h, fc, p2) - lla;
        }
        r1 = abs_i64(le1) >= gs;
        r2 = abs_i64(le2) >= gs;
        let q = quality(i);
        if !r1 {
            p1 = p1 - q;
        }
        if !r2 {
            p2 = p2 + q;
        }
        i = i + 1;
    }
    (p1, p2, le1, le2, r1, r2)
}

/// The largest luma of the 5-sample plus-shaped neighborhood of
/// `(x, y)`.
#[verifier::opaque]
pub open spec fn spec_neighborhood_max(w: int, h: int, px: Seq<Color>, x: int, y: int) -> int {
    let lc = spec_texel_luma(w, h, px, x, y);
    let ld = spec_texel_luma(w, h, px, x, y + 1);
    let lu = spec_texel_luma(w, h, px, x, y - 1);
    let ll = spec_texel_luma(w, h, px, x - 1, y);
    let lr = spec_texel_luma(w, h, px, x + 1, y);
    spec_max(lc, spec_max(spec_max(ld, lu), spec_max(ll, lr)))
}

/// The smallest luma of the 5-sample plus-shaped neighborhood.
#[verifier::opaque]
pub open spec fn spec_neighborhood_min(w: int, h: int, px: Seq<Color>, x: int, y: int) -> int {
    let lc = spec_texel_luma(w, h, px, x, y);
    let ld = spec_texel_luma(w, h, px, x, y + 1);
    let lu = spec_texel_luma(w, h, px, x, y - 1);
    let ll = spec_texel_luma(w, h, px, x - 1, y);
    let lr = spec_texel_luma(w, h, px, x + 1, y);
    spec_min(lc, spec_min(spec_min(ld, lu), spec_min(ll, lr)))
}

/// Whether `(x, y)` lies in a flat region: the luma range of its
/// plus-shaped neighborhood falls below the contrast threshold
/// `max(0.0312, max_luma / 8)`, so the pixel is not on a perceptible
/// edge and the filter leaves it unchanged.
#[verifier::opaque]
pub open spec fn spec_flat(w: int, h: int, px: Seq<Color>, x: int, y: int) -> bool {
    let lmax = spec_neighborhood_max(w, h, px, x, y);
    let range = lmax - spec_neighborhood_min(w, h, px, x, y);
    10000 * range < 312 * FP || 8 * range < lmax
}

/// Whether the detected edge at `(x, y)` is horizontal: compares the
/// horizontal and vertical gradient estimates over the 3x3 luma
/// neighborhood; a tie counts as horizontal.
#[verifier::opaque]
pub open spec fn spec_edge_is_horizontal(w: int, h: int, px: Seq<Color>, x: int, y: int)
    -> bool {
    let lc = spec_texel_luma(w, h, px, x, y);
    let ld = spec_texel_luma(w, h, px, x, y + 1);
    let lu = spec_texel_luma(w, h, px, x, y - 1);
    let ll = spec_texel_luma(w, h, px, x - 1, y);
    let lr = spec_texel_luma(w, h, px, x + 1, y);
    let ldl = spec_texel_luma(w, h, px, x - 1, y + 1);
    let ldr = spec_texel_luma(w, h, px, x + 1, y + 1);
    let lul = spec_texel_luma(w, h, px, x - 1, y - 1);
    let lur = spec_texel_luma(w, h, px, x + 1, y - 1);
    let eh = spec_abs(-2 * ll + (ldl + lul)) + 2 * spec_abs(-2 * lc + (ld + lu)) + spec_abs(
        -2 * lr + (ldr + lur));
    let ev = spec_abs(-2 * lu + (lur + lul)) + 2 * spec_abs(-2 * lc + (ll + lr)) + spec_abs(
        -2 * ld + (ldl + ldr));
    eh >= ev
}

/// The luma one texel across the edge in the first direction (down for a
/// horizontal edge, left for a vertical one).
#[verifier::opaque]
pub open spec fn spec_luma1(w: int, h: int, px: Seq<Color>, x: int, y: int) -> int {
    if spec_edge_is_horizontal(w, h, px, x, y) {
        spec_texel_luma(w, h, px, x, y + 1)
    } else {
        spec_texel_luma(w, h, px, x - 1, y)
    }
}

/// The luma one texel across the edge in the second direction (up for a
/// horizontal edge, right for a vertical one).
#[verifier::opaque]
pub open spec fn spec_luma2(w: int, h: int, px: Seq<Color>, x: int, y: int) -> int {
    if spec_edge_is_horizontal(w, h, px, x, y) {
        spec_texel_luma(w, h, px, x, y - 1)
    } else {
        spec_texel_luma(w, h, px, x + 1, y)
    }
}

/// Whether the first direction across the edge has the steeper gradient.
#[verifier::opaque]
pub open spec fn spec_is1_steepest(w: int, h: int, px: Seq<Color>, x: int, y: int) -> bool {
    let lc = spec_texel_luma(w, h, px, x, y);
    spec_abs(spec_luma1(w, h, px, x, y) - lc) >= spec_abs(spec_luma2(w, h, px, x, y) - lc)
}

/// A quarter of the steeper cross-edge gradient: the threshold a luma
/// delta must reach for the search to stop at an edge end.
#[verifier::opaque]
pub open spec fn spec_gradient_scaled(w: int, h: int, px: Seq<Color>, x: int, y: int) -> int {
    let lc = spec_texel_luma(w, h, px, x, y);
    spec_max(spec_abs(spec_luma1(w, h, px, x, y) - lc), spec_abs(spec_luma2(w, h, px, x, y)
        - lc)) / 4
}

/// The average of the center luma and the luma on the steeper side.
#[verifier::opaque]
pub open spec fn spec_local_avg_luma(w: int, h: int, px: Seq<Color>, x: int, y: int) -> int {
    let lc = spec_texel_luma(w, h, px, x, y);
    if spec_is1_steepest(w, h, px, x, y) {
        (spec_luma1(w, h, px, x, y) + lc) / 2
    } else {
        (spec_luma2(w, h, px, x, y) + lc) / 2
    }
}

/// The cross-axis coordinate of the search: the center shifted half a
/// texel toward the steeper side of the edge.
#[verifier::opaque]
pub open spec fn spec_cross_start(w: int, h: int, px: Seq<Color>, x: int, y: int) -> int {
    let half = if spec_is1_steepest(w, h, px, x, y) {
        -(FP / 2)
    } else {
        FP / 2
    };
    if spec_edge_is_horizontal(w, h, px, x, y) {
        y * FP + half
    } else {
        x * FP + half
    }
}

/// The state of the edge search after its first probe, one texel out on
/// each side, from which `spec_search` continues at iteration 2.
#[verifier::opaque]
pub open spec fn spec_search_start(w: int, h: int, px: Seq<Color>, x: int, y: int)
    -> (int, int, int, int, bool, bool) {
    let is_h = spec_edge_is_horizontal(w, h, px, x, y);
    let fc = spec_cross_start(w, h, px, x, y);
    let gs = spec_gradient_scaled(w, h, px, x, y);
    let lla = spec_local_avg_luma(w, h, px, x, y);
    let sc = if is_h {
        x * FP
    } else {
        y * FP
    };
    let p1 = sc - FP;
    let p2 = sc + FP;
    let le1 = spec_axis_luma(w, h, px, is_h, fc, p1) - lla;
    let le2 = spec_axis_luma(w, h, px, is_h, fc, p2) - lla;
    let r1 = spec_abs(le1) >= gs;
    let r2 = spec_abs(le2) >= gs;
    ((if !r1 {
        p1 - FP
    } else {
        p1
    }), (if !r2 {
        p2 + FP
    } else {
        p2
    }), le1, le2, r1, r2)
}

/// The subpixel blending offset: the distance of the center luma from
/// the weighted 3x3 average, over the neighborhood luma range, smoothed
/// by a cubic weighting and scaled by the subpixel quality 3/4.
#[verifier::opaque]
pub open spec fn spec_subpixel_offset(w: int, h: int, px: Seq<Color>, x: int, y: int) -> int {
    let lc = spec_texel_luma(w, h, px, x, y);
    let ld = spec_texel_luma(w, h, px, x, y + 1);
    let lu = spec_texel_luma(w, h, px, x, y - 1);
    let ll = spec_texel_luma(w, h, px, x - 1, y);
    let lr = spec_texel_luma(w, h, px, x + 1, y);
    let ldl = spec_texel_luma(w, h, px, x - 1, y + 1);
    let ldr = spec_texel_luma(w, h, px, x + 1, y + 1);
    let lul = spec_texel_luma(w, h, px, x - 1, y - 1);
    let lur = spec_texel_luma(w, h, px, x + 1, y - 1);
    let range = spec_neighborhood_max(w, h, px, x, y) - spec_neighborhood_min(w, h, px, x, y);
    let avg = (2 * ((ld + lu) + (ll + lr)) + ((ldl + lul) + (ldr + lur))) / 12;
    let s1 = clamp_int((spec_abs(avg - lc) * FP) / range, 0, FP as int);
    let s2 = ((3 * FP - 2 * s1) * s1 * s1) / 16777216;
    (((s2 * s2) / 4096) * 3) / 4
}

/// The filter's output on a pixel that is on a perceptible edge: the
/// edge search picks a sub-texel offset toward the nearer edge end,
/// validated by the sign of the luma variation; a separate subpixel term
/// comes from the 3x3 average luma; the larger of the two shifts the
/// sampling point along the edge normal, and the output is the bilinear
/// sample there.
#[verifier::opaque]
pub open spec fn spec_fxaa_edge(w: int, h: int, px: Seq<Color>, x: int, y: int) -> Color {
    let is_h = spec_edge_is_horizontal(w, h, px, x, y);
    let is1 = spec_is1_steepest(w, h, px, x, y);
    let gs = spec_gradient_scaled(w, h, px, x, y);
    let lla = spec_local_avg_luma(w, h, px, x, y);
    let fc = spec_cross_start(w, h, px, x, y);
    let s0 = spec_search_start(w, h, px, x, y);
    let st = spec_search(w, h, px, is_h, fc, lla, gs, s0.0, s0.1, s0.2, s0.3, s0.4, s0.5, 2);
    let sc = if is_h {
        x * FP
    } else {
        y * FP
    };
    let d1 = sc - st.0;
    let d2 = st.1 - sc;
    let dist = spec_min(d1, d2);
    let thick = d1 + d2;
    let po = FP / 2 - (dist * FP) / thick;
    let lc = spec_texel_luma(w, h, px, x, y);
    let le_near = if d1 < d2 {
        st.2
    } else {
        st.3
    };
    let correct = (le_near < 0) != (lc < lla);
    let eoff = if correct {
        po
    } else {
        0
    };
    let sf = spec_subpixel_offset(w, h, px, x, y);
    let foff = spec_max(eoff, sf);
    let shift = if is1 {
        -foff
    } else {
        foff
    };
    let fx = if is_h {
        x * FP
    } else {
        x * FP + shift
    };
    let fy = if is_h {
        y * FP + shift
    } else {
        y * FP
    };
    spec_bilerp(w, h, px, fx, fy)
}

/// The edge anti-aliasing filter at pixel `(x, y)`: the unmodified
/// center color (with full alpha) in a flat region, and the edge-blended
/// sample otherwise. A pure function of the image contents, the
/// dimensions and the position.
pub open spec fn spec_fxaa(w: int, h: int, px: Seq<Color>, x: int, y: int) -> Color {
    let cc = spec_texel(w, h, px, x, y);
    if spec_flat(w, h, px, x, y) {
        Color { r: cc.r, g: cc.g, b: cc.b, a: 255 }
    } else {
        spec_fxaa_edge(w, h, px, x, y)
    }
}

/// Classifies the edge at `(x, y)`: its direction, the steeper side,
/// the stop threshold, the local average luma and the cross-axis start
/// coordinate of the search.
#[verifier::rlimit(100)]
fn classify_edge(img: &Image, x: usize, y: usize) -> (t: (bool, bool, i64, i64, i64))
    requires
        img.wf(),
        x < img.width,
        y < img.height,
    ensures
        t.0 == spec_edge_is_horizontal(img.width as int, img.height as int, img.pixels@,
            x as int, y as int),
        t.1 == spec_is1_steepest(img.width as int, img.height as int, img.pixels@, x as int,
            y as int),
        t.2 == spec_gradient_scaled(img.width as int, img.height as int, img.pixels@, x as int,
            y as int),
        t.3 == spec_local_avg_luma(img.width as int, img.height as int, img.pixels@, x as int,
            y as int),
        t.4 == spec_cross_start(img.width as int, img.height as int, img.pixels@, x as int,
            y as int),
        0 <= t.2 <= FP,
        0 <= t.3 <= FP,
        -0x1000_0000 <= t.4 <= 0x1000_0000,
{
    let ghost gw = img.width as int;
    let ghost gh = img.height as int;
    let ghost gp = img.pixels@;
    let ghost gx = x as int;
    let ghost gy = y as int;
    let xi = x as i64;
    let yi = y as i64;

    let l_c = luma(img.texel_at(xi, yi));
    let l_d = luma(img.texel_at(xi, yi + 1));
    let l_u = luma(img.texel_at(xi, yi - 1));
    let l_l = luma(img.texel_at(xi - 1, yi));
    let l_r = luma(img.texel_at(xi + 1, yi));
    let l_dl = luma(img.texel_at(xi - 1, yi + 1));
    let l_dr = luma(img.texel_at(xi + 1, yi + 1));
    let l_ul = luma(img.texel_at(xi - 1, yi - 1));
    let l_ur = luma(img.texel_at(xi + 1, yi - 1));
    proof {
        reveal(spec_texel_luma);
        assert(l_c == spec_texel_luma(gw, gh, gp, gx, gy));
        assert(l_d == spec_texel_luma(gw, gh, gp, gx, gy + 1));
        assert(l_u == spec_texel_luma(gw, gh, gp, gx, gy - 1));
        assert(l_l == spec_texel_luma(gw, gh, gp, gx - 1, gy));
        assert(l_r == spec_texel_luma(gw, gh, gp, gx + 1, gy));
        assert(l_dl == spec_texel_luma(gw, gh, gp, gx - 1, gy + 1));
        assert(l_dr == spec_texel_luma(gw, gh, gp, gx + 1, gy + 1));
        assert(l_ul == spec_texel_luma(gw, gh, gp, gx - 1, gy - 1));
        assert(l_ur == spec_texel_luma(gw, gh, gp, gx + 1, gy - 1));
    }

    let eh = abs_i64(-2 * l_l + (l_dl + l_ul)) + 2 * abs_i64(-2 * l_c + (l_d + l_u)) + abs_i64(
        -2 * l_r + (l_dr + l_ur));
    let ev = abs_i64(-2 * l_u + (l_ur + l_ul)) + 2 * abs_i64(-2 * l_c + (l_l + l_r)) + abs_i64(
        -2 * l_d + (l_dl + l_dr));
    let is_h = eh >= ev;
    proof {
        assert(is_h == spec_edge_is_horizontal(gw, gh, gp, gx, gy)) by {
            reveal(spec_edge_is_horizontal);
        }
    }

    let l1 = if is_h {
        l_d
    } else {
        l_l
    };
    let l2 = if is_h {
        l_u
    } else {
        l_r
    };
    let a1 = abs_i64(l1 - l_c);
    let a2 = abs_i64(l2 - l_c);
    let is1 = a1 >= a2;
    let gs = div_floor_nn(max_i64(a1, a2), 4);
    let lla = div_floor_nn(
        if is1 {
            l1 + l_c
        } else {
            l2 + l_c
        },
        2,
    );
    let half = if is1 {
        -(FP / 2)
    } else {
        FP / 2
    };
    let fc = if is_h {
        yi * FP + half
    } else {
        xi * FP + half
    };
    proof {
        reveal(spec_luma1);
        reveal(spec_luma2);
        assert(l1 == spec_luma1(gw, gh, gp, gx, gy));
        assert(l2 == spec_luma2(gw, gh, gp, gx, gy));
        assert(is1 == spec_is1_steepest(gw, gh, gp, gx, gy)) by {
            reveal(spec_is1_steepest);
            reveal(spec_luma1);
            reveal(spec_luma2);
        }
        assert(gs == spec_gradient_scaled(gw, gh, gp, gx, gy)) by {
            reveal(spec_gradient_scaled);
            reveal(spec_luma1);
            reveal(spec_luma2);
        }
        assert(lla == spec_local_avg_luma(gw, gh, gp, gx, gy)) by {
            reveal(spec_local_avg_luma);
            reveal(spec_luma1);
            reveal(spec_luma2);
        }
        assert(fc == spec_cross_start(gw, gh, gp, gx, gy)) by {
            reveal(spec_cross_start);
        }
    }
    (is_h, is1, gs, lla, fc)
}

/// Computes the subpixel blending offset at `(x, y)`.
#[verifier::rlimit(100)]
fn subpixel_term(img: &Image, x: usize, y: usize) -> (sf: i64)
    requires
        img.wf(),
        x < img.width,
        y < img.height,
        !spec_flat(img.width as int, img.height as int, img.pixels@, x as int, y as int),
    ensures
        sf == spec_subpixel_offset(img.width as int, img.height as int, img.pixels@, x as int,
            y as int),
        0 <= sf <= 0x70_0000,
{
    let ghost gw = img.width as int;
    let ghost gh = img.height as int;
    let ghost gp = img.pixels@;
    let ghost gx = x as int;
    let ghost gy = y as int;
    let xi = x as i64;
    let yi = y as i64;

    let l_c = luma(img.texel_at(xi, yi));
    let l_d = luma(img.texel_at(xi, yi + 1));
    let l_u = luma(img.texel_at(xi, yi - 1));
    let l_l = luma(img.texel_at(xi - 1, yi));
    let l_r = luma(img.texel_at(xi + 1, yi));
    let l_dl = luma(img.texel_at(xi - 1, yi + 1));
    let l_dr = luma(img.texel_at(xi + 1, yi + 1));
    let l_ul = luma(img.texel_at(xi - 1, yi - 1));
    let l_ur = luma(img.texel_at(xi + 1, yi - 1));
    proof {
        reveal(spec_texel_luma);
        assert(l_c == spec_texel_luma(gw, gh, gp, gx, gy));
        assert(l_d == spec_texel_luma(gw, gh, gp, gx, gy + 1));
        assert(l_u == spec_texel_luma(gw, gh, gp, gx, gy - 1));
        assert(l_l == spec_texel_luma(gw, gh, gp, gx - 1, gy));
        assert(l_r == spec_texel_luma(gw, gh, gp, gx + 1, gy));
        assert(l_dl == spec_texel_luma(gw, gh, gp, gx - 1, gy + 1));
        assert(l_dr == spec_texel_luma(gw, gh, gp, gx + 1, gy + 1));
        assert(l_ul == spec_texel_luma(gw, gh, gp, gx - 1, gy - 1));
        assert(l_ur == spec_texel_luma(gw, gh, gp, gx + 1, gy - 1));
    }
    let lmax = max_i64(l_c, max_i64(max_i64(l_d, l_u), max_i64(l_l, l_r)));
    let lmin = min_i64(l_c, min_i64(min_i64(l_d, l_u), min_i64(l_l, l_r)));
    let range = lmax - lmin;
    proof {
        reveal(spec_neighborhood_max);
        reveal(spec_neighborhood_min);
        assert(lmax == spec_neighborhood_max(gw, gh, gp, gx, gy));
        assert(lmin == spec_neighborhood_min(gw, gh, gp, gx, gy));
        assert(range >= 1) by {
            reveal(spec_flat);
        }
    }
    let avg = div_floor_nn(2 * ((l_d + l_u) + (l_l + l_r)) + ((l_dl + l_ul) + (l_dr + l_ur)), 12);
    let s1 = clamp_i64(div_floor_nn(abs_i64(avg - l_c) * FP, range), 0, FP);
    proof {
        assert(0 <= (3 * FP - 2 * s1) * s1 <= 0x3000_0000) by (nonlinear_arith)
            requires
                0 <= s1 <= 4096,
        ;
    }
    let n1 = (3 * FP - 2 * s1) * s1;
    proof {
        assert(0 <= n1 * s1 <= 0x300_0000_0000) by (nonlinear_arith)
            requires
                0 <= n1 <= 0x3000_0000,
                0 <= s1 <= 4096,
        ;
    }
    let n2 = n1 * s1;
    let s2 = div_floor_nn(n2, 16777216);
    proof {
        assert(0 <= s2 * s2 <= 0x9_0000_0000) by (nonlinear_arith)
            requires
                0 <= s2 <= 0x3_0000,
        ;
    }
    let sq = s2 * s2;
    let sf = div_floor_nn(div_floor_nn(sq, 4096) * 3, 4);
    proof {
        assert(sf == spec_subpixel_offset(gw, gh, gp, gx, gy)) by {
            reveal(spec_subpixel_offset);
        }
    }
    sf
}

/// Runs the edge anti-aliasing filter on one pixel that is on a
/// perceptible edge.
#[verifier::rlimit(100)]
fn fxaa_edge_pixel(img: &Image, x: usize, y: usize) -> (c: Color)
    requires
        img.wf(),
        x < img.width,
        y < img.height,
        !spec_flat(img.width as int, img.height as int, img.pixels@, x as int, y as int),
    ensures
        c == spec_fxaa_edge(img.width as int, img.height as int, img.pixels@, x as int,
            y as int),
{
    let ghost gw = img.width as int;
    let ghost gh = img.height as int;
    let ghost gp = img.pixels@;
    let ghost gx = x as int;
    let ghost gy = y as int;
    let xi = x as i64;
    let yi = y as i64;

    let (is_h, is1, gs, lla, fc) = classify_edge(img, x, y);
    let l_c = luma(img.texel_at(xi, yi));
    proof {
        assert(l_c == spec_texel_luma(gw, gh, gp, gx, gy)) by {
            reveal(spec_texel_luma);
        }
    }

    // First probe of the edge search, one texel out on each side.
    let sx = xi * FP;
    let sy = yi * FP;
    let sc = if is_h {
        sx
    } else {
        sy
    };
    let p1a = sc - FP;
    let p2a = sc + FP;
    let le1 = axis_luma(img, is_h, fc, p1a) - lla;
    let le2 = axis_luma(img, is_h, fc, p2a) - lla;
    let r1 = abs_i64(le1) >= gs;
    let r2 = abs_i64(le2) >= gs;
    let p1b = if !r1 {
        p1a - FP
    } else {
        p1a
    };
    let p2b = if !r2 {
        p2a + FP
    } else {
        p2a
    };
    proof {
        assert((p1b as int, p2b as int, le1 as int, le2 as int, r1, r2) == spec_search_start(
            gw, gh, gp, gx, gy)) by {
            reveal(spec_search_start);
        }
    }
    let st = edge_search(img, is_h, fc, lla, gs, p1b, p2b, le1, le2, r1, r2);

    // Offset toward the nearer edge end, kept only when the luma
    // variation there has the expected sign.
    let d1 = sc - st.0;
    let d2 = st.1 - sc;
    let dist = min_i64(d1, d2);
    let thick = d1 + d2;
    let qv = div_floor_nn(dist * FP, thick);
    let po = FP / 2 - qv;
    let le_near = if d1 < d2 {
        st.2
    } else {
        st.3
    };
    let correct = (le_near < 0) != (l_c < lla);
    let eoff = if correct {
        po
    } else {
        0
    };
    proof {
        assert(qv <= FP) by (nonlinear_arith)
            requires
                qv == (dist * 4096) as int / thick as int,
                0 <= dist <= thick,
                0 < thick,
        ;
    }

    let sf = subpixel_term(img, x, y);

    // The final sampling position, shifted along the edge normal.
    let foff = max_i64(eoff, sf);
    let shift = if is1 {
        -foff
    } else {
        foff
    };
    let fx = if is_h {
        sx
    } else {
        sx + shift
    };
    let fy = if is_h {
        sy + shift
    } else {
        sy
    };
    let out = bilerp(img, fx, fy);
    proof {
        assert(out == spec_fxaa_edge(gw, gh, gp, gx, gy)) by {
            reveal(spec_fxaa_edge);
        }
    }
    out
}

/// Runs the edge anti-aliasing filter on one pixel.
pub fn fxaa_pixel(img: &Image, x: usize, y: usize) -> (c: Color)
    requires
        img.wf(),
        x < img.width,
        y < img.height,
    ensures
        c == spec_fxaa(img.width as int, img.height as int, img.pixels@, x as int, y as int),
        spec_flat(img.width as int, img.height as int, img.pixels@, x as int, y as int) ==> c
            == (Color {
            r: img.texel(x as int, y as int).r,
            g: img.texel(x as int, y as int).g,
            b: img.texel(x as int, y as int).b,
            a: 255,
        }),
{
    let ghost gw = img.width as int;
    let ghost gh = img.height as int;
    let ghost gp = img.pixels@;
    let ghost gx = x as int;
    let ghost gy = y as int;
    let xi = x as i64;
    let yi = y as i64;

    let cc = img.texel_at(xi, yi);
    let l_c = luma(cc);
    let l_d = luma(img.texel_at(xi, yi + 1));
    let l_u = luma(img.texel_at(xi, yi - 1));
    let l_l = luma(img.texel_at(xi - 1, yi));
    let l_r = luma(img.texel_at(xi + 1, yi));
    proof {
        reveal(spec_texel_luma);
        assert(l_c == spec_texel_luma(gw, gh, gp, gx, gy));
        assert(l_d == spec_texel_luma(gw, gh, gp, gx, gy + 1));
        assert(l_u == spec_texel_luma(gw, gh, gp, gx, gy - 1));
        assert(l_l == spec_texel_luma(gw, gh, gp, gx - 1, gy));
        assert(l_r == spec_texel_luma(gw, gh, gp, gx + 1, gy));
    }
    let lmax = max_i64(l_c, max_i64(max_i64(l_d, l_u), max_i64(l_l, l_r)));
    let lmin = min_i64(l_c, min_i64(min_i64(l_d, l_u), min_i64(l_l, l_r)));
    let range = lmax - lmin;
    proof {
        reveal(spec_neighborhood_max);
        reveal(spec_neighborhood_min);
        assert(lmax == spec_neighborhood_max(gw, gh, gp, gx, gy));
        assert(lmin == spec_neighborhood_min(gw, gh, gp, gx, gy));
    }
    if 10000 * range < 312 * FP || 8 * range < lmax {
        proof {
            assert(spec_flat(gw, gh, gp, gx, gy)) by {
                reveal(spec_flat);
            }
        }
        return Color { r: cc.r, g: cc.g, b: cc.b, a: 255 };
    }
    proof {
        assert(!spec_flat(gw, gh, gp, gx, gy)) by {
            reveal(spec_flat);
        }
    }
    fxaa_edge_pixel(img, x, y)
}

/// Runs the filter over every pixel of the image, as one presentation
/// pass does: each output pixel is the filter applied to the input
/// image at that position.
pub fn fxaa_image(img: &Image) -> (out: Image)
    requires
        img.wf(),
    ensures
        out.wf(),
        out.width == img.width,
        out.height == img.height,
        forall|i: int, j: int|
            0 <= i < img.width && 0 <= j < img.height ==> out.pixels@[j * img.width + i]
                == spec_fxaa(img.width as int, img.height as int, img.pixels@, i, j),
{
    let ghost gw = img.width as int;
    let ghost gh = img.height as int;
    let ghost gp = img.pixels@;
    let w = img.width;
    let h = img.height;
    let mut px: Vec<Color> = Vec::new();
    let mut y: usize = 0;
    while y < h
        invariant
            img.wf(),
            w == img.width,
            h == img.height,
            gw == img.width as int,
            gh == img.height as int,
            gp == img.pixels@,
            y <= h,
            px@.len() == y * w,
            forall|i: int, j: int|
                0 <= i < w && 0 <= j < y ==> px@[j * w + i] == spec_fxaa(gw, gh, gp, i, j),
        decreases h - y,
    {
        let mut x: usize = 0;
        proof {
            assert(y * w + w <= h * w) by (nonlinear_arith)
                requires
                    y < h,
                    0 < w,
            ;
            assert(h * w <= 0x1000_0000) by (nonlinear_arith)
                requires
                    0 < w <= 16384,
                    0 < h <= 16384,
            ;
        }
        while x < w
            invariant
                img.wf(),
                w == img.width,
                h == img.height,
                gw == img.width as int,
                gh == img.height as int,
                gp == img.pixels@,
                y < h,
                x <= w,
                y * w + w <= 0x1000_0000,
                px@.len() == y * w + x,
                forall|i: int, j: int|
                    0 <= i < w && 0 <= j < y ==> px@[j * w + i] == spec_fxaa(gw, gh, gp, i, j),
                forall|i: int| 0 <= i < x ==> px@[y * w + i] == spec_fxaa(gw, gh, gp, i, y as int),
            decreases w - x,
        {
            let c = fxaa_pixel(img, x, y);
            px.push(c);
            x = x + 1;
            proof {
                assert forall|i: int, j: int|
                    0 <= i < w && 0 <= j < y implies px@[j * w + i] == spec_fxaa(
                    gw, gh, gp, i, j) by {
                    assert(j * w + i < y * w) by (nonlinear_arith)
                        requires
                            0 <= i < w,
                            0 <= j,
                            j + 1 <= y,
                    ;
                }
            }
        }
        proof {
            assert((y + 1) * w == y * w + w) by (nonlinear_arith);
        }
        y = y + 1;
    }
    proof {
        assert(h * w == w * h) by (nonlinear_arith);
    }
    Image { width: w, height: h, pixels: px }
}

/// Flat-region identity: on a pixel whose plus-shaped neighborhood is
/// flat, the filter returns the center color unchanged, with full alpha.
pub proof fn lemma_flat_identity(w: int, h: int, px: Seq<Color>, x: int, y: int)
    requires
        spec_flat(w, h, px, x, y),
    ensures
        spec_fxaa(w, h, px, x, y) == (Color {
            r: spec_texel(w, h, px, x, y).r,
            g: spec_texel(w, h, px, x, y).g,
            b: spec_texel(w, h, px, x, y).b,
            a: 255,
        }),
{
}

/// Determinism: the filter output depends on nothing but the image
/// contents, the dimensions and the position, so two images with equal
/// pixels filter identically everywhere.
pub proof fn lemma_fxaa_deterministic(
    w: int, h: int, px1: Seq<Color>, px2: Seq<Color>, x: int, y: int,
)
    requires
        px1 == px2,
    ensures
        spec_fxaa(w, h, px1, x, y) == spec_fxaa(w, h, px2, x, y),
{
}

} // verus!
