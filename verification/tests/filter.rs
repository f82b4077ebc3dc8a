use mqanim::color::Color;
use mqanim::fxaa::{bilerp, fxaa_pixel, isqrt, luma, Image, FP};

fn uniform_image(w: usize, h: usize, c: Color) -> Image {
    let mut px = Vec::new();
    for _ in 0..w * h {
        px.push(c);
    }
    Image::new(w, h, px)
}

fn half_and_half(w: usize, h: usize, left: Color, right: Color) -> Image {
    let mut px = Vec::new();
    for _ in 0..h {
        for x in 0..w {
            px.push(if x < w / 2 { left } else { right });
        }
    }
    Image::new(w, h, px)
}

#[test]
fn isqrt_exact_values() {
    assert_eq!(isqrt(0), 0);
    assert_eq!(isqrt(1), 1);
    assert_eq!(isqrt(2), 1);
    assert_eq!(isqrt(3), 1);
    assert_eq!(isqrt(4), 2);
    assert_eq!(isqrt(15), 3);
    assert_eq!(isqrt(16), 4);
    assert_eq!(isqrt(16777216), 4096);
    assert_eq!(isqrt(0xFFFF_FFFF), 65535);
}

#[test]
fn luma_extremes() {
    // Black has zero luma, white the full fixed-point unit.
    assert_eq!(luma(Color::new(0, 0, 0, 255)), 0);
    assert_eq!(luma(Color::new(255, 255, 255, 255)), FP);
    // Pure red: sqrt(0.299) ~ 0.5468; in fixed point
    // isqrt(76245 * 4096^2 / 255000) = isqrt(5016716) = 2239.
    assert_eq!(luma(Color::new(255, 0, 0, 0)), 2239);
}

#[test]
fn luma_ignores_alpha() {
    assert_eq!(
        luma(Color::new(10, 20, 30, 0)),
        luma(Color::new(10, 20, 30, 255))
    );
}

#[test]
fn bilerp_on_texel_center_is_exact() {
    let img = half_and_half(4, 4, Color::new(10, 20, 30, 255), Color::new(200, 100, 50, 255));
    // Integer fixed-point coordinates land exactly on texel centers.
    let c = bilerp(&img, 1 * FP, 2 * FP);
    assert_eq!(c, Color::new(10, 20, 30, 255));
    let c = bilerp(&img, 3 * FP, 0);
    assert_eq!(c, Color::new(200, 100, 50, 255));
}

#[test]
fn bilerp_midpoint_blends_evenly() {
    // Halfway between a black and a white texel: exactly mid-gray,
    // rounded to nearest.
    let img = half_and_half(2, 1, Color::new(0, 0, 0, 255), Color::new(255, 255, 255, 255));
    let c = bilerp(&img, FP / 2, 0);
    assert_eq!(c, Color::new(128, 128, 128, 255));
}

#[test]
fn bilerp_clamps_at_borders() {
    let img = uniform_image(3, 3, Color::new(70, 80, 90, 255));
    let c = bilerp(&img, -5 * FP, 10 * FP);
    assert_eq!(c, Color::new(70, 80, 90, 255));
}

#[test]
fn flat_region_is_identity() {
    // A uniform neighborhood is below the contrast threshold: the filter
    // returns the center color unchanged, with full opacity.
    let img = uniform_image(8, 8, Color::new(100, 150, 200, 17));
    for y in 0..8 {
        for x in 0..8 {
            assert_eq!(fxaa_pixel(&img, x, y), Color::new(100, 150, 200, 255));
        }
    }
}

#[test]
fn nearly_flat_region_is_identity() {
    // A tiny luma variation stays below max(0.0312, max * 0.125).
    let mut px = Vec::new();
    for i in 0..64 {
        let v = if i % 2 == 0 { 200 } else { 201 };
        px.push(Color::new(v, v, v, 255));
    }
    let img = Image::new(8, 8, px);
    let c = fxaa_pixel(&img, 4, 4);
    assert_eq!(c, Color::new(200, 200, 200, 255));
}

#[test]
fn filter_is_deterministic() {
    // Bit-identical output across repeated invocations on the same
    // input, including on edge pixels where the search runs.
    let img = half_and_half(16, 16, Color::new(0, 0, 0, 255), Color::new(255, 255, 255, 255));
    let mut first = Vec::new();
    for y in 0..16 {
        for x in 0..16 {
            first.push(fxaa_pixel(&img, x, y));
        }
    }
    for y in 0..16 {
        for x in 0..16 {
            assert_eq!(fxaa_pixel(&img, x, y), first[y * 16 + x]);
        }
    }
}

#[test]
fn edge_pixel_is_blended() {
    // On a hard vertical edge the filter blends toward the other side:
    // the pixel just left of the boundary must not come back unchanged.
    let img = half_and_half(16, 16, Color::new(0, 0, 0, 255), Color::new(255, 255, 255, 255));
    let c = fxaa_pixel(&img, 7, 8);
    assert_ne!(c, Color::new(0, 0, 0, 255));
}

#[test]
fn output_alpha_is_opaque() {
    let img = half_and_half(8, 8, Color::new(0, 0, 0, 0), Color::new(255, 255, 255, 0));
    for y in 0..8 {
        for x in 0..8 {
            assert_eq!(fxaa_pixel(&img, x, y).a, 255);
        }
    }
}

#[test]
fn whole_image_pass_matches_per_pixel() {
    let img = half_and_half(12, 10, Color::new(20, 40, 60, 255), Color::new(250, 240, 230, 255));
    let out = mqanim::fxaa::fxaa_image(&img);
    assert_eq!(out.width, 12);
    assert_eq!(out.height, 10);
    for y in 0..10 {
        for x in 0..12 {
            assert_eq!(out.pixels[y * 12 + x], fxaa_pixel(&img, x, y));
        }
    }
}

#[test]
fn whole_image_pass_is_deterministic() {
    let img = half_and_half(9, 9, Color::new(0, 0, 0, 255), Color::new(255, 255, 255, 255));
    let a = mqanim::fxaa::fxaa_image(&img);
    let b = mqanim::fxaa::fxaa_image(&img);
    assert_eq!(a.pixels, b.pixels);
}
