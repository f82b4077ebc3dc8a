use mqanim::animation::Animation;
use mqanim::color::Color;
use mqanim::rat::Rat;

fn rat_is(r: &Rat, num: i128, den: i128) -> bool {
    // Exact rational equality by cross-multiplication.
    r.num * den == num * r.den
}

#[test]
fn default_background_color() {
    let a = Animation::new(640, 360, None);
    assert_eq!(a.bg_color, Color::new(43, 44, 47, 0));
    // The documented value (43/255, 44/255, 47/255, 0) within 1e-6.
    let r = a.bg_color.r as f32 / 255.0;
    let g = a.bg_color.g as f32 / 255.0;
    let b = a.bg_color.b as f32 / 255.0;
    let al = a.bg_color.a as f32 / 255.0;
    assert!((r - 43.0 / 255.0).abs() < 1e-6);
    assert!((g - 44.0 / 255.0).abs() < 1e-6);
    assert!((b - 47.0 / 255.0).abs() < 1e-6);
    assert!(al.abs() < 1e-6);
}

#[test]
fn explicit_background_color_kept() {
    let a = Animation::new(640, 360, Some(Color::new(1, 2, 3, 4)));
    assert_eq!(a.bg_color, Color::new(1, 2, 3, 4));
}

#[test]
fn initial_state() {
    let a = Animation::new(640, 360, None);
    assert!(a.is_screen_active());
    assert!(rat_is(&a.draw_size_w, 640, 1));
    assert!(rat_is(&a.draw_size_h, 360, 1));
}

#[test]
fn mode_transitions() {
    let mut a = Animation::new(640, 360, None);
    assert!(a.is_screen_active());
    a.set_camera();
    // Presenting now would be a caller bug; the mode refuses it.
    assert!(!a.is_screen_active());
    a.set_default_camera();
    assert!(a.is_screen_active());
    // end_capture is idempotent with respect to the mode.
    a.set_default_camera();
    assert!(a.is_screen_active());
}

#[test]
fn layout_exact_fit() {
    let mut a = Animation::new(640, 360, None);
    let l = a.draw_frame(640, 360);
    assert!(rat_is(&l.w, 640, 1));
    assert!(rat_is(&l.h, 360, 1));
    assert!(rat_is(&l.x, 0, 1));
    assert!(rat_is(&l.y, 0, 1));
}

#[test]
fn layout_width_constrained() {
    // Window 1280x1000 for a 640x360 surface: scale = 2, draw 1280x720,
    // centered vertically with 140 pixels above and below.
    let mut a = Animation::new(640, 360, None);
    let l = a.draw_frame(1280, 1000);
    assert!(rat_is(&l.w, 1280, 1));
    assert!(rat_is(&l.h, 720, 1));
    assert!(rat_is(&l.x, 0, 1));
    assert!(rat_is(&l.y, 140, 1));
    // The draw size is recorded for coordinate mapping.
    assert!(rat_is(&a.draw_size_w, 1280, 1));
    assert!(rat_is(&a.draw_size_h, 720, 1));
}

#[test]
fn layout_height_constrained() {
    // A tall 360x640 surface in a 1000x1280 window:
    // scale = min(1000/360, 1280/640) = 2, so the height fills the
    // window and the width is centered with 140 pixels on each side.
    let mut a = Animation::new(360, 640, None);
    let l = a.draw_frame(1000, 1280);
    assert!(rat_is(&l.h, 1280, 1));
    assert!(rat_is(&l.w, 720, 1));
    assert!(rat_is(&l.y, 0, 1));
    assert!(rat_is(&l.x, 140, 1));
}

#[test]
fn layout_fractional_offset() {
    // Window 641x360: scale = min(641/640, 1) = 1; draw 640x360; the
    // leftover pixel splits into two halves.
    let mut a = Animation::new(640, 360, None);
    let l = a.draw_frame(641, 360);
    assert!(rat_is(&l.h, 360, 1));
    assert!(rat_is(&l.w, 640, 1));
    assert!(rat_is(&l.y, 0, 1));
    assert!(rat_is(&l.x, 1, 2));
}

#[test]
fn round_trip_center_and_corner() {
    // Window exactly the logical size: the physical center maps to the
    // logical origin, the top-left corner to (-w/2, +h/2).
    let mut a = Animation::new(640, 360, None);
    a.draw_frame(640, 360);
    let (cx, cy) = a.screen_to_world(Rat::from_int(320), Rat::from_int(180), 640, 360);
    assert_eq!(cx.num, 0);
    assert_eq!(cy.num, 0);
    let (ox, oy) = a.screen_to_world(Rat::from_int(0), Rat::from_int(0), 640, 360);
    assert!(rat_is(&ox, -320, 1));
    assert!(rat_is(&oy, 180, 1));
}

#[test]
fn mapping_corrects_for_letterbox() {
    // 640x360 surface in a 1280x1000 window: draw size 1280x720. The
    // window center still maps to the origin, and the corner picks up
    // the letterbox correction on y: 0.5 * (1 + 280/1000) * 360 = 230.4.
    let mut a = Animation::new(640, 360, None);
    a.draw_frame(1280, 1000);
    let (cx, cy) = a.screen_to_world(Rat::from_int(640), Rat::from_int(500), 1280, 1000);
    assert_eq!(cx.num, 0);
    assert_eq!(cy.num, 0);
    let (ox, oy) = a.screen_to_world(Rat::from_int(0), Rat::from_int(0), 1280, 1000);
    assert!(rat_is(&ox, -320, 1));
    assert!(rat_is(&oy, 1152, 5));
}

#[test]
fn fractional_point_maps_exactly() {
    // A point given with a denominator (as a pointer position converted
    // from a binary fraction would be) maps exactly.
    let mut a = Animation::new(640, 360, None);
    a.draw_frame(640, 360);
    // (320.5, 180) -> x = 0.5 * (1/640) * 2 * 640 / 2 = 0.5.
    let (px, _) = a.screen_to_world(Rat::new(641, 2), Rat::from_int(180), 640, 360);
    assert!(rat_is(&px, 1, 2));
}
