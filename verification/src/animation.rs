//! The compositor: a fixed-resolution logical drawing surface, the
//! render-mode state machine, aspect-preserving letterbox layout, and the
//! mapping from physical display coordinates back to logical coordinates.
//!
//! The GPU side (allocating the surface, switching render targets,
//! clearing, blitting) is performed by the caller that owns the window;
//! this type holds the state those calls are driven by and computes every
//! number they need, exactly.

use vstd::prelude::*;

use crate::color::Color;
use crate::rat::Rat;

verus! {

/// Largest accepted pixel dimension for the logical surface and the
/// window; keeps every product in the layout and mapping formulas far
/// inside `i128`.
pub const MAX_DIM: u32 = 16384;

/// Whether drawing operations currently land in the logical surface
/// (`CameraRendering`) or on the physical display (`ScreenRendering`).
#[derive(Clone, Copy, Debug, PartialEq, Eq, Structural)]
pub enum RenderState {
    CameraRendering,
    ScreenRendering,
}

/// Where and how large the logical surface is drawn on the display:
/// destination offset `(x, y)` and destination size `(w, h)`, all in
/// display pixels, as exact rationals.
#[derive(Clone, Copy, Debug)]
pub struct FrameLayout {
    pub x: Rat,
    pub y: Rat,
    pub w: Rat,
    pub h: Rat,
}

/// The compositor: owns the logical surface's dimensions, the background
/// color cleared at the start of each capture, the render-mode state, the
/// draw size of the most recent presentation, and whether the edge
/// anti-aliasing post-process is enabled.
pub struct Animation {
    /// Logical surface width in texels; fixed at construction.
    pub width: u32,
    /// Logical surface height in texels; fixed at construction.
    pub height: u32,
    /// Color cleared onto the logical surface when capture begins.
    pub bg_color: Color,
    /// Current draw target of the state machine.
    pub render_state: RenderState,
    /// Display-pixel width the surface was last scaled to by `draw_frame`.
    pub draw_size_w: Rat,
    /// Display-pixel height the surface was last scaled to by `draw_frame`.
    pub draw_size_h: Rat,
    /// Whether presentation routes through the edge anti-aliasing effect.
    pub fxaa_enabled: bool,
}

/// Numerator of the x coordinate of the display-to-logical mapping: the
/// point `pn/pd` is first normalized to `[-1, 1]` over the window width
/// `sw`, then widened by the letterbox leftover of the last draw width
/// `dwn/dwd`, then scaled to half the logical width `lw`. The mapped x is
/// this numerator over `map_x_den`.
pub open spec fn map_x_num(pn: int, pd: int, sw: int, dwn: int, dwd: int, lw: int) -> int {
    (2 * pn - sw * pd) * (2 * (sw * dwd) - dwn) * lw
}

/// Denominator of the x coordinate of the display-to-logical mapping.
pub open spec fn map_x_den(pd: int, sw: int, dwd: int) -> int {
    ((2 * (sw * sw)) * pd) * dwd
}

/// Numerator of the y coordinate of the display-to-logical mapping; as
/// `map_x_num` over the window height `sh`, the last draw height
/// `dhn/dhd` and the logical height `lh`, with the sign flipped so that
/// +y points up in logical space while it points down in display space.
pub open spec fn map_y_num(pn: int, pd: int, sh: int, dhn: int, dhd: int, lh: int) -> int {
    (sh * pd - 2 * pn) * (2 * (sh * dhd) - dhn) * lh
}

/// Denominator of the y coordinate of the display-to-logical mapping.
pub open spec fn map_y_den(pd: int, sh: int, dhd: int) -> int {
    ((2 * (sh * sh)) * pd) * dhd
}

impl Animation {
    /// Well-formedness: dimensions are positive and bounded, and the
    /// stored draw size is a nonnegative, bounded rational.
    pub open spec fn wf(self) -> bool {
        &&& 0 < self.width <= MAX_DIM
        &&& 0 < self.height <= MAX_DIM
        &&& self.draw_size_w.wf()
        &&& self.draw_size_h.wf()
        &&& 0 <= self.draw_size_w.num <= 0x1_0000_0000
        &&& self.draw_size_w.den <= MAX_DIM
        &&& 0 <= self.draw_size_h.num <= 0x1_0000_0000
        &&& self.draw_size_h.den <= MAX_DIM
    }

    /// Presentation is legal only while drawing targets the display.
    pub open spec fn can_present(self) -> bool {
        self.render_state == RenderState::ScreenRendering
    }

    /// Creates a compositor for a logical surface of `width` by `height`
    /// texels. The background defaults to the documented dark neutral
    /// gray with transparent alpha; the initial mode targets the display,
    /// and the initial draw size is the logical size itself.
    pub fn new(width: u32, height: u32, bg_color: Option<Color>) -> (a: Animation)
        requires
            0 < width <= MAX_DIM,
            0 < height <= MAX_DIM,
        ensures
            a.wf(),
            a.width == width,
            a.height == height,
            a.render_state == RenderState::ScreenRendering,
            a.can_present(),
            !a.fxaa_enabled,
            a.draw_size_w.num == width && a.draw_size_w.den == 1,
            a.draw_size_h.num == height && a.draw_size_h.den == 1,
            bg_color matches Some(c) ==> a.bg_color == c,
            bg_color is None ==> a.bg_color == Color::spec_default_background(),
    {
        let bg = match bg_color {
            Some(c) => c,
            None => Color::default_background(),
        };
        Animation {
            width,
            height,
            bg_color: bg,
            render_state: RenderState::ScreenRendering,
            draw_size_w: Rat::from_int(width as i128),
            draw_size_h: Rat::from_int(height as i128),
            fxaa_enabled: false,
        }
    }

    /// Begins a capture: all subsequent drawing is to land in the logical
    /// surface, which the caller clears with `bg_color` as it redirects
    /// its draw target. Only the mode changes here.
    pub fn set_camera(&mut self)
        ensures
            *final(self) == (Animation {
                render_state: RenderState::CameraRendering,
                ..*old(self)
            }),
            !final(self).can_present(),
    {
        self.render_state = RenderState::CameraRendering;
    }

    /// Ends a capture: drawing targets the physical display again.
    /// Idempotent; only the mode changes.
    pub fn set_default_camera(&mut self)
        ensures
            *final(self) == (Animation {
                render_state: RenderState::ScreenRendering,
                ..*old(self)
            }),
            final(self).can_present(),
    {
        self.render_state = RenderState::ScreenRendering;
    }

    /// Enables the edge anti-aliasing post-process for every following
    /// presentation; calling it again keeps it enabled. The caller builds
    /// the actual shader program when it sees this flag set.
    pub fn enable_fxaa(&mut self)
        ensures
            *final(self) == (Animation { fxaa_enabled: true, ..*old(self) }),
    {
        self.fxaa_enabled = true;
    }

    /// Returns whether the compositor is in the display-rendering mode,
    /// i.e. whether `draw_frame` may be called now.
    pub fn is_screen_active(&self) -> (r: bool)
        ensures
            r == self.can_present(),
    {
        matches!(self.render_state, RenderState::ScreenRendering)
    }

    /// Computes the letterbox layout for a window of `screen_w` by
    /// `screen_h` pixels and records its size as the new draw size: the
    /// logical surface is scaled by the uniform factor
    /// `min(screen_w / width, screen_h / height)` and centered, so one
    /// axis fills the window exactly with zero offset and the leftover
    /// space on the other axis is split evenly. The caller then blits the
    /// surface at exactly this layout.
    ///
    /// May be called only in the display-rendering mode; a capture must
    /// have been ended first.
    pub fn draw_frame(&mut self, screen_w: u32, screen_h: u32) -> (layout: FrameLayout)
        requires
            old(self).wf(),
            old(self).can_present(),
            0 < screen_w <= MAX_DIM,
            0 < screen_h <= MAX_DIM,
        ensures
            final(self).wf(),
            final(self).can_present(),
            *final(self) == (Animation {
                draw_size_w: layout.w,
                draw_size_h: layout.h,
                ..*old(self)
            }),
            layout.x.wf() && layout.y.wf() && layout.w.wf() && layout.h.wf(),
            // Width is the constraining axis: it fills the window
            // exactly, the height is scaled by the same factor
            // screen_w / width, the x offset is zero and the y offset is
            // half the leftover, strictly positive.
            screen_w * old(self).height < screen_h * old(self).width ==> {
                &&& layout.w.is_int(screen_w as int)
                &&& layout.h.eq_frac(
                    screen_w * old(self).height,
                    old(self).width as int,
                )
                &&& layout.x.is_int(0)
                &&& layout.y.eq_frac(
                    screen_h * old(self).width - screen_w * old(self).height,
                    2 * old(self).width,
                )
                &&& layout.y.num > 0
            },
            // Height is the constraining axis (or the aspect ratios
            // match): symmetric to the first case; when the ratios match
            // both offsets are zero.
            screen_w * old(self).height >= screen_h * old(self).width ==> {
                &&& layout.h.is_int(screen_h as int)
                &&& layout.w.eq_frac(
                    screen_h * old(self).width,
                    old(self).height as int,
                )
                &&& layout.y.is_int(0)
                &&& layout.x.eq_frac(
                    screen_w * old(self).height - screen_h * old(self).width,
                    2 * old(self).height,
                )
                &&& layout.x.num >= 0
                &&& (screen_w * old(self).height > screen_h * old(self).width
                    ==> layout.x.num > 0)
            },
            // The scaled surface fits inside the window on both axes.
            layout.w.num <= screen_w * layout.w.den,
            layout.h.num <= screen_h * layout.h.den,
    {
        let tw: i128 = self.width as i128;
        let th: i128 = self.height as i128;
        let sw: i128 = screen_w as i128;
        let sh: i128 = screen_h as i128;
        proof {
            assert(0 < sw * th <= 0x1000_0000 && 0 < sh * tw <= 0x1000_0000)
                by (nonlinear_arith)
                requires
                    0 < sw <= 0x4000,
                    0 < th <= 0x4000,
                    0 < sh <= 0x4000,
                    0 < tw <= 0x4000,
            ;
        }
        let layout: FrameLayout = if sw * th < sh * tw {
            // Width-constrained: scale = screen_w / width.
            let w = Rat::from_int(sw);
            let h = Rat::new(sw * th, tw);
            let x = Rat::from_int(0);
            let y = Rat::new(sh * tw - sw * th, 2 * tw);
            proof {
                let ow = old(self).width as int;
                let oh = old(self).height as int;
                let swi = screen_w as int;
                let shi = screen_h as int;
                assert(h.num * ow == (swi * oh) * h.den) by (nonlinear_arith)
                    requires
                        h.num == swi * oh,
                        h.den == ow,
                ;
                assert(y.num * (2 * ow) == (shi * ow - swi * oh) * y.den) by (nonlinear_arith)
                    requires
                        y.num == shi * ow - swi * oh,
                        y.den == 2 * ow,
                ;
            }
            FrameLayout { x, y, w, h }
        } else {
            // Height-constrained: scale = screen_h / height.
            let h = Rat::from_int(sh);
            let w = Rat::new(sh * tw, th);
            let y = Rat::from_int(0);
            let x = Rat::new(sw * th - sh * tw, 2 * th);
            proof {
                let ow = old(self).width as int;
                let oh = old(self).height as int;
                let swi = screen_w as int;
                let shi = screen_h as int;
                assert(w.num * oh == (shi * ow) * w.den) by (nonlinear_arith)
                    requires
                        w.num == shi * ow,
                        w.den == oh,
                ;
                assert(x.num * (2 * oh) == (swi * oh - shi * ow) * x.den) by (nonlinear_arith)
                    requires
                        x.num == swi * oh - shi * ow,
                        x.den == 2 * oh,
                ;
            }
            FrameLayout { x, y, w, h }
        };
        self.draw_size_w = layout.w;
        self.draw_size_h = layout.h;
        layout
    }

    /// Maps a point given in physical display pixels (origin at the top
    /// left, +y down), as exact rationals, into the logical coordinate
    /// system of the surface (origin at the center, +y up), correcting
    /// for the letterbox margins of the most recent `draw_frame`. The
    /// result is exactly `map_x_num / map_x_den` and
    /// `map_y_num / map_y_den` over the point, the window size, the
    /// stored draw size and the logical size.
    ///
    /// The magnitude bounds on the point only keep the products inside
    /// `i128`; any on-display position fits them with room to spare.
    pub fn screen_to_world(
        &self,
        point_x: Rat,
        point_y: Rat,
        screen_w: u32,
        screen_h: u32,
    ) -> (p: (Rat, Rat))
        requires
            self.wf(),
            point_x.wf() && point_y.wf(),
            -0x1_0000_0000_0000 <= point_x.num <= 0x1_0000_0000_0000,
            point_x.den <= 0x1_0000_0000,
            -0x1_0000_0000_0000 <= point_y.num <= 0x1_0000_0000_0000,
            point_y.den <= 0x1_0000_0000,
            0 < screen_w <= MAX_DIM,
            0 < screen_h <= MAX_DIM,
        ensures
            p.0.wf() && p.1.wf(),
            p.0.num == map_x_num(
                point_x.num as int,
                point_x.den as int,
                screen_w as int,
                self.draw_size_w.num as int,
                self.draw_size_w.den as int,
                self.width as int,
            ),
            p.0.den == map_x_den(point_x.den as int, screen_w as int, self.draw_size_w.den as int),
            p.1.num == map_y_num(
                point_y.num as int,
                point_y.den as int,
                screen_h as int,
                self.draw_size_h.num as int,
                self.draw_size_h.den as int,
                self.height as int,
            ),
            p.1.den == map_y_den(point_y.den as int, screen_h as int, self.draw_size_h.den as int),
    {
        let sw: i128 = screen_w as i128;
        let sh: i128 = screen_h as i128;
        let lw: i128 = self.width as i128;
        let lh: i128 = self.height as i128;
        let pxn: i128 = point_x.num;
        let pxd: i128 = point_x.den;
        let pyn: i128 = point_y.num;
        let pyd: i128 = point_y.den;
        let dwn: i128 = self.draw_size_w.num;
        let dwd: i128 = self.draw_size_w.den;
        let dhn: i128 = self.draw_size_h.num;
        let dhd: i128 = self.draw_size_h.den;
        proof {
            assert({
                &&& -0x4000_0000_0000 <= sw * pxd <= 0x4000_0000_0000
                &&& -0x4000_0000_0000 <= sh * pyd <= 0x4000_0000_0000
                &&& 0 < sw * dwd <= 0x1000_0000
                &&& 0 < sh * dhd <= 0x1000_0000
                &&& 0 < sw * sw <= 0x1000_0000
                &&& 0 < sh * sh <= 0x1000_0000
            }) by (nonlinear_arith)
                requires
                    0 < sw <= 0x4000,
                    0 < sh <= 0x4000,
                    0 < pxd <= 0x1_0000_0000,
                    0 < pyd <= 0x1_0000_0000,
                    0 < dwd <= 0x4000,
                    0 < dhd <= 0x4000,
            ;
        }
        let jx: i128 = 2 * pxn - sw * pxd;
        let kx: i128 = 2 * (sw * dwd) - dwn;
        let jy: i128 = sh * pyd - 2 * pyn;
        let ky: i128 = 2 * (sh * dhd) - dhn;
        proof {
            assert({
                &&& -0x10_0000_0000_0000_0000_0000 <= jx * kx <= 0x10_0000_0000_0000_0000_0000
                &&& -0x10_0000_0000_0000_0000_0000 <= jy * ky <= 0x10_0000_0000_0000_0000_0000
            }) by (nonlinear_arith)
                requires
                    -0x4_0000_0000_0000 <= jx <= 0x4_0000_0000_0000,
                    -0x4_0000_0000_0000 <= jy <= 0x4_0000_0000_0000,
                    -0x2_0000_0000 <= kx <= 0x2_0000_0000,
                    -0x2_0000_0000 <= ky <= 0x2_0000_0000,
            ;
            assert({
                &&& -0x4_0000_0000_0000_0000_0000_0000 <= (jx * kx) * lw
                    <= 0x4_0000_0000_0000_0000_0000_0000
                &&& -0x4_0000_0000_0000_0000_0000_0000 <= (jy * ky) * lh
                    <= 0x4_0000_0000_0000_0000_0000_0000
            }) by (nonlinear_arith)
                requires
                    -0x10_0000_0000_0000_0000_0000 <= jx * kx <= 0x10_0000_0000_0000_0000_0000,
                    -0x10_0000_0000_0000_0000_0000 <= jy * ky <= 0x10_0000_0000_0000_0000_0000,
                    0 < lw <= 0x4000,
                    0 < lh <= 0x4000,
            ;
            assert({
                &&& 0 < (2 * (sw * sw)) * pxd <= 0x2000_0000_0000_0000
                &&& 0 < (2 * (sh * sh)) * pyd <= 0x2000_0000_0000_0000
            }) by (nonlinear_arith)
                requires
                    0 < sw * sw <= 0x1000_0000,
                    0 < sh * sh <= 0x1000_0000,
                    0 < pxd <= 0x1_0000_0000,
                    0 < pyd <= 0x1_0000_0000,
            ;
            assert({
                &&& 0 < ((2 * (sw * sw)) * pxd) * dwd <= 0x800_0000_0000_0000_0000
                &&& 0 < ((2 * (sh * sh)) * pyd) * dhd <= 0x800_0000_0000_0000_0000
            }) by (nonlinear_arith)
                requires
                    0 < (2 * (sw * sw)) * pxd <= 0x2000_0000_0000_0000,
                    0 < (2 * (sh * sh)) * pyd <= 0x2000_0000_0000_0000,
                    0 < dwd <= 0x4000,
                    0 < dhd <= 0x4000,
            ;
        }
        let x_num: i128 = (jx * kx) * lw;
        let x_den: i128 = ((2 * (sw * sw)) * pxd) * dwd;
        let y_num: i128 = (jy * ky) * lh;
        let y_den: i128 = ((2 * (sh * sh)) * pyd) * dhd;
        (Rat::new(x_num, x_den), Rat::new(y_num, y_den))
    }
}

/// Coordinate round trip at the window center: when the window exactly
/// matches the logical surface and the last draw size filled the window
/// (no letterboxing), the physical center maps to the logical origin on
/// both axes.
pub proof fn lemma_round_trip_center(
    pxn: int, pxd: int, pyn: int, pyd: int,
    sw: int, sh: int,
    dwn: int, dwd: int, dhn: int, dhd: int,
    lw: int, lh: int,
)
    requires
        pxd > 0 && pyd > 0 && dwd > 0 && dhd > 0 && sw > 0 && sh > 0,
        sw == lw && sh == lh,
        dwn == lw * dwd,
        dhn == lh * dhd,
        2 * pxn == sw * pxd,
        2 * pyn == sh * pyd,
    ensures
        map_x_num(pxn, pxd, sw, dwn, dwd, lw) == 0,
        map_y_num(pyn, pyd, sh, dhn, dhd, lh) == 0,
{
    assert((2 * pxn - sw * pxd) * (2 * (sw * dwd) - dwn) * lw == 0) by (nonlinear_arith)
        requires
            2 * pxn == sw * pxd,
    ;
    assert((sh * pyd - 2 * pyn) * (2 * (sh * dhd) - dhn) * lh == 0) by (nonlinear_arith)
        requires
            2 * pyn == sh * pyd,
    ;
}

/// Coordinate round trip at the window corner: under the same
/// no-letterboxing conditions, the physical top-left corner `(0, 0)` maps
/// to `(-logical_width / 2, +logical_height / 2)`.
pub proof fn lemma_round_trip_corner(
    pxd: int, pyd: int,
    sw: int, sh: int,
    dwn: int, dwd: int, dhn: int, dhd: int,
    lw: int, lh: int,
)
    requires
        pxd > 0 && pyd > 0 && dwd > 0 && dhd > 0 && sw > 0 && sh > 0,
        sw == lw && sh == lh,
        dwn == lw * dwd,
        dhn == lh * dhd,
    ensures
        2 * map_x_num(0, pxd, sw, dwn, dwd, lw) == -lw * map_x_den(pxd, sw, dwd),
        2 * map_y_num(0, pyd, sh, dhn, dhd, lh) == lh * map_y_den(pyd, sh, dhd),
{
    assert(2 * ((2 * 0 - sw * pxd) * (2 * (sw * dwd) - dwn) * lw) == -lw * (((2 * (sw * sw))
        * pxd) * dwd)) by (nonlinear_arith)
        requires
            sw == lw,
            dwn == lw * dwd,
    ;
    assert(2 * ((sh * pyd - 2 * 0) * (2 * (sh * dhd) - dhn) * lh) == lh * (((2 * (sh * sh))
        * pyd) * dhd)) by (nonlinear_arith)
        requires
            sh == lh,
            dhn == lh * dhd,
    ;
}

/// Mode invariant: a compositor that has just begun a capture (as
/// `set_camera` leaves it) refuses presentation, and one whose capture
/// was then ended (as `set_default_camera` leaves it) accepts it.
pub proof fn lemma_mode_invariant(before: Animation, captured: Animation, released: Animation)
    requires
        captured == (Animation { render_state: RenderState::CameraRendering, ..before }),
        released == (Animation { render_state: RenderState::ScreenRendering, ..captured }),
    ensures
        !captured.can_present(),
        released.can_present(),
{
}

} // verus!
