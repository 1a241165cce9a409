//! The pixel spaces of a frame.
//!
//! The game draws in its own *logical* pixels, a space of fixed size. The
//! window has whatever size it has, in *physical* pixels, the pixels of the
//! screen. The logical space is fitted into the window: scaled by one factor
//! in both directions, as large as the window allows, and centred. What the
//! window has left over at two of its sides is covered by bars.
//!
//! All of this is counted in whole physical pixels. The window layer also
//! knows *natural* pixels, which are physical pixels divided by the scale of
//! the display; whoever draws divides by that scale.

use crate::constants::{LOGICAL_HEIGHT, LOGICAL_WIDTH};
use vstd::arithmetic::div_mod::{lemma_div_is_ordered, lemma_fundamental_div_mod};
use vstd::prelude::*;

verus! {

/// The size of a window in pixels of some space.
#[derive(Clone, Copy, Debug, PartialEq, Eq, Structural)]
pub struct PxWindow {
    pub width: u32,
    pub height: u32,
}

/// A rectangle of physical pixels: its top-left corner and its size.
#[derive(Clone, Copy, Debug, PartialEq, Eq, Structural)]
pub struct Viewport {
    pub x: i32,
    pub y: i32,
    pub w: i32,
    pub h: i32,
}

/// A rectangle of whole pixels, as mathematical integers.
pub struct PxRect {
    pub x: int,
    pub y: int,
    pub w: int,
    pub h: int,
}

impl View for Viewport {
    type V = PxRect;

    open spec fn view(&self) -> PxRect {
        PxRect { x: self.x as int, y: self.y as int, w: self.w as int, h: self.h as int }
    }
}

/// The four bars that cover what the viewport leaves of the window, in
/// physical pixels.
#[derive(Clone, Copy, Debug, PartialEq, Eq, Structural)]
pub struct LetterboxDimensions {
    pub top: Viewport,
    pub bottom: Viewport,
    pub left: Viewport,
    pub right: Viewport,
}

/// The physical pixel space of a frame.
#[derive(Clone, Copy, Debug, PartialEq, Eq, Structural)]
pub struct PPData {
    /// Where the logical space lies in the window.
    pub viewport_from_logical: Viewport,
    /// Where the natural space lies in the window: all over it.
    pub viewport_from_natural: Viewport,
    /// The size of the window.
    pub window: PxWindow,
}

/// The pixel spaces of one frame.
#[derive(Clone, Copy, Debug, PartialEq, Eq, Structural)]
pub struct PSet {
    /// The size of the logical space.
    pub logical: PxWindow,
    pub physical: PPData,
    pub letterbox: LetterboxDimensions,
}

/// The largest size that a window can have here: positions and sizes of
/// viewports are signed numbers of 32 bits.
pub open spec fn fits(window: PxWindow) -> bool {
    window.width <= i32::MAX && window.height <= i32::MAX
}

/// The whole number nearest to `n / d`, the upper one of two that are equally
/// near; for `n` not negative and `d` positive.
pub open spec fn round_div(n: int, d: int) -> int {
    (2 * n + d) / (2 * d)
}

/// The logical space is no wider than the window, measured by their heights:
/// scaled to the window's width it is not too high.
pub open spec fn width_limits(logical: PxWindow, physical: PxWindow) -> bool {
    physical.width * logical.height <= physical.height * logical.width
}

/// The numerator of the scale of the fit: the smaller of the two ratios of a
/// physical to a logical side is `scale_num / scale_den`.
pub open spec fn scale_num(logical: PxWindow, physical: PxWindow) -> int {
    if width_limits(logical, physical) {
        physical.width as int
    } else {
        physical.height as int
    }
}

/// The denominator of the scale of the fit.
pub open spec fn scale_den(logical: PxWindow, physical: PxWindow) -> int {
    if width_limits(logical, physical) {
        logical.width as int
    } else {
        logical.height as int
    }
}

/// Where the logical space lies in the window. Its size is the logical size
/// times the scale; what the window has left is halved between the two
/// sides. Only these four results are rounded.
pub open spec fn fit_spec(logical: PxWindow, physical: PxWindow) -> PxRect {
    let sn = scale_num(logical, physical);
    let sd = scale_den(logical, physical);
    PxRect {
        x: round_div(physical.width * sd - logical.width * sn, 2 * sd),
        y: round_div(physical.height * sd - logical.height * sn, 2 * sd),
        w: round_div(logical.width * sn, sd),
        h: round_div(logical.height * sn, sd),
    }
}

/// The whole window as a rectangle.
pub open spec fn full_window(physical: PxWindow) -> PxRect {
    PxRect { x: 0, y: 0, w: physical.width as int, h: physical.height as int }
}

/// The bars around a viewport. The top and the bottom bar are as wide as the
/// window and as high as the viewport is far from the top; the left and the
/// right bar are as high as the window and as wide as the viewport is far
/// from the left. The bottom and the right bar start where the viewport ends.
pub open spec fn letterbox_spec(physical: PxWindow, viewport: PxRect) -> (PxRect, PxRect, PxRect, PxRect) {
    (
        PxRect { x: 0, y: 0, w: physical.width as int, h: viewport.y },
        PxRect { x: 0, y: viewport.y + viewport.h, w: physical.width as int, h: viewport.y },
        PxRect { x: 0, y: 0, w: viewport.x, h: physical.height as int },
        PxRect { x: viewport.x + viewport.w, y: 0, w: viewport.x, h: physical.height as int },
    )
}

impl LetterboxDimensions {
    /// The four bars as mathematical rectangles: top, bottom, left, right.
    pub open spec fn bars(&self) -> (PxRect, PxRect, PxRect, PxRect) {
        (self.top@, self.bottom@, self.left@, self.right@)
    }
}

/// What `round_div` is: the one whole number `r` with
/// `r - 1/2 <= n/d < r + 1/2`.
pub proof fn lemma_round_div(n: int, d: int)
    requires
        n >= 0,
        d > 0,
    ensures
        round_div(n, d) >= 0,
        2 * d * round_div(n, d) <= 2 * n + d < 2 * d * (round_div(n, d) + 1),
{
    let r = round_div(n, d);
    lemma_fundamental_div_mod(2 * n + d, 2 * d);
    assert(0 <= (2 * n + d) % (2 * d) < 2 * d);
    lemma_div_is_ordered(0, 2 * n + d, 2 * d);
    assert(0int / (2 * d) == 0);
    let m = (2 * n + d) % (2 * d);
    assert(2 * n + d == (2 * d) * r + m);
    assert(2 * d * r == (2 * d) * r && 2 * d * (r + 1) == (2 * d) * r + 2 * d)
        by (nonlinear_arith);
}

/// A whole number that lies as `round_div` lies is `round_div`.
pub proof fn lemma_round_div_unique(n: int, d: int, r: int)
    requires
        n >= 0,
        d > 0,
        2 * d * r <= 2 * n + d < 2 * d * (r + 1),
    ensures
        round_div(n, d) == r,
{
    lemma_round_div(n, d);
    let q = round_div(n, d);
    assert(q == r) by (nonlinear_arith)
        requires
            d > 0,
            2 * d * r <= 2 * n + d < 2 * d * (r + 1),
            2 * d * q <= 2 * n + d < 2 * d * (q + 1),
    ;
}

/// The heart of the fit, for one direction. A side of the window holds `t /
/// d` pixels and the scaled logical side `a / d` of them, no more. Then the
/// rounded side and the rounded margin before it lie inside the window.
proof fn lemma_side_inside(d: int, a: int, t: int, side: int)
    requires
        d > 0,
        0 <= a <= t,
        t == side * d,
    ensures
        0 <= round_div(a, d),
        0 <= round_div(t - a, 2 * d),
        round_div(t - a, 2 * d) + round_div(a, d) <= side,
{
    let h = round_div(a, d);
    let y = round_div(t - a, 2 * d);
    lemma_round_div(a, d);
    lemma_round_div(t - a, 2 * d);
    assert(y + h <= side) by (nonlinear_arith)
        requires
            d > 0,
            0 <= a <= t,
            t == side * d,
            h >= 0,
            y >= 0,
            2 * d * h <= 2 * a + d,
            2 * (2 * d) * y <= 2 * (t - a) + 2 * d,
    {
        if y + h >= side + 1 {
            assert(4 * d * (y + h) >= 4 * d * (side + 1));
            assert(4 * d * (side + 1) == 4 * t + 4 * d);
            assert(4 * d * (y + h) == 2 * (2 * d * h) + 2 * (2 * d) * y);
            assert(a == t);
            assert(4 * d * y <= 2 * d);
            assert(y == 0);
            assert(2 * d * h >= 2 * d * (side + 1));
            assert(false);
        }
    }
}

/// A side that the scale is taken from fills the window: scaled, the logical
/// side is the physical one, and no margin is left.
proof fn lemma_side_fills(d: int, side: int)
    requires
        d > 0,
        side >= 0,
    ensures
        round_div(d * side, d) == side,
        round_div(side * d - d * side, 2 * d) == 0,
{
    assert(2 * d * side <= 2 * (d * side) + d < 2 * d * (side + 1)) by (nonlinear_arith)
        requires
            d > 0,
            side >= 0,
    ;
    assert(d * side >= 0) by (nonlinear_arith)
        requires
            d > 0,
            side >= 0,
    ;
    lemma_round_div_unique(d * side, d, side);
    assert(side * d - d * side == 0) by (nonlinear_arith);
    lemma_round_div_unique(0, 2 * d, 0);
}

/// The viewport lies inside the window. In the direction that limits the
/// scale it fills the window; in the other it is centred.
pub proof fn lemma_fit_inside(logical: PxWindow, physical: PxWindow)
    requires
        logical.width > 0,
        logical.height > 0,
    ensures
        ({
            let v = fit_spec(logical, physical);
            &&& 0 <= v.x && 0 <= v.y && 0 <= v.w && 0 <= v.h
            &&& v.x + v.w <= physical.width
            &&& v.y + v.h <= physical.height
            &&& width_limits(logical, physical) ==> v.x == 0 && v.w == physical.width
            &&& !width_limits(logical, physical) ==> v.y == 0 && v.h == physical.height
        }),
{
    let lw = logical.width as int;
    let lh = logical.height as int;
    let pw = physical.width as int;
    let ph = physical.height as int;
    assert(lh * pw >= 0 && lw * ph >= 0) by (nonlinear_arith)
        requires
            lw > 0,
            lh > 0,
            pw >= 0,
            ph >= 0,
    ;
    if width_limits(logical, physical) {
        lemma_side_fills(lw, pw);
        assert(pw * lw == lw * pw && pw * lh == lh * pw && ph * lw == lw * ph)
            by (nonlinear_arith);
        lemma_side_inside(lw, lh * pw, ph * lw, ph);
    } else {
        lemma_side_fills(lh, ph);
        assert(ph * lh == lh * ph && pw * lh == lh * pw && ph * lw == lw * ph)
            by (nonlinear_arith);
        lemma_side_inside(lh, lw * ph, pw * lh, pw);
    }
}

/// `round_div` for numbers of the machine.
fn rounded_quotient(n: u64, d: u64) -> (r: u64)
    requires
        d > 0,
        2 * n + d <= u64::MAX,
        2 * d <= u64::MAX,
    ensures
        r == round_div(n as int, d as int),
{
    (2 * n + d) / (2 * d)
}

impl PSet {
    /// Fits the logical space into the window: scaled by the smaller of the
    /// two ratios of a physical to a logical side, and centred. The four
    /// numbers are rounded to whole pixels at the end. The viewport lies
    /// inside the window.
    pub fn calc_viewport_from_logical(l_window: &PxWindow, p_window: &PxWindow) -> (v: Viewport)
        requires
            l_window.width > 0,
            l_window.height > 0,
            fits(*l_window),
            fits(*p_window),
        ensures
            v@ == fit_spec(*l_window, *p_window),
            0 <= v.x && 0 <= v.y && 0 <= v.w && 0 <= v.h,
            v.x + v.w <= p_window.width,
            v.y + v.h <= p_window.height,
    {
        let lw = l_window.width as u64;
        let lh = l_window.height as u64;
        let pw = p_window.width as u64;
        let ph = p_window.height as u64;
        proof {
            lemma_fit_inside(*l_window, *p_window);
            assert(pw * lh <= 0x4000_0000_0000_0000 && ph * lw <= 0x4000_0000_0000_0000 && lh
                * pw == pw * lh && lw * ph == ph * lw) by (nonlinear_arith)
                requires
                    lw <= 0x7fff_ffff,
                    lh <= 0x7fff_ffff,
                    pw <= 0x7fff_ffff,
                    ph <= 0x7fff_ffff,
            ;
        }
        if pw * lh <= ph * lw {
            let h = rounded_quotient(lh * pw, lw);
            let y = rounded_quotient(ph * lw - lh * pw, 2 * lw);
            Viewport { x: 0, y: y as i32, w: pw as i32, h: h as i32 }
        } else {
            let w = rounded_quotient(lw * ph, lh);
            let x = rounded_quotient(pw * lh - lw * ph, 2 * lh);
            Viewport { x: x as i32, y: 0, w: w as i32, h: ph as i32 }
        }
    }

    /// The whole window as a viewport.
    pub fn calc_viewport_from_natural(p_window: &PxWindow) -> (v: Viewport)
        requires
            fits(*p_window),
        ensures
            v@ == full_window(*p_window),
    {
        Viewport { x: 0, y: 0, w: p_window.width as i32, h: p_window.height as i32 }
    }

    /// The bars around a viewport that lies inside the window.
    pub fn calculate_letterbox_dimensions(p_window: &PxWindow, viewport: &Viewport) -> (bars:
        LetterboxDimensions)
        requires
            fits(*p_window),
            viewport.x + viewport.w <= i32::MAX,
            viewport.y + viewport.h <= i32::MAX,
            viewport.x + viewport.w >= i32::MIN,
            viewport.y + viewport.h >= i32::MIN,
        ensures
            bars.bars() == letterbox_spec(*p_window, viewport@),
    {
        let width = p_window.width as i32;
        let height = p_window.height as i32;
        LetterboxDimensions {
            top: Viewport { x: 0, y: 0, w: width, h: viewport.y },
            bottom: Viewport { x: 0, y: viewport.y + viewport.h, w: width, h: viewport.y },
            left: Viewport { x: 0, y: 0, w: viewport.x, h: height },
            right: Viewport { x: viewport.x + viewport.w, y: 0, w: viewport.x, h: height },
        }
    }

    /// What a frame's pixel spaces are: the logical space fitted into the
    /// window, the natural space all over it, and the bars around the fitted
    /// viewport.
    pub open spec fn resolve_spec(logical: PxWindow, physical: PxWindow, set: PSet) -> bool {
        &&& set.logical == logical
        &&& set.physical.window == physical
        &&& set.physical.viewport_from_logical@ == fit_spec(logical, physical)
        &&& set.physical.viewport_from_natural@ == full_window(physical)
        &&& set.letterbox.bars() == letterbox_spec(physical, fit_spec(logical, physical))
    }

    /// The pixel spaces of a frame, for a logical space and a window of any
    /// size.
    pub fn resolve(l_window: PxWindow, p_window: PxWindow) -> (set: PSet)
        requires
            l_window.width > 0,
            l_window.height > 0,
            fits(l_window),
            fits(p_window),
        ensures
            PSet::resolve_spec(l_window, p_window, set),
    {
        let viewport_from_logical = PSet::calc_viewport_from_logical(&l_window, &p_window);
        let viewport_from_natural = PSet::calc_viewport_from_natural(&p_window);
        let letterbox = PSet::calculate_letterbox_dimensions(&p_window, &viewport_from_logical);
        PSet {
            logical: l_window,
            physical: PPData { viewport_from_logical, viewport_from_natural, window: p_window },
            letterbox,
        }
    }

    /// The pixel spaces of a frame of the game, whose logical space has the
    /// fixed size `LOGICAL_WIDTH` by `LOGICAL_HEIGHT`.
    pub fn current(p_window: PxWindow) -> (set: PSet)
        requires
            fits(p_window),
        ensures
            PSet::resolve_spec(
                PxWindow { width: LOGICAL_WIDTH, height: LOGICAL_HEIGHT },
                p_window,
                set,
            ),
    {
        PSet::resolve(PxWindow { width: LOGICAL_WIDTH, height: LOGICAL_HEIGHT }, p_window)
    }
}

} // verus!
