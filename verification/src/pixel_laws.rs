//! What the fit of the logical space into a window promises.

use crate::pixel_space::{
    fit_spec, full_window, lemma_fit_inside, lemma_round_div, lemma_round_div_unique,
    letterbox_spec, round_div, scale_den, scale_num, width_limits, PxRect, PxWindow,
};
use vstd::prelude::*;

verus! {

/// A rectangle that covers no pixel.
pub open spec fn is_empty(r: PxRect) -> bool {
    r.w == 0 || r.h == 0
}

/// Each side of a rectangle twice as long, and twice as far from the corner
/// of the window.
pub open spec fn twice(r: PxRect) -> PxRect {
    PxRect { x: 2 * r.x, y: 2 * r.y, w: 2 * r.w, h: 2 * r.h }
}

/// A window with the proportions of the logical space is filled by it: the
/// viewport is the whole window and all four bars are empty, though each is
/// still a rectangle with a place and sides that are not negative.
pub proof fn law_same_proportions_fill_window(logical: PxWindow, physical: PxWindow)
    requires
        logical.width > 0,
        logical.height > 0,
        physical.width * logical.height == physical.height * logical.width,
    ensures
        fit_spec(logical, physical) == full_window(physical),
        ({
            let (top, bottom, left, right) = letterbox_spec(
                physical,
                fit_spec(logical, physical),
            );
            &&& is_empty(top) && is_empty(bottom) && is_empty(left) && is_empty(right)
            &&& top.h == 0 && top.w == physical.width
            &&& bottom.h == 0 && bottom.w == physical.width && bottom.y == physical.height
            &&& left.w == 0 && left.h == physical.height
            &&& right.w == 0 && right.h == physical.height && right.x == physical.width
        }),
{
    let lw = logical.width as int;
    let lh = logical.height as int;
    let pw = physical.width as int;
    let ph = physical.height as int;
    lemma_fit_inside(logical, physical);
    assert(lh * pw == pw * lh && ph * lw == lw * ph) by (nonlinear_arith);
    assert(2 * lw * ph <= 2 * (lh * pw) + lw < 2 * lw * (ph + 1)) by (nonlinear_arith)
        requires
            lw > 0,
            ph >= 0,
            lh * pw == lw * ph,
    ;
    assert(lh * pw >= 0) by (nonlinear_arith)
        requires
            lh > 0,
            pw >= 0,
    ;
    lemma_round_div_unique(lh * pw, lw, ph);
    lemma_round_div_unique(0, 2 * lw, 0);
}

/// A window of the size of the logical space shows it pixel for pixel: the
/// viewport starts at the corner with the logical size, and no bar covers a
/// pixel.
pub proof fn law_logical_sized_window(logical: PxWindow)
    requires
        logical.width > 0,
        logical.height > 0,
    ensures
        fit_spec(logical, logical) == (PxRect {
            x: 0,
            y: 0,
            w: logical.width as int,
            h: logical.height as int,
        }),
        ({
            let (top, bottom, left, right) = letterbox_spec(logical, fit_spec(logical, logical));
            is_empty(top) && is_empty(bottom) && is_empty(left) && is_empty(right)
        }),
{
    assert(logical.width * logical.height == logical.height * logical.width)
        by (nonlinear_arith);
    law_same_proportions_fill_window(logical, logical);
}

/// In a window that is wider than the logical space, by their proportions,
/// the viewport fills the window from top to bottom: the top and the bottom
/// bar are empty, and the left and the right bar are equally wide.
pub proof fn law_wider_window(logical: PxWindow, physical: PxWindow)
    requires
        logical.width > 0,
        logical.height > 0,
        physical.width * logical.height > physical.height * logical.width,
    ensures
        fit_spec(logical, physical).y == 0,
        fit_spec(logical, physical).h == physical.height,
        ({
            let (top, bottom, left, right) = letterbox_spec(
                physical,
                fit_spec(logical, physical),
            );
            &&& is_empty(top) && is_empty(bottom)
            &&& left.w == right.w == fit_spec(logical, physical).x
            &&& left.h == right.h == physical.height
        }),
{
    lemma_fit_inside(logical, physical);
}

/// In a window twice as wide as the logical space, by their proportions, a
/// quarter of the width lies on each side of the viewport: the left and the
/// right bar cover pixels, the top and the bottom bar none. The window must
/// be two pixels wide at least, or a quarter of it rounds to nothing.
pub proof fn law_twice_as_wide_window(logical: PxWindow, physical: PxWindow)
    requires
        logical.width > 0,
        logical.height > 0,
        physical.height > 0,
        physical.width >= 2,
        physical.width * logical.height == 2 * (physical.height * logical.width),
    ensures
        fit_spec(logical, physical).y == 0,
        fit_spec(logical, physical).h == physical.height,
        fit_spec(logical, physical).x == round_div(physical.width as int, 4),
        fit_spec(logical, physical).w == round_div(physical.width as int, 2),
        ({
            let (top, bottom, left, right) = letterbox_spec(
                physical,
                fit_spec(logical, physical),
            );
            &&& is_empty(top) && is_empty(bottom)
            &&& !is_empty(left) && !is_empty(right)
        }),
{
    let lw = logical.width as int;
    let lh = logical.height as int;
    let pw = physical.width as int;
    let ph = physical.height as int;
    assert(ph * lw > 0) by (nonlinear_arith)
        requires
            ph > 0,
            lw > 0,
    ;
    law_wider_window(logical, physical);
    let v = fit_spec(logical, physical);
    let n = pw * lh - lw * ph;
    assert(lw * ph == ph * lw) by (nonlinear_arith);
    assert(2 * n == pw * lh);
    lemma_round_div(pw, 4);
    lemma_round_div(pw, 2);
    let q = round_div(pw, 4);
    let half = round_div(pw, 2);
    assert(2 * (2 * lh) * q <= 2 * n + 2 * lh < 2 * (2 * lh) * (q + 1)) by (nonlinear_arith)
        requires
            lh > 0,
            2 * n == pw * lh,
            2 * 4 * q <= 2 * pw + 4 < 2 * 4 * (q + 1),
    ;
    lemma_round_div_unique(n, 2 * lh, q);
    assert(2 * lh * half <= 2 * (lw * ph) + lh < 2 * lh * (half + 1)) by (nonlinear_arith)
        requires
            lh > 0,
            2 * (lw * ph) == pw * lh,
            2 * 2 * half <= 2 * pw + 2 < 2 * 2 * (half + 1),
    ;
    lemma_round_div_unique(lw * ph, lh, half);
    assert(q >= 1);
}

/// Rounding twice a number gives twice the rounded number, or one more, or
/// one less.
pub proof fn lemma_round_div_twice(n: int, d: int)
    requires
        n >= 0,
        d > 0,
    ensures
        2 * round_div(n, d) - 1 <= round_div(2 * n, d) <= 2 * round_div(n, d) + 1,
{
    let r = round_div(n, d);
    let r2 = round_div(2 * n, d);
    lemma_round_div(n, d);
    lemma_round_div(2 * n, d);
    assert(2 * r - 1 <= r2 <= 2 * r + 1) by (nonlinear_arith)
        requires
            d > 0,
            2 * d * r <= 2 * n + d < 2 * d * (r + 1),
            2 * d * r2 <= 2 * (2 * n) + d < 2 * d * (r2 + 1),
    ;
}

/// Where nothing is rounded off, twice the number gives twice the result.
pub proof fn lemma_round_div_whole(n: int, d: int)
    requires
        n >= 0,
        d > 0,
        n % d == 0,
    ensures
        round_div(2 * n, d) == 2 * round_div(n, d),
{
    let q = n / d;
    vstd::arithmetic::div_mod::lemma_fundamental_div_mod(n, d);
    assert(n == d * q);
    assert(2 * d * q <= 2 * n + d < 2 * d * (q + 1) && 2 * d * (2 * q) <= 2 * (2 * n) + d < 2
        * d * (2 * q + 1)) by (nonlinear_arith)
        requires
            d > 0,
            n == d * q,
    ;
    lemma_round_div_unique(n, d, q);
    lemma_round_div_unique(2 * n, d, 2 * q);
}

/// The window with each side twice as long.
pub open spec fn doubled(physical: PxWindow) -> PxWindow {
    PxWindow { width: (2 * physical.width) as u32, height: (2 * physical.height) as u32 }
}

/// The fit of the logical space into the window needs no rounding: the
/// scaled sides and the margins are whole numbers of pixels.
pub open spec fn fit_is_whole(logical: PxWindow, physical: PxWindow) -> bool {
    let sn = scale_num(logical, physical);
    let sd = scale_den(logical, physical);
    &&& (logical.width * sn) % sd == 0
    &&& (logical.height * sn) % sd == 0
    &&& (physical.width * sd - logical.width * sn) % (2 * sd) == 0
    &&& (physical.height * sd - logical.height * sn) % (2 * sd) == 0
}

proof fn lemma_doubled_scale(logical: PxWindow, physical: PxWindow)
    requires
        logical.width > 0,
        logical.height > 0,
        2 * physical.width <= u32::MAX,
        2 * physical.height <= u32::MAX,
    ensures
        width_limits(logical, doubled(physical)) == width_limits(logical, physical),
        scale_num(logical, doubled(physical)) == 2 * scale_num(logical, physical),
        scale_den(logical, doubled(physical)) == scale_den(logical, physical),
        logical.width * scale_num(logical, physical) >= 0,
        logical.height * scale_num(logical, physical) >= 0,
        physical.width * scale_den(logical, physical) - logical.width * scale_num(
            logical,
            physical,
        ) >= 0,
        physical.height * scale_den(logical, physical) - logical.height * scale_num(
            logical,
            physical,
        ) >= 0,
        scale_den(logical, physical) > 0,
{
    let lw = logical.width as int;
    let lh = logical.height as int;
    let pw = physical.width as int;
    let ph = physical.height as int;
    assert((2 * pw) * lh == 2 * (pw * lh) && (2 * ph) * lw == 2 * (ph * lw)) by (nonlinear_arith);
    assert(lw * pw >= 0 && lh * pw >= 0 && lw * ph >= 0 && lh * ph >= 0 && pw * lw == lw * pw
        && ph * lh == lh * ph && ph * lw == lw * ph && pw * lh == lh * pw) by (nonlinear_arith)
        requires
            lw > 0,
            lh > 0,
            pw >= 0,
            ph >= 0,
    ;
}

/// With a window twice as wide and twice as high, the viewport is twice as
/// large and twice as far from the corner, to the pixel: each of its four
/// numbers is twice what it was, or one more, or one less, as the rounding
/// falls.
pub proof fn law_doubled_window(logical: PxWindow, physical: PxWindow)
    requires
        logical.width > 0,
        logical.height > 0,
        2 * physical.width <= u32::MAX,
        2 * physical.height <= u32::MAX,
    ensures
        ({
            let small = twice(fit_spec(logical, physical));
            let large = fit_spec(logical, doubled(physical));
            &&& small.x - 1 <= large.x <= small.x + 1
            &&& small.y - 1 <= large.y <= small.y + 1
            &&& small.w - 1 <= large.w <= small.w + 1
            &&& small.h - 1 <= large.h <= small.h + 1
        }),
{
    let lw = logical.width as int;
    let lh = logical.height as int;
    let pw = physical.width as int;
    let ph = physical.height as int;
    let sn = scale_num(logical, physical);
    let sd = scale_den(logical, physical);
    lemma_doubled_scale(logical, physical);
    assert(lw * (2 * sn) == 2 * (lw * sn) && lh * (2 * sn) == 2 * (lh * sn) && (2 * pw) * sd
        - lw * (2 * sn) == 2 * (pw * sd - lw * sn) && (2 * ph) * sd - lh * (2 * sn) == 2 * (ph
        * sd - lh * sn)) by (nonlinear_arith);
    lemma_round_div_twice(lw * sn, sd);
    lemma_round_div_twice(lh * sn, sd);
    lemma_round_div_twice(pw * sd - lw * sn, 2 * sd);
    lemma_round_div_twice(ph * sd - lh * sn, 2 * sd);
}

/// Where the fit into the smaller window needs no rounding, the viewport of
/// the window with sides twice as long is exactly twice as large and twice as
/// far from the corner.
pub proof fn law_doubled_window_exact(logical: PxWindow, physical: PxWindow)
    requires
        logical.width > 0,
        logical.height > 0,
        2 * physical.width <= u32::MAX,
        2 * physical.height <= u32::MAX,
        fit_is_whole(logical, physical),
    ensures
        fit_spec(logical, doubled(physical)) == twice(fit_spec(logical, physical)),
{
    let lw = logical.width as int;
    let lh = logical.height as int;
    let pw = physical.width as int;
    let ph = physical.height as int;
    let sn = scale_num(logical, physical);
    let sd = scale_den(logical, physical);
    lemma_doubled_scale(logical, physical);
    assert(lw * (2 * sn) == 2 * (lw * sn) && lh * (2 * sn) == 2 * (lh * sn) && (2 * pw) * sd
        - lw * (2 * sn) == 2 * (pw * sd - lw * sn) && (2 * ph) * sd - lh * (2 * sn) == 2 * (ph
        * sd - lh * sn)) by (nonlinear_arith);
    lemma_round_div_whole(lw * sn, sd);
    lemma_round_div_whole(lh * sn, sd);
    lemma_round_div_whole(pw * sd - lw * sn, 2 * sd);
    lemma_round_div_whole(ph * sd - lh * sn, 2 * sd);
}

} // verus!
