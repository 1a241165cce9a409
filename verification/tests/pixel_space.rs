use game::constants::{LOGICAL_HEIGHT, LOGICAL_WIDTH};
use game::pixel_space::{LetterboxDimensions, PSet, PxWindow, Viewport};

fn logical() -> PxWindow {
    PxWindow { width: LOGICAL_WIDTH, height: LOGICAL_HEIGHT }
}

fn area(v: &Viewport) -> i64 {
    v.w as i64 * v.h as i64
}

/// The fit as floating point computes it: the scale is the smaller of the two
/// ratios, and only the four results are rounded.
fn float_fit(l: &PxWindow, p: &PxWindow) -> Viewport {
    let (logical_w, logical_h) = (l.width as f32, l.height as f32);
    let (screen_w, screen_h) = (p.width as f32, p.height as f32);
    let scale = (screen_w / logical_w).min(screen_h / logical_h);
    Viewport {
        x: ((screen_w - logical_w * scale) / 2.0).round() as i32,
        y: ((screen_h - logical_h * scale) / 2.0).round() as i32,
        w: (logical_w * scale).round() as i32,
        h: (logical_h * scale).round() as i32,
    }
}

/// The four numbers of the fit before they are rounded, each as a numerator
/// and a denominator: x, y, w, h.
fn unrounded(l: &PxWindow, p: &PxWindow) -> [(u64, u64); 4] {
    let (lw, lh) = (l.width as u64, l.height as u64);
    let (pw, ph) = (p.width as u64, p.height as u64);
    let (sn, sd) = if pw * lh <= ph * lw { (pw, lw) } else { (ph, lh) };
    [(pw * sd - lw * sn, 2 * sd), (ph * sd - lh * sn, 2 * sd), (lw * sn, sd), (lh * sn, sd)]
}

/// True when `n / d` lies halfway between two whole numbers.
fn is_tie(n: u64, d: u64) -> bool {
    (2 * n) % d == 0 && (2 * n / d) % 2 == 1
}

#[test]
fn logical_constants() {
    assert_eq!(LOGICAL_WIDTH, 1280);
    assert_eq!(LOGICAL_HEIGHT, 720);
}

#[test]
fn window_of_logical_size_is_filled() {
    let set = PSet::current(logical());
    assert_eq!(set.logical, logical());
    assert_eq!(set.physical.window, logical());
    assert_eq!(set.physical.viewport_from_logical, Viewport { x: 0, y: 0, w: 1280, h: 720 });
    assert_eq!(set.physical.viewport_from_natural, Viewport { x: 0, y: 0, w: 1280, h: 720 });
    let LetterboxDimensions { top, bottom, left, right } = set.letterbox;
    assert_eq!(top, Viewport { x: 0, y: 0, w: 1280, h: 0 });
    assert_eq!(bottom, Viewport { x: 0, y: 720, w: 1280, h: 0 });
    assert_eq!(left, Viewport { x: 0, y: 0, w: 0, h: 720 });
    assert_eq!(right, Viewport { x: 1280, y: 0, w: 0, h: 720 });
    assert_eq!(area(&top) + area(&bottom) + area(&left) + area(&right), 0);
}

#[test]
fn window_twice_as_wide_has_bars_left_and_right() {
    let p = PxWindow { width: 2560, height: 720 };
    let set = PSet::current(p);
    assert_eq!(set.physical.viewport_from_logical, Viewport { x: 640, y: 0, w: 1280, h: 720 });
    assert_eq!(set.physical.viewport_from_natural, Viewport { x: 0, y: 0, w: 2560, h: 720 });
    let LetterboxDimensions { top, bottom, left, right } = set.letterbox;
    assert_eq!(area(&top), 0);
    assert_eq!(area(&bottom), 0);
    assert_eq!(left, Viewport { x: 0, y: 0, w: 640, h: 720 });
    assert_eq!(right, Viewport { x: 1920, y: 0, w: 640, h: 720 });
}

#[test]
fn window_twice_as_high_has_bars_above_and_below() {
    let p = PxWindow { width: 1280, height: 1440 };
    let set = PSet::current(p);
    assert_eq!(set.physical.viewport_from_logical, Viewport { x: 0, y: 360, w: 1280, h: 720 });
    let LetterboxDimensions { top, bottom, left, right } = set.letterbox;
    assert_eq!(top, Viewport { x: 0, y: 0, w: 1280, h: 360 });
    assert_eq!(bottom, Viewport { x: 0, y: 1080, w: 1280, h: 360 });
    assert_eq!(area(&left), 0);
    assert_eq!(area(&right), 0);
}

#[test]
fn square_window_rounds_at_the_end() {
    let p = PxWindow { width: 1000, height: 1000 };
    let v = PSet::calc_viewport_from_logical(&logical(), &p);
    // 720 * 1000 / 1280 = 562.5 and (1000 - 562.5) / 2 = 218.75
    assert_eq!(v, Viewport { x: 0, y: 219, w: 1000, h: 563 });
}

#[test]
fn doubled_window_doubles_the_viewport() {
    let p = PxWindow { width: 1920, height: 1200 };
    let d = PxWindow { width: 3840, height: 2400 };
    let v = PSet::calc_viewport_from_logical(&logical(), &p);
    let w = PSet::calc_viewport_from_logical(&logical(), &d);
    assert_eq!(v, Viewport { x: 0, y: 60, w: 1920, h: 1080 });
    assert_eq!(w, Viewport { x: 0, y: 120, w: 3840, h: 2160 });
    assert_eq!(PSet::current(p).logical, PSet::current(d).logical);
}

#[test]
fn doubled_window_is_within_a_pixel_where_rounding_falls() {
    let p = PxWindow { width: 1, height: 1 };
    let d = PxWindow { width: 2, height: 2 };
    let v = PSet::calc_viewport_from_logical(&logical(), &p);
    let w = PSet::calc_viewport_from_logical(&logical(), &d);
    assert_eq!(v, Viewport { x: 0, y: 0, w: 1, h: 1 });
    assert_eq!(w, Viewport { x: 0, y: 0, w: 2, h: 1 });
    for pw in 0..200u32 {
        for ph in 0..200u32 {
            let v = PSet::calc_viewport_from_logical(&logical(), &PxWindow { width: pw, height: ph });
            let w = PSet::calc_viewport_from_logical(
                &logical(),
                &PxWindow { width: 2 * pw, height: 2 * ph },
            );
            assert!((w.x - 2 * v.x).abs() <= 1);
            assert!((w.y - 2 * v.y).abs() <= 1);
            assert!((w.w - 2 * v.w).abs() <= 1);
            assert!((w.h - 2 * v.h).abs() <= 1);
        }
    }
}

#[test]
fn viewport_lies_inside_the_window() {
    for pw in (0..3000u32).step_by(7) {
        for ph in (0..3000u32).step_by(11) {
            let p = PxWindow { width: pw, height: ph };
            let v = PSet::calc_viewport_from_logical(&logical(), &p);
            assert!(v.x >= 0 && v.y >= 0 && v.w >= 0 && v.h >= 0);
            assert!(v.x + v.w <= pw as i32);
            assert!(v.y + v.h <= ph as i32);
            assert!(v.x == 0 || v.y == 0);
        }
    }
}

#[test]
fn empty_window_has_an_empty_viewport() {
    let v = PSet::calc_viewport_from_logical(&logical(), &PxWindow { width: 0, height: 0 });
    assert_eq!(v, Viewport { x: 0, y: 0, w: 0, h: 0 });
    let v = PSet::calc_viewport_from_logical(&logical(), &PxWindow { width: 0, height: 500 });
    assert_eq!(v, Viewport { x: 0, y: 250, w: 0, h: 0 });
}

#[test]
fn largest_window() {
    let max = i32::MAX as u32;
    let v = PSet::calc_viewport_from_logical(&logical(), &PxWindow { width: max, height: max });
    assert_eq!(v.x, 0);
    assert_eq!(v.w, i32::MAX);
    assert_eq!(v.y + v.h <= i32::MAX, true);
    let set = PSet::resolve(PxWindow { width: max, height: max }, PxWindow { width: max, height: max });
    assert_eq!(set.physical.viewport_from_logical, Viewport { x: 0, y: 0, w: i32::MAX, h: i32::MAX });
}

#[test]
fn other_logical_space() {
    let l = PxWindow { width: 4, height: 3 };
    let p = PxWindow { width: 10, height: 10 };
    let set = PSet::resolve(l, p);
    // scale 2.5: 10 by 7.5, rounded to 8; (10 - 7.5) / 2 = 1.25, rounded to 1
    assert_eq!(set.physical.viewport_from_logical, Viewport { x: 0, y: 1, w: 10, h: 8 });
    assert_eq!(set.letterbox.top, Viewport { x: 0, y: 0, w: 10, h: 1 });
    assert_eq!(set.letterbox.bottom, Viewport { x: 0, y: 9, w: 10, h: 1 });
}

#[test]
fn letterbox_follows_the_viewport() {
    let p = PxWindow { width: 800, height: 600 };
    let v = Viewport { x: 10, y: 20, w: 300, h: 400 };
    let b = PSet::calculate_letterbox_dimensions(&p, &v);
    assert_eq!(b.top, Viewport { x: 0, y: 0, w: 800, h: 20 });
    assert_eq!(b.bottom, Viewport { x: 0, y: 420, w: 800, h: 20 });
    assert_eq!(b.left, Viewport { x: 0, y: 0, w: 10, h: 600 });
    assert_eq!(b.right, Viewport { x: 310, y: 0, w: 10, h: 600 });
}

#[test]
fn rounding_is_to_the_nearest_whole_pixel() {
    for pw in 0..=700u32 {
        for ph in 0..=400u32 {
            let p = PxWindow { width: pw, height: ph };
            let v = PSet::calc_viewport_from_logical(&logical(), &p);
            let fields = [v.x, v.y, v.w, v.h];
            for (k, (n, d)) in unrounded(&logical(), &p).into_iter().enumerate() {
                let r = fields[k] as u64;
                // r - 1/2 <= n / d < r + 1/2
                assert!(2 * d * r <= 2 * n + d && 2 * n + d < 2 * d * (r + 1));
            }
        }
    }
}

#[test]
fn whole_pixels_differ_from_floating_point_only_at_ties() {
    let mut ties = 0;
    for pw in 1..=2600u32 {
        for ph in [1u32, 2, 3, 99, 360, 480, 600, 719, 720, 721, 768, 900, 1000, 1080, 1440, 2160] {
            let p = PxWindow { width: pw, height: ph };
            let exact = PSet::calc_viewport_from_logical(&logical(), &p);
            let float = float_fit(&logical(), &p);
            let e = [exact.x, exact.y, exact.w, exact.h];
            let f = [float.x, float.y, float.w, float.h];
            for (k, (n, d)) in unrounded(&logical(), &p).into_iter().enumerate() {
                if e[k] != f[k] {
                    // Floating point falls just short of the half and rounds
                    // down, where the half itself rounds up.
                    assert!(is_tie(n, d), "{:?} field {}: {} and {}", p, k, e[k], f[k]);
                    assert_eq!(e[k], f[k] + 1);
                    ties += 1;
                }
            }
        }
    }
    assert!(ties > 0);
}
