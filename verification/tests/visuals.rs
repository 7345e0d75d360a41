//! Geometry and colour behaviour: checked point arithmetic, space mapping,
//! rectangle accessors, colour packing and the gradient blend.

use wavexp::geom::{interp, paint_spectrum, Point, Rect, Rgba};

#[test]
fn point_checked_ops() {
    let a = Point { x: 3, y: -4 };
    let b = Point { x: 10, y: 20 };
    assert_eq!(a.checked_add(b), Some(Point { x: 13, y: 16 }));
    assert_eq!(a.checked_sub(b), Some(Point { x: -7, y: -24 }));
    assert_eq!(a.checked_neg(), Some(Point { x: -3, y: 4 }));
    assert_eq!(Point { x: i32::MAX, y: 0 }.checked_add(Point { x: 1, y: 0 }), None);
    assert_eq!(Point { x: i32::MIN, y: 0 }.checked_neg(), None);
    assert_eq!(Point { x: 0, y: 0 }.nonzero(), None);
    assert_eq!(a.nonzero(), Some(a));
}

#[test]
fn point_normalise_scales() {
    let old_space = Rect(Point { x: 0, y: 0 }, Point { x: 10, y: 10 });
    let new_space = Rect(Point { x: 0, y: 0 }, Point { x: 100, y: 100 });
    let p = Point { x: 5, y: 7 }.normalise(old_space, new_space);
    assert_eq!(p, Point { x: 50, y: 70 });
    let shifted = Rect(Point { x: 100, y: 200 }, Point { x: 120, y: 240 });
    let p = Point { x: 5, y: 5 }.normalise(old_space, shifted);
    assert_eq!(p, Point { x: 110, y: 220 });
}

#[test]
fn rect_accessors() {
    let rect = Rect(Point { x: 2, y: 3 }, Point { x: 12, y: 23 });
    assert_eq!(rect.left(), 2);
    assert_eq!(rect.bottom(), 23);
    assert_eq!(rect.width(), 10);
    assert_eq!(rect.height(), 20);
}

#[test]
fn rgba_packing() {
    let c = Rgba::from_u32(0x11223344);
    assert_eq!(c, Rgba { r: 0x11, g: 0x22, b: 0x33, a: 0x44 });
    assert_eq!(c.to_u32(), 0x11223344);
}

#[test]
fn spectrum_scrolls_and_paints() {
    let grey = |v: u8| Rgba { r: v, g: v, b: v, a: 255 };
    let gradient: Vec<Rgba> = (0..=255u8).map(grey).collect();
    let mut out: Vec<Rgba> = (0..6u8).map(grey).collect();
    let in_data: Vec<u8> = vec![200, 100];
    paint_spectrum(&mut out, &in_data, &gradient, 3, 2);
    // the buffer scrolled two pixels, and each row's first pixel took the
    // gradient entry of its analyser byte
    assert_eq!(
        out,
        [grey(200), grey(1), grey(0), grey(100), grey(2), grey(3)]
    );
}

#[test]
fn interp_blends_gradient() {
    let bg = Rgba { r: 0x18, g: 0x18, b: 0x18, a: 0xFF };
    let fg = Rgba { r: 0x00, g: 0x69, b: 0xE1, a: 0xFF };
    let colours = vec![bg, fg];
    assert_eq!(interp(&colours, 0), bg);
    assert_eq!(interp(&colours, 255), fg);
    let mid = interp(&colours, 128);
    assert_eq!(mid, Rgba { r: 11, g: 64, b: 124, a: 255 });
}
