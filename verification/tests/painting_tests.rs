use unfair_painting::brush::{generate_brush, Brush, BrushRect};
use unfair_painting::canvas::Canvas;
use unfair_painting::painting::{
    canvas_from_world, paint, paint_frame, render_thumbnail, world_from_cursor, PaintArming,
    THUMB_DIM,
};

fn pixel(c: &Canvas, x: usize, y: usize) -> [u8; 4] {
    let b = (y * c.width + x) * 4;
    [c.data[b], c.data[b + 1], c.data[b + 2], c.data[b + 3]]
}

fn one_rect_brush(w: u32, h: u32, dx: i32, dy: i32) -> Brush {
    Brush {
        rects: vec![BrushRect {
            width: w,
            height: h,
            offset_x: dx,
            offset_y: dy,
        }],
    }
}

#[test]
fn new_fill_sets_every_pixel() {
    let c = Canvas::new_fill(4, 3, 1, 2, 3, 4);
    assert_eq!(c.width, 4);
    assert_eq!(c.height, 3);
    assert_eq!(c.data.len(), 4 * 3 * 4);
    for p in 0..12 {
        assert_eq!(&c.data[4 * p..4 * p + 4], &[1, 2, 3, 4]);
    }
}

#[test]
fn color_pixel_paints_opaque_red() {
    let mut c = Canvas::new_fill(8, 8, 255, 255, 255, 0);
    c.color_pixel(3, 5);
    assert_eq!(pixel(&c, 3, 5), [255, 0, 0, 255]);
    assert_eq!(pixel(&c, 5, 3), [255, 255, 255, 0]);
}

#[test]
fn color_pixel_off_canvas_is_dropped() {
    let mut c = Canvas::new_fill(8, 8, 255, 255, 255, 0);
    let before = c.data.clone();
    c.color_pixel(-1, 0);
    c.color_pixel(0, -1);
    c.color_pixel(8, 0);
    c.color_pixel(0, 8);
    assert_eq!(c.data, before);
}

#[test]
fn paint_twice_at_same_position_equals_once() {
    // Painting is idempotent: no additive blending.
    let brush = one_rect_brush(20, 30, 5, -3);
    let mut once = Canvas::new_fill(60, 60, 255, 255, 255, 0);
    paint(&mut once, 30, 30, &brush);
    let mut twice = Canvas::new_fill(60, 60, 255, 255, 255, 0);
    paint(&mut twice, 30, 30, &brush);
    paint(&mut twice, 30, 30, &brush);
    assert_eq!(once.data, twice.data);
}

#[test]
fn paint_clips_at_the_canvas_edge() {
    // A stamp straddling the corner colours only the on-canvas part.
    let brush = one_rect_brush(20, 20, 0, 0);
    let mut c = Canvas::new_fill(30, 30, 255, 255, 255, 0);
    paint(&mut c, 0, 0, &brush);
    // The rectangle is centred on the anchor (0, 0): rows and columns 0..10.
    assert_eq!(pixel(&c, 0, 0), [255, 0, 0, 255]);
    assert_eq!(pixel(&c, 9, 9), [255, 0, 0, 255]);
    assert_eq!(pixel(&c, 10, 0), [255, 255, 255, 0]);
    assert_eq!(pixel(&c, 0, 10), [255, 255, 255, 0]);
    assert_eq!(c.data.len(), 30 * 30 * 4);
}

#[test]
fn paint_fully_off_canvas_changes_nothing() {
    let brush = one_rect_brush(100, 100, 0, 0);
    let mut c = Canvas::new_fill(30, 30, 255, 255, 255, 0);
    let before = c.data.clone();
    paint(&mut c, -1000, -1000, &brush);
    paint(&mut c, 1000, 1000, &brush);
    assert_eq!(c.data, before);
}

#[test]
fn arming_requires_one_release_first() {
    let brush = one_rect_brush(20, 20, 0, 0);
    let mut c = Canvas::new_fill(30, 30, 255, 255, 255, 0);
    let before = c.data.clone();
    let mut arming = PaintArming::new(true);
    // A press held from the menu paints nothing while unarmed.
    paint_frame(&mut c, &mut arming, &brush, 15, 15, true, false);
    assert!(!arming.armed);
    assert_eq!(c.data, before);
    // The first release arms painting and still paints nothing.
    paint_frame(&mut c, &mut arming, &brush, 15, 15, false, true);
    assert!(arming.armed);
    assert_eq!(c.data, before);
    // Now a press paints.
    paint_frame(&mut c, &mut arming, &brush, 15, 15, true, false);
    assert_eq!(pixel(&c, 15, 15), [255, 0, 0, 255]);
}

#[test]
fn arming_policy_off_paints_at_once() {
    let brush = one_rect_brush(20, 20, 0, 0);
    let mut c = Canvas::new_fill(30, 30, 255, 255, 255, 0);
    let mut arming = PaintArming::new(false);
    assert!(arming.armed);
    paint_frame(&mut c, &mut arming, &brush, 15, 15, true, false);
    assert_eq!(pixel(&c, 15, 15), [255, 0, 0, 255]);
}

#[test]
fn generated_brush_respects_the_documented_ranges() {
    for _ in 0..20 {
        let b = generate_brush();
        assert_eq!(b.rects.len(), 3);
        for r in &b.rects {
            assert!((20..=100).contains(&r.width));
            assert!((20..=100).contains(&r.height));
            assert!((-75..=75).contains(&r.offset_x));
            assert!((-75..=75).contains(&r.offset_y));
        }
    }
}

#[test]
fn thumbnail_replays_the_brush_at_the_centre() {
    let brush = one_rect_brush(20, 20, 0, 0);
    let c = render_thumbnail(&brush);
    assert_eq!(c.width, THUMB_DIM);
    assert_eq!(c.height, THUMB_DIM);
    // The rectangle is centred on the thumbnail's centre.
    assert_eq!(pixel(&c, 125, 125), [255, 0, 0, 255]);
    // A corner stays opaque white.
    assert_eq!(pixel(&c, 0, 0), [255, 255, 255, 255]);
}

#[test]
fn world_to_canvas_flips_the_y_axis() {
    assert_eq!(canvas_from_world(0, 0, 600, 600), (300, 300));
    assert_eq!(canvas_from_world(-300, 300, 600, 600), (0, 0));
    assert_eq!(canvas_from_world(10, -20, 600, 600), (310, 320));
}

#[test]
fn cursor_to_world_centres_the_window() {
    assert_eq!(world_from_cursor(300, 350, 600, 700), (0, 0));
    assert_eq!(world_from_cursor(0, 0, 600, 700), (-300, -350));
}
