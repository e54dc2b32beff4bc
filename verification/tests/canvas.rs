use tiny_draw::canvas::{calc_offset, offsets_in_range, Canvas, PixelRatio};
use tiny_draw::color::Color;
use tiny_draw::offset::Offset;

#[test]
fn new_stack_is_synchronized() {
    let canvas = Canvas::new(300, 150);
    assert_eq!(canvas.width, 300);
    assert_eq!(canvas.height, 150);
    assert_eq!(canvas.draw_canvas, canvas.option_canvas);
    assert_eq!(canvas.draw_canvas, canvas.cache_canvas);
    assert_eq!(canvas.draw_canvas.backing_width, 300);
    assert_eq!(canvas.draw_canvas.backing_height, 150);
    assert_eq!(canvas.draw_canvas.css_width, 300);
    assert_eq!(canvas.draw_canvas.css_height, 150);
    assert_eq!(
        canvas.background_color,
        Color {
            r: 255,
            g: 255,
            b: 255,
            a: 255
        }
    );
    assert_eq!(canvas.offset, Offset::new(0, 0));
}

#[test]
fn offset_ascent_sums_levels() {
    // Draw surface at (0, 0) inside a container at page position (50, 20),
    // with no further positioning ancestor.
    let levels = vec![Offset::new(0, 0), Offset::new(50, 20)];
    assert!(offsets_in_range(&levels));
    let offset = calc_offset(&levels);
    assert_eq!(offset, Offset::new(50, 20));

    let mut canvas = Canvas::new(300, 150);
    canvas.update_offset(&levels).unwrap();
    assert_eq!(canvas.get_offset(), Offset::new(50, 20));
}

#[test]
fn offset_ascent_handles_deep_and_negative_chains() {
    let levels = vec![
        Offset::new(3, 4),
        Offset::new(-10, 7),
        Offset::new(100, -200),
    ];
    assert!(offsets_in_range(&levels));
    assert_eq!(calc_offset(&levels), Offset::new(93, -189));

    let empty: Vec<Offset> = vec![];
    assert!(offsets_in_range(&empty));
    assert_eq!(calc_offset(&empty), Offset::new(0, 0));
}

#[test]
fn offset_overflow_is_detected() {
    let levels = vec![Offset::new(i32::MAX, 0), Offset::new(1, 0)];
    assert!(!offsets_in_range(&levels));
    let levels = vec![Offset::new(i32::MIN, i32::MIN), Offset::new(0, -1)];
    assert!(!offsets_in_range(&levels));
    // A chain that dips and comes back stays in range.
    let levels = vec![Offset::new(i32::MAX, 0), Offset::new(-1, 0)];
    assert!(offsets_in_range(&levels));
    assert_eq!(calc_offset(&levels), Offset::new(i32::MAX - 1, 0));
}

#[test]
fn get_offset_is_idempotent() {
    let mut canvas = Canvas::new(300, 150);
    let levels = vec![Offset::new(0, 0), Offset::new(50, 20)];
    canvas.update_offset(&levels).unwrap();
    let first = canvas.get_offset();
    let second = canvas.get_offset();
    assert_eq!(first, second);
}

#[test]
fn resize_refreshes_offset() {
    let mut canvas = Canvas::new(300, 150);
    let before_move = vec![Offset::new(0, 0), Offset::new(50, 20)];
    canvas.update_offset(&before_move).unwrap();
    let stale = canvas.get_offset();
    assert_eq!(stale, Offset::new(50, 20));

    // An ancestor moved; the resize notification hands in the new chain.
    let after_move = vec![Offset::new(0, 0), Offset::new(80, 35)];
    canvas.resize_handler(&after_move);
    let fresh = canvas.get_offset();
    assert_eq!(fresh, Offset::new(80, 35));
    assert_ne!(stale, fresh);
}

#[test]
fn retina_scaling_doubles_backing_store() {
    let mut canvas = Canvas::new(300, 150);
    let dpr = PixelRatio::new(2, 1);
    assert!(canvas.is_scalable(dpr));
    canvas.init_retina_scaling(dpr).unwrap();
    for surface in [
        canvas.draw_canvas,
        canvas.option_canvas,
        canvas.cache_canvas,
    ] {
        assert_eq!(surface.backing_width, 600);
        assert_eq!(surface.backing_height, 300);
        assert_eq!(surface.css_width, 300);
        assert_eq!(surface.css_height, 150);
        assert_eq!(surface.scale, dpr);
    }
}

#[test]
fn retina_scaling_rounds_to_nearest() {
    // Ratio 1.5: 301 * 1.5 = 451.5 rounds up to 452; 101 * 1.5 = 151.5 to 152.
    let mut canvas = Canvas::new(301, 101);
    let dpr = PixelRatio::new(3, 2);
    assert!(canvas.is_scalable(dpr));
    canvas.init_retina_scaling(dpr).unwrap();
    assert_eq!(canvas.draw_canvas.backing_width, 452);
    assert_eq!(canvas.draw_canvas.backing_height, 152);
    // Ratio 1.25 on 301: 376.25 rounds down to 376.
    let mut canvas = Canvas::new(301, 101);
    let dpr = PixelRatio::new(5, 4);
    canvas.init_retina_scaling(dpr).unwrap();
    assert_eq!(canvas.draw_canvas.backing_width, 376);
    assert_eq!(canvas.draw_canvas.backing_height, 126);
}

#[test]
fn scaling_overflow_is_detected() {
    let canvas = Canvas::new(u32::MAX, 1);
    assert!(!canvas.is_scalable(PixelRatio::new(2, 1)));
    assert!(canvas.is_scalable(PixelRatio::new(1, 2)));
    let canvas = Canvas::new(300, 150);
    assert!(canvas.is_scalable(PixelRatio::new(1000000, 1)));
}

#[test]
fn scaling_preserves_offset_and_background() {
    let mut canvas = Canvas::new(300, 150);
    let levels = vec![Offset::new(7, 9)];
    canvas.update_offset(&levels).unwrap();
    canvas.init_retina_scaling(PixelRatio::new(2, 1)).unwrap();
    assert_eq!(canvas.get_offset(), Offset::new(7, 9));
    assert_eq!(
        canvas.background_color,
        Color {
            r: 255,
            g: 255,
            b: 255,
            a: 255
        }
    );
    assert_eq!(canvas.width, 300);
    assert_eq!(canvas.height, 150);
}
