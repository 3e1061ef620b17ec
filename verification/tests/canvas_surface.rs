use canvas::canvas::{Canvas, DEFAULT_SIZE, DEFAULT_ZOOM, MAX_ZOOM, MIN_ZOOM};
use canvas::geometry::{
    divide_toward_zero, isqrt, to_i32_clamped, to_pixel, Point, Rectangle, UNIT,
};
use canvas::Color;

fn pixel(canvas: &Canvas, x: usize, y: usize) -> [u8; 4] {
    let i = (y * canvas.width() + x) * 4;
    let p = canvas.pixels();
    [p[i], p[i + 1], p[i + 2], p[i + 3]]
}

const BACKGROUND: [u8; 4] = [97, 152, 219, 255];

#[test]
fn new_canvas_is_filled_with_background() {
    let canvas = Canvas::new(7, 5);
    assert_eq!(canvas.width(), 7);
    assert_eq!(canvas.height(), 5);
    assert_eq!(canvas.pixels().len(), 7 * 5 * 4);
    for y in 0..5 {
        for x in 0..7 {
            assert_eq!(pixel(&canvas, x, y), BACKGROUND);
        }
    }
    assert_eq!(canvas.zoom(), DEFAULT_ZOOM);
    assert_eq!(canvas.zoom(), UNIT);
    assert_eq!(canvas.rotation(), 0);
    assert_eq!(canvas.offset(), Point::new(0, 0));
    assert_eq!(canvas.bounds(), None);
}

#[test]
fn empty_canvas_has_no_bytes() {
    let canvas = Canvas::new(0, 9);
    assert_eq!(canvas.pixels().len(), 0);
    let canvas = Canvas::new(9, 0);
    assert_eq!(canvas.pixels().len(), 0);
}

#[test]
fn default_canvas_is_five_hundred_square() {
    let canvas = Canvas::default();
    assert_eq!(DEFAULT_SIZE, 500);
    assert_eq!(canvas.width(), 500);
    assert_eq!(canvas.height(), 500);
    assert_eq!(canvas.pixels().len(), 1_000_000);
    assert_eq!(pixel(&canvas, 0, 0), BACKGROUND);
    assert_eq!(pixel(&canvas, 499, 499), BACKGROUND);
}

#[test]
fn draw_pixel_overwrites_exactly_one_pixel() {
    let mut canvas = Canvas::new(4, 3);
    let before = canvas.pixels().clone();
    canvas.draw_pixel(2, 1, Color::new(1, 2, 3, 4));
    assert_eq!(pixel(&canvas, 2, 1), [1, 2, 3, 4]);
    let i = (1 * 4 + 2) * 4;
    for k in 0..before.len() {
        if k < i || k >= i + 4 {
            assert_eq!(canvas.pixels()[k], before[k]);
        }
    }
    assert_eq!(&canvas.pixels()[i..i + 4], &[1, 2, 3, 4]);
}

#[test]
fn draw_pixel_outside_leaves_the_buffer_alone() {
    let mut canvas = Canvas::new(4, 3);
    let before = canvas.pixels().clone();
    canvas.draw_pixel(4, 0, Color::new(0, 0, 0, 255));
    canvas.draw_pixel(0, 3, Color::new(0, 0, 0, 255));
    canvas.draw_pixel(4, 3, Color::new(0, 0, 0, 255));
    canvas.draw_pixel(usize::MAX, usize::MAX, Color::new(0, 0, 0, 255));
    canvas.draw_pixel(usize::MAX, 1, Color::new(0, 0, 0, 255));
    assert_eq!(canvas.pixels(), &before);
}

#[test]
fn draw_pixel_last_pixel_of_last_row() {
    let mut canvas = Canvas::new(4, 3);
    canvas.draw_pixel(3, 2, Color::new(9, 8, 7, 6));
    let n = canvas.pixels().len();
    assert_eq!(&canvas.pixels()[n - 4..], &[9, 8, 7, 6]);
}

#[test]
fn set_zoom_stays_in_range() {
    let mut canvas = Canvas::new(2, 2);
    assert_eq!(MIN_ZOOM, 300);
    assert_eq!(MAX_ZOOM, 5000);
    canvas.set_zoom(2500);
    assert_eq!(canvas.zoom(), 2500);
    canvas.set_zoom(-4000);
    assert_eq!(canvas.zoom(), 300);
    canvas.set_zoom(i32::MIN);
    assert_eq!(canvas.zoom(), 300);
    canvas.set_zoom(0);
    assert_eq!(canvas.zoom(), 300);
    canvas.set_zoom(299);
    assert_eq!(canvas.zoom(), 300);
    canvas.set_zoom(300);
    assert_eq!(canvas.zoom(), 300);
    canvas.set_zoom(5000);
    assert_eq!(canvas.zoom(), 5000);
    canvas.set_zoom(5001);
    assert_eq!(canvas.zoom(), 5000);
    canvas.set_zoom(i32::MAX);
    assert_eq!(canvas.zoom(), 5000);
}

#[test]
fn set_zoom_touches_nothing_else() {
    let mut canvas = Canvas::new(3, 3);
    canvas.set_offset(5, -6);
    canvas.apply_rotation(17);
    let before = canvas.pixels().clone();
    canvas.set_zoom(777);
    assert_eq!(canvas.pixels(), &before);
    assert_eq!(canvas.offset(), Point::new(5, -6));
    assert_eq!(canvas.rotation(), 17);
    assert_eq!(canvas.width(), 3);
    assert_eq!(canvas.height(), 3);
}

#[test]
fn offsets_add_up_and_saturate() {
    let mut canvas = Canvas::new(2, 2);
    canvas.apply_offset(1500, -250);
    canvas.apply_offset(500, -250);
    assert_eq!(canvas.offset(), Point::new(2000, -500));
    canvas.set_offset(-7, 9);
    assert_eq!(canvas.offset(), Point::new(-7, 9));
    canvas.set_offset(i32::MAX - 1, i32::MIN + 1);
    canvas.apply_offset(5, -5);
    assert_eq!(canvas.offset(), Point::new(i32::MAX, i32::MIN));
}

#[test]
fn rotation_adds_up_and_saturates() {
    let mut canvas = Canvas::new(2, 2);
    canvas.apply_rotation(1571);
    canvas.apply_rotation(-571);
    assert_eq!(canvas.rotation(), 1000);
    canvas.apply_rotation(i32::MAX);
    assert_eq!(canvas.rotation(), i32::MAX);
}

#[test]
fn rectangle_containment_is_half_open() {
    let r = Rectangle { x: 10, y: 20, width: 30, height: 40 };
    assert!(r.contains(Point::new(10, 20)));
    assert!(r.contains(Point::new(39, 59)));
    assert!(!r.contains(Point::new(40, 20)));
    assert!(!r.contains(Point::new(10, 60)));
    assert!(!r.contains(Point::new(9, 20)));
    assert!(!r.contains(Point::new(10, 19)));
}

#[test]
fn rectangle_at_the_end_of_the_range() {
    let r = Rectangle { x: i32::MAX - 1, y: 0, width: i32::MAX, height: 1 };
    assert!(r.contains(Point::new(i32::MAX, 0)));
    let empty = Rectangle { x: 0, y: 0, width: 0, height: 0 };
    assert!(!empty.contains(Point::new(0, 0)));
    let negative = Rectangle { x: 0, y: 0, width: -5, height: 5 };
    assert!(!negative.contains(Point::new(-1, 1)));
}

#[test]
fn canvas_bounds_map_screen_points() {
    let mut canvas = Canvas::new(2, 2);
    assert!(!canvas.is_within_bounds(Point::new(0, 0)));
    assert_eq!(canvas.convert_to_canvas_coords(Point::new(0, 0)), None);
    canvas.set_bounds(100, 200, 50, 60);
    assert_eq!(canvas.bounds(), Some(Rectangle { x: 100, y: 200, width: 50, height: 60 }));
    assert!(canvas.is_within_bounds(Point::new(100, 200)));
    assert!(canvas.is_within_bounds(Point::new(149, 259)));
    assert!(!canvas.is_within_bounds(Point::new(150, 259)));
    assert!(!canvas.is_within_bounds(Point::new(149, 260)));
    assert_eq!(canvas.convert_to_canvas_coords(Point::new(100, 200)), Some(Point::new(0, 0)));
    assert_eq!(canvas.convert_to_canvas_coords(Point::new(120, 259)), Some(Point::new(20, 59)));
    assert_eq!(canvas.convert_to_canvas_coords(Point::new(150, 200)), None);
    assert_eq!(canvas.convert_to_canvas_coords(Point::new(99, 200)), None);
}

#[test]
fn integer_square_root_rounds_down() {
    assert_eq!(isqrt(0), 0);
    assert_eq!(isqrt(1), 1);
    assert_eq!(isqrt(2), 1);
    assert_eq!(isqrt(3), 1);
    assert_eq!(isqrt(4), 2);
    assert_eq!(isqrt(24), 4);
    assert_eq!(isqrt(25), 5);
    assert_eq!(isqrt(26), 5);
    assert_eq!(isqrt(1_000_000), 1000);
    assert_eq!(isqrt(999_999), 999);
    assert_eq!(isqrt(u128::MAX), u64::MAX);
    assert_eq!(isqrt((u64::MAX as u128) * (u64::MAX as u128)), u64::MAX);
    assert_eq!(isqrt((u64::MAX as u128) * (u64::MAX as u128) - 1), u64::MAX - 1);
}

#[test]
fn distance_is_euclidean_rounded_down() {
    assert_eq!(Point::new(0, 0).distance(Point::new(3000, 4000)), 5000);
    assert_eq!(Point::new(3000, 4000).distance(Point::new(0, 0)), 5000);
    assert_eq!(Point::new(-1, -1).distance(Point::new(-1, -1)), 0);
    assert_eq!(Point::new(0, 0).distance(Point::new(1000, 1000)), 1414);
    assert_eq!(Point::new(100_000, 100_000).distance(Point::new(100_000, 110_000)), 10_000);
    assert_eq!(
        Point::new(i32::MIN, i32::MIN).distance(Point::new(i32::MAX, i32::MAX)),
        6_074_000_998
    );
}

#[test]
fn point_difference_saturates() {
    assert_eq!(Point::new(5, 7).sub(Point::new(2, 10)), Point::new(3, -3));
    assert_eq!(Point::new(i32::MAX, i32::MIN).sub(Point::new(-1, 1)), Point::new(i32::MAX, i32::MIN));
    assert_eq!(to_i32_clamped(1 << 40), i32::MAX);
    assert_eq!(to_i32_clamped(-(1 << 40)), i32::MIN);
    assert_eq!(to_i32_clamped(-12), -12);
}

#[test]
fn whole_pixel_rounds_toward_zero() {
    assert_eq!(to_pixel(0), 0);
    assert_eq!(to_pixel(999), 0);
    assert_eq!(to_pixel(1000), 1);
    assert_eq!(to_pixel(100_500), 100);
    assert_eq!(to_pixel(-1), 0);
    assert_eq!(to_pixel(-999), 0);
    assert_eq!(to_pixel(-1000), -1);
    assert_eq!(to_pixel(-1001), -1);
    assert_eq!(to_pixel(i32::MIN), -2_147_483);
    assert_eq!(to_pixel(i32::MAX), 2_147_483);
}

#[test]
fn try_new_refuses_a_size_that_cannot_be_addressed() {
    assert!(Canvas::try_new(usize::MAX, 2).is_none());
    assert!(Canvas::try_new(usize::MAX / 4 + 1, 1).is_none());
    assert!(Canvas::try_new(usize::MAX, usize::MAX).is_none());
    let canvas = Canvas::try_new(3, 2).unwrap();
    assert_eq!(canvas.width(), 3);
    assert_eq!(canvas.height(), 2);
    assert_eq!(canvas.pixels(), Canvas::new(3, 2).pixels());
    assert_eq!(Canvas::try_new(usize::MAX, 0).unwrap().pixels().len(), 0);
}

#[test]
fn zoom_about_a_point_keeps_it_in_place() {
    let mut canvas = Canvas::new(4, 4);
    canvas.zoom_relative_to_point(2000, 100_000, 50_000);
    assert_eq!(canvas.zoom(), 2000);
    assert_eq!(canvas.offset(), Point::new(100_000, 50_000));
    canvas.zoom_relative_to_point(500, 100_000, 50_000);
    assert_eq!(canvas.zoom(), 500);
    assert_eq!(canvas.offset(), Point::new(-50_000, -25_000));
    canvas.zoom_relative_to_point(1000, 100_000, 50_000);
    assert_eq!(canvas.zoom(), 1000);
    assert_eq!(canvas.offset(), Point::new(0, 0));
}

#[test]
fn zoom_about_a_point_rounds_toward_zero_and_clamps() {
    let mut canvas = Canvas::new(4, 4);
    canvas.set_offset(7, -7);
    canvas.zoom_relative_to_point(1500, 0, 0);
    assert_eq!(canvas.offset(), Point::new(10, -10));
    canvas.zoom_relative_to_point(100_000, 0, 0);
    assert_eq!(canvas.zoom(), 5000);
    assert_eq!(canvas.offset(), Point::new(33, -33));
    canvas.zoom_relative_to_point(-3, 0, 0);
    assert_eq!(canvas.zoom(), 300);
    assert_eq!(canvas.offset(), Point::new(1, -1));
    canvas.set_offset(i32::MAX, i32::MIN);
    canvas.zoom_relative_to_point(5000, 0, 0);
    assert_eq!(canvas.offset(), Point::new(i32::MAX, i32::MIN));
}

#[test]
fn division_rounds_toward_zero() {
    assert_eq!(divide_toward_zero(7, 2), 3);
    assert_eq!(divide_toward_zero(-7, 2), -3);
    assert_eq!(divide_toward_zero(6, 2), 3);
    assert_eq!(divide_toward_zero(-6, 2), -3);
    assert_eq!(divide_toward_zero(0, 5), 0);
    assert_eq!(divide_toward_zero(-1, 5), 0);
    assert_eq!(divide_toward_zero(i64::MIN, 1), i64::MIN);
    assert_eq!(divide_toward_zero(i64::MIN, i64::MAX), -1);
    assert_eq!(divide_toward_zero(i64::MAX, i64::MAX), 1);
}
