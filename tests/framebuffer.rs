use star_render::{Color, Framebuffer};

fn red() -> Color {
    Color::new(255, 0, 0, 255)
}

#[test]
fn new_buffer_is_black_with_white_pen() {
    let fb = Framebuffer::new(4, 3);
    assert_eq!(fb.width, 4);
    assert_eq!(fb.height, 3);
    assert_eq!(fb.pixels.len(), 12);
    assert!(fb.pixels.iter().all(|c| *c == Color::black()));
    assert_eq!(fb.current_color, Color::white());
    assert_eq!(fb.background_color, Color::black());
}

#[test]
fn empty_buffer_has_no_pixels() {
    let fb = Framebuffer::new(0, 5);
    assert!(fb.pixels.is_empty());
    assert_eq!(fb.get_pixel(0, 0), Color::black());
}

#[test]
fn set_pixel_color_writes_row_major() {
    let mut fb = Framebuffer::new(4, 3);
    fb.set_pixel_color(2, 1, red());
    assert_eq!(fb.pixels[1 * 4 + 2], red());
    assert_eq!(fb.get_pixel(2, 1), red());
    assert_eq!(fb.get_pixel(1, 2), Color::black());
    assert_eq!(fb.pixels.iter().filter(|c| **c == red()).count(), 1);
}

#[test]
fn set_pixel_uses_current_color() {
    let mut fb = Framebuffer::new(2, 2);
    let blue = Color::new(0, 0, 255, 255);
    fb.set_current_color(blue);
    fb.set_pixel(1, 1);
    assert_eq!(fb.get_pixel(1, 1), blue);
    assert_eq!(fb.get_pixel(0, 0), Color::black());
}

#[test]
fn out_of_bounds_writes_are_ignored() {
    let mut fb = Framebuffer::new(3, 2);
    let before = fb.pixels.clone();
    fb.set_pixel_color(3, 0, red());
    fb.set_pixel_color(0, 2, red());
    fb.set_pixel(7, 7);
    fb.point(-1, 0, red());
    fb.point(0, -1, red());
    fb.point(3, 1, red());
    fb.point(i32::MIN, i32::MAX, red());
    assert_eq!(fb.pixels, before);
    assert_eq!(fb.pixels.len(), 6);
}

#[test]
fn get_pixel_outside_is_black() {
    let mut fb = Framebuffer::new(2, 2);
    fb.set_background_color(red());
    fb.clear();
    assert_eq!(fb.get_pixel(0, 0), red());
    assert_eq!(fb.get_pixel(2, 0), Color::black());
    assert_eq!(fb.get_pixel(0, 2), Color::black());
}

#[test]
fn point_writes_inside() {
    let mut fb = Framebuffer::new(800, 600);
    fb.point(799, 599, red());
    fb.point(0, 0, red());
    assert_eq!(fb.get_pixel(799, 599), red());
    assert_eq!(fb.get_pixel(0, 0), red());
    assert_eq!(fb.pixels[599 * 800 + 799], red());
}

#[test]
fn clear_fills_background_and_keeps_pen() {
    let mut fb = Framebuffer::new(3, 3);
    let bg = Color::new(10, 5, 20, 255);
    fb.set_pixel_color(1, 1, red());
    fb.set_background_color(bg);
    fb.clear();
    assert!(fb.pixels.iter().all(|c| *c == bg));
    assert_eq!(fb.current_color, Color::white());
    assert_eq!(fb.pixels.len(), 9);
}

#[test]
fn color_constants() {
    assert_eq!(Color::black(), Color::new(0, 0, 0, 255));
    assert_eq!(Color::white(), Color::new(255, 255, 255, 255));
    let c = Color::new(1, 2, 3, 4);
    assert_eq!((c.r, c.g, c.b, c.a), (1, 2, 3, 4));
}

#[test]
fn draw_points_last_writer_wins() {
    let mut fb = Framebuffer::new(3, 3);
    let blue = Color::new(0, 0, 255, 255);
    fb.draw_points(&vec![(1, 1, red()), (2, 0, red()), (1, 1, blue)]);
    assert_eq!(fb.get_pixel(1, 1), blue);
    assert_eq!(fb.get_pixel(2, 0), red());
    assert_eq!(fb.pixels.iter().filter(|c| **c != Color::black()).count(), 2);
}

#[test]
fn draw_points_only_touches_pixels_inside() {
    let mut fb = Framebuffer::new(800, 600);
    let mut writes = Vec::new();
    for y in -50..650 {
        for x in [-10, 0, 399, 799, 800, 1200] {
            writes.push((x, y, red()));
        }
    }
    fb.draw_points(&writes);
    assert_eq!(fb.pixels.len(), 800 * 600);
    let painted = fb.pixels.iter().filter(|c| **c == red()).count();
    assert_eq!(painted, 3 * 600);
    assert_eq!(fb.get_pixel(799, 0), red());
    assert_eq!(fb.get_pixel(1, 0), Color::black());
}

#[test]
fn draw_points_with_no_writes_changes_nothing() {
    let mut fb = Framebuffer::new(2, 2);
    fb.set_pixel_color(0, 1, red());
    let before = fb.pixels.clone();
    fb.draw_points(&vec![]);
    assert_eq!(fb.pixels, before);
}
