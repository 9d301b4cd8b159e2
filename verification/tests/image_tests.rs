use shade::color::{Color, Colors};
use shade::image::Image;

#[test]
fn new_image_is_transparent_black() {
    let img = Image::new(3, 2);
    assert_eq!(img.width, 3);
    assert_eq!(img.height, 2);
    for y in 0..2 {
        for x in 0..3 {
            assert_eq!(img.get_pixel(x, y).value, 0);
        }
    }
}

#[test]
fn from_color_sets_every_pixel() {
    let c = Color::from_u32(0xFF102030);
    let img = Image::from_color(4, 4, c);
    for y in 0..4 {
        for x in 0..4 {
            assert_eq!(img.get_pixel(x, y), c);
        }
    }
}

#[test]
fn from_data_wraps_the_buffer() {
    let data = vec![Color::from_u32(7); 6];
    let img = Image::from_data(3, 2, data);
    assert_eq!(img.get_pixel(2, 1).value, 7);
}

#[test]
fn fill_overwrites_every_pixel() {
    let mut img = Image::from_color(5, 5, Color::from_u32(1));
    let c = Color::from_u32(0xFFABCDEF);
    img.fill(c);
    for y in 0..5 {
        for x in 0..5 {
            assert_eq!(img.get_pixel(x, y), c);
        }
    }
}

#[test]
fn fill_is_idempotent() {
    let mut once = Image::from_color(4, 3, Color::from_u32(9));
    let c = Color::from_u32(0xFF00FF00);
    once.fill(c);
    let mut twice = Image::from_color(4, 3, Color::from_u32(9));
    twice.fill(c);
    twice.fill(c);
    for y in 0..3 {
        for x in 0..4 {
            assert_eq!(once.get_pixel(x, y), twice.get_pixel(x, y));
        }
    }
}

#[test]
fn clear_fills_with_the_transparent_sentinel() {
    let mut img = Image::from_color(2, 2, Color::from_u32(Colors::White.value()));
    img.clear();
    for y in 0..2 {
        for x in 0..2 {
            assert_eq!(img.get_pixel(x, y).value, 0);
        }
    }
}

#[test]
fn plot_point_blends_one_pixel_and_clips() {
    let mut img = Image::from_color(4, 4, Color::from_rgba(100, 100, 100, 255));
    let c = Color::from_rgba(200, 200, 200, 128);
    img.plot_point(2, 2, c);
    let expected: u32 = (200 * 128 + 100 * 127) / 256;
    assert_eq!(img.get_pixel(2, 2).separate(), (expected, expected, expected, 255));
    // out of bounds, and the first row and column, are never written
    img.plot_point(-1, 2, c);
    img.plot_point(2, 7, c);
    img.plot_point(0, 1, c);
    img.plot_point(1, 0, c);
    for y in 0..4 {
        for x in 0..4 {
            if !(x == 2 && y == 2) {
                assert_eq!(img.get_pixel(x, y).separate(), (100, 100, 100, 255));
            }
        }
    }
}
