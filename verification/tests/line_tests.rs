use shade::color::Color;
use shade::image::Image;

#[test]
fn line_carries_color_at_both_endpoints() {
    let mut img = Image::new(8, 8);
    let c = Color::from_rgba(255, 0, 0, 255);
    img.draw_line(1, 1, 5, 4, c);
    assert_eq!(img.get_pixel(1, 1), c);
    assert_eq!(img.get_pixel(5, 4), c);
}

#[test]
fn line_endpoints_hold_regardless_of_order() {
    let mut img = Image::new(8, 8);
    let c = Color::from_rgba(0, 255, 0, 255);
    img.draw_line(6, 2, 2, 6, c);
    assert_eq!(img.get_pixel(6, 2), c);
    assert_eq!(img.get_pixel(2, 6), c);
}

#[test]
fn zero_length_line_plots_its_point() {
    let mut img = Image::new(5, 5);
    let c = Color::from_rgba(0, 0, 255, 255);
    img.draw_line(3, 3, 3, 3, c);
    assert_eq!(img.get_pixel(3, 3), c);
    let mut count: u32 = 0;
    for y in 0..5 {
        for x in 0..5 {
            if img.get_pixel(x, y).value != 0 {
                count += 1;
            }
        }
    }
    assert_eq!(count, 1);
}

#[test]
fn horizontal_line_covers_the_span() {
    let mut img = Image::new(8, 8);
    let c = Color::from_rgba(7, 8, 9, 255);
    img.draw_line(1, 3, 6, 3, c);
    for x in 1..7 {
        assert_eq!(img.get_pixel(x, 3), c);
    }
    assert_eq!(img.get_pixel(7, 3).value, 0);
    assert_eq!(img.get_pixel(1, 2).value, 0);
}

#[test]
fn vertical_line_covers_the_span() {
    let mut img = Image::new(8, 8);
    let c = Color::from_rgba(1, 1, 1, 255);
    img.draw_line(4, 1, 4, 6, c);
    for y in 1..7 {
        assert_eq!(img.get_pixel(4, y), c);
    }
    assert_eq!(img.get_pixel(4, 7).value, 0);
}

#[test]
fn out_of_bounds_line_is_clipped_without_panic() {
    let bg = Color::from_rgba(5, 5, 5, 255);
    let mut img = Image::from_color(10, 10, bg);
    let c = Color::from_rgba(250, 0, 0, 255);
    img.draw_line(-50, -50, -10, -2, c);
    for y in 0..10 {
        for x in 0..10 {
            assert_eq!(img.get_pixel(x, y), bg);
        }
    }
    // a line crossing the buffer touches only pixels, never memory outside
    img.draw_line(-5, 5, 20, 5, c);
    for x in 1..10 {
        assert_eq!(img.get_pixel(x, 5), c);
    }
}

#[test]
fn aa_splat_at_an_integer_position_writes_one_full_pixel() {
    let mut img = Image::new(8, 8);
    let red = Color::from_rgba(255, 0, 0, 200);
    img.plot_aa(3 << 16, 2 << 16, red);
    // full coverage replaces the alpha byte by 255, so the write is opaque
    assert_eq!(img.get_pixel(3, 2), Color::from_rgba(255, 0, 0, 255));
    let mut touched: u32 = 0;
    for y in 0..8 {
        for x in 0..8 {
            if img.get_pixel(x, y).value != 0 {
                touched += 1;
            }
        }
    }
    assert_eq!(touched, 1);
}

#[test]
fn aa_splat_between_pixels_spreads_the_coverage() {
    let mut img = Image::from_color(8, 8, Color::from_rgba(0, 0, 0, 255));
    let white = Color::from_rgba(255, 255, 255, 255);
    // half way between columns 3 and 4, exactly on row 2
    img.plot_aa((3 << 16) + 32768, 2 << 16, white);
    // each covered pixel blends with alpha (32768 * 65536 * 255) >> 32 = 127
    let blended: u32 = (255 * 127) / 256;
    assert_eq!(img.get_pixel(3, 2).separate(), (blended, blended, blended, 255));
    assert_eq!(img.get_pixel(4, 2).separate(), (blended, blended, blended, 255));
    assert_eq!(img.get_pixel(3, 3).separate(), (0, 0, 0, 255));
    assert_eq!(img.get_pixel(4, 3).separate(), (0, 0, 0, 255));
}

#[test]
fn plot_square_outlines_the_rectangle() {
    let mut img = Image::new(8, 8);
    let c = Color::from_rgba(9, 9, 9, 255);
    img.plot_square(1, 1, 5, 5, c);
    for t in 1..6 {
        assert_eq!(img.get_pixel(1, t), c);
        assert_eq!(img.get_pixel(5, t), c);
        assert_eq!(img.get_pixel(t, 1), c);
        assert_eq!(img.get_pixel(t, 5), c);
    }
    assert_eq!(img.get_pixel(3, 3).value, 0);
}
