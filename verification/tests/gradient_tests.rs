use shade::color::Color;
use shade::image::Image;

#[test]
fn horizontal_gradient_reproduces_the_endpoint_rows() {
    let black = Color::from_rgba(0, 0, 0, 255);
    let white = Color::from_rgba(255, 255, 255, 255);
    let img = Image::from_horisontal_gradient(4, 8, black, white);
    for x in 0..4 {
        assert_eq!(img.get_pixel(x, 0), black);
        assert_eq!(img.get_pixel(x, 7), white);
    }
}

#[test]
fn horizontal_gradient_is_monotonic_per_channel() {
    let c0 = Color::from_rgba(10, 250, 100, 255);
    let c1 = Color::from_rgba(240, 5, 100, 255);
    let img = Image::from_horisontal_gradient(3, 16, c0, c1);
    let mut prev = img.get_pixel(0, 0).separate();
    for y in 1..16 {
        let cur = img.get_pixel(0, y).separate();
        assert!(cur.0 >= prev.0);
        assert!(cur.1 <= prev.1);
        assert_eq!(cur.2, 100);
        prev = cur;
    }
}

#[test]
fn horizontal_gradient_rows_are_uniform() {
    let img = Image::from_horisontal_gradient(
        5,
        6,
        Color::from_rgba(0, 0, 0, 255),
        Color::from_rgba(200, 100, 50, 255),
    );
    for y in 0..6 {
        let first = img.get_pixel(0, y);
        for x in 1..5 {
            assert_eq!(img.get_pixel(x, y), first);
        }
    }
}

#[test]
fn degenerate_single_row_gradient_holds_the_start_color() {
    // with a single row there is no step to take: the row is the start color
    let black = Color::from_rgba(0, 0, 0, 255);
    let white = Color::from_rgba(255, 255, 255, 255);
    let img = Image::from_horisontal_gradient(10, 1, black, white);
    for x in 0..10 {
        assert_eq!(img.get_pixel(x, 0), black);
    }
}

#[test]
fn vertical_gradient_varies_by_column_and_is_opaque() {
    let c0 = Color::from_rgba(0, 0, 0, 10);
    let c1 = Color::from_rgba(255, 255, 255, 20);
    let img = Image::from_vectical_gradient(8, 3, c0, c1);
    for y in 0..3 {
        // endpoint columns, with alpha forced to opaque
        assert_eq!(img.get_pixel(0, y).separate(), (0, 0, 0, 255));
        assert_eq!(img.get_pixel(7, y).separate(), (255, 255, 255, 255));
    }
    let mut prev: u32 = 0;
    for x in 0..8 {
        let (r, _, _, a) = img.get_pixel(x, 1).separate();
        assert_eq!(a, 255);
        assert!(r >= prev);
        prev = r;
    }
}

#[test]
fn gradient_midpoint_is_halfway() {
    let img = Image::from_horisontal_gradient(
        1,
        3,
        Color::from_rgba(0, 0, 0, 255),
        Color::from_rgba(200, 100, 50, 255),
    );
    assert_eq!(img.get_pixel(0, 1).separate(), (100, 50, 25, 255));
}
