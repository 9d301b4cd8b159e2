use shade::color::Color;
use shade::image::Image;

#[test]
fn opaque_rect_on_transparent_background() {
    // a 4x4 transparent-black image; an opaque red 2x2 rectangle at (1,1)
    let mut img = Image::new(4, 4);
    let red = Color::from_rgba(255, 0, 0, 255);
    img.draw_rect(1, 1, 2, 2, red);
    for y in 0..4 {
        for x in 0..4 {
            if (1..3).contains(&x) && (1..3).contains(&y) {
                assert_eq!(img.get_pixel(x, y), red);
            } else {
                assert_eq!(img.get_pixel(x, y).value, 0);
            }
        }
    }
}

#[test]
fn rect_is_clipped_against_the_buffer() {
    let bg = Color::from_rgba(10, 20, 30, 255);
    let fg = Color::from_rgba(200, 0, 0, 255);
    let cases: [(i32, i32, i32, i32); 6] = [
        (-5, -5, 7, 7),
        (8, 8, 10, 10),
        (-100, 3, 300, 2),
        (4, -100, 2, 300),
        (-10, -10, 5, 5),
        (100, 100, 50, 50),
    ];
    for (x, y, w, h) in cases {
        let mut img = Image::from_color(10, 10, bg);
        img.draw_rect(x, y, w, h, fg);
        for py in 0..10 {
            for px in 0..10 {
                let inside = px >= x && px < x.saturating_add(w) && py >= y && py
                    < y.saturating_add(h);
                if inside {
                    assert_eq!(img.get_pixel(px, py), fg);
                } else {
                    assert_eq!(img.get_pixel(px, py), bg);
                }
            }
        }
    }
}

#[test]
fn randomized_out_of_range_rects_never_write_outside_the_clip() {
    // a deterministic linear congruential generator drives rectangles whose
    // coordinates roam far outside a 10x10 buffer
    let bg = Color::from_rgba(40, 50, 60, 255);
    let fg = Color::from_rgba(222, 0, 111, 255);
    let mut state: u64 = 12345;
    let mut next = move || {
        state = state.wrapping_mul(6364136223846793005).wrapping_add(1442695040888963407);
        ((state >> 33) % 61) as i32 - 30
    };
    for _ in 0..200 {
        let (x, y, w, h) = (next(), next(), next(), next());
        let mut img = Image::from_color(10, 10, bg);
        img.draw_rect(x, y, w, h, fg);
        for py in 0..10 {
            for px in 0..10 {
                let inside = px >= x && (px as i64) < x as i64 + w as i64 && py >= y
                    && (py as i64) < y as i64 + h as i64;
                if inside {
                    assert_eq!(img.get_pixel(px, py), fg);
                } else {
                    assert_eq!(img.get_pixel(px, py), bg);
                }
            }
        }
    }
}

#[test]
fn degenerate_rect_draws_nothing() {
    let bg = Color::from_rgba(1, 2, 3, 255);
    let mut img = Image::from_color(5, 5, bg);
    img.draw_rect(2, 2, 0, 3, Color::from_rgba(255, 255, 255, 255));
    img.draw_rect(2, 2, 3, -4, Color::from_rgba(255, 255, 255, 255));
    for y in 0..5 {
        for x in 0..5 {
            assert_eq!(img.get_pixel(x, y), bg);
        }
    }
}

#[test]
fn transparent_rect_is_skipped() {
    let bg = Color::from_rgba(9, 9, 9, 255);
    let mut img = Image::from_color(4, 4, bg);
    img.draw_rect(0, 0, 4, 4, Color::from_rgba(255, 255, 255, 0));
    for y in 0..4 {
        for x in 0..4 {
            assert_eq!(img.get_pixel(x, y), bg);
        }
    }
}

#[test]
fn partial_alpha_rect_blends_and_spares_the_edge() {
    let bg = Color::from_rgba(100, 100, 100, 255);
    let mut img = Image::from_color(4, 4, bg);
    let c = Color::from_rgba(200, 200, 200, 128);
    img.draw_rect(0, 0, 4, 4, c);
    let blended: u32 = (200 * 128 + 100 * 127) / 256;
    for y in 0..4 {
        for x in 0..4 {
            if x == 0 || y == 0 {
                // the compositing primitive never writes the first row or column
                assert_eq!(img.get_pixel(x, y), bg);
            } else {
                assert_eq!(img.get_pixel(x, y).separate(), (blended, blended, blended, 255));
            }
        }
    }
}
