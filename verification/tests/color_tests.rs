use shade::color::{Color, Colors, color_set_alpha, color_set_blue, color_set_green, color_set_red,
    pack_to_argb, pixel_over, separate_to_rgba};

#[test]
fn pack_unpack_round_trip() {
    let cases: [(u32, u32, u32, u32); 6] = [
        (0, 0, 0, 0),
        (255, 255, 255, 255),
        (1, 2, 3, 4),
        (200, 100, 50, 25),
        (255, 0, 255, 0),
        (17, 34, 51, 68),
    ];
    for (r, g, b, a) in cases {
        let c = Color::from_rgba(r, g, b, a);
        assert_eq!(c.separate(), (r, g, b, a));
    }
}

#[test]
fn pack_layout_is_argb() {
    assert_eq!(pack_to_argb(0x11, 0x22, 0x33, 0x44), 0x44112233);
    assert_eq!(separate_to_rgba(0x44112233), (0x11, 0x22, 0x33, 0x44));
}

#[test]
fn from_rgba_clamps_channels() {
    let c = Color::from_rgba(300, 256, 999, 1000);
    assert_eq!(c.separate(), (255, 255, 255, 255));
}

#[test]
fn from_u32_is_direct_bit_reinterpretation() {
    let c = Color::from_u32(0xFFFFBF00);
    assert_eq!(c.value, 0xFFFFBF00);
    assert_eq!(c.separate(), (0xFF, 0xBF, 0x00, 0xFF));
}

#[test]
fn palette_values() {
    assert_eq!(Colors::Empty.value(), 0x00000000);
    assert_eq!(Colors::Amber.value(), 0xFFFFBF00);
    assert_eq!(Colors::Black.value(), 0xFF000000);
    assert_eq!(Colors::White.value(), 0xFFFFFFFF);
    assert_eq!(Colors::DarkGrey.value(), 0xFF222222);
}

#[test]
fn channel_setters_replace_one_byte() {
    let c = Color::from_u32(0x44112233);
    assert_eq!(color_set_red(c, 0xAA).value, 0x44AA2233);
    assert_eq!(color_set_green(c, 0xAA).value, 0x4411AA33);
    assert_eq!(color_set_blue(c, 0xAA).value, 0x441122AA);
    assert_eq!(color_set_alpha(c, 0xAA).value, 0xAA112233);
}

#[test]
fn set_rgba_and_set_rgb() {
    let mut c = Color::from_u32(0);
    c.set_rgba(10, 20, 30, 40);
    assert_eq!(c.separate(), (10, 20, 30, 40));
    c.set_rgb(1, 2, 3);
    assert_eq!(c.separate(), (1, 2, 3, 255));
}

#[test]
fn blend_alpha_zero_keeps_destination() {
    let src = Color::from_rgba(200, 100, 50, 0);
    let dst = Color::from_u32(0x12345678);
    assert_eq!(pixel_over(src, dst).value, 0x12345678);
}

#[test]
fn blend_alpha_full_replaces_destination() {
    let src = Color::from_rgba(200, 100, 50, 255);
    let dst = Color::from_u32(0x12345678);
    assert_eq!(pixel_over(src, dst), src);
}

#[test]
fn blend_half_alpha_lies_between_source_and_destination() {
    let src = Color::from_rgba(200, 150, 60, 128);
    let dst = Color::from_rgba(100, 250, 20, 255);
    let out = pixel_over(src, dst);
    let (r, g, b, a) = out.separate();
    // each channel: (src * 128 + dst * 127) / 256, truncating
    assert_eq!(r, (200 * 128 + 100 * 127) / 256);
    assert_eq!(g, (150 * 128 + 250 * 127) / 256);
    assert_eq!(b, (60 * 128 + 20 * 127) / 256);
    assert_eq!(a, 255);
    assert!(100 <= r && r <= 200);
    assert!(150 <= g && g <= 250);
    assert!(20 <= b && b <= 60);
}

#[test]
fn blend_half_alpha_truncation_on_equal_channels() {
    // the truncating division by 256 can fall one below two equal inputs
    let src = Color::from_rgba(255, 255, 255, 128);
    let dst = Color::from_rgba(255, 255, 255, 255);
    let (r, g, b, _) = pixel_over(src, dst).separate();
    assert_eq!((r, g, b), (254, 254, 254));
}
