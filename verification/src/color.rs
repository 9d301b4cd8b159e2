//! The packed color model: a 32-bit ARGB value (byte order, high to low:
//! alpha, red, green, blue), channel packing and unpacking, channel setters,
//! and the integer "over" alpha-compositing law used by every drawing
//! primitive.
//!
//! The blend law for a partially transparent source is, per channel,
//! `(src * alpha + dst * (255 - alpha)) / 256`; the division by 256 (a
//! truncating shift) is the accepted integer approximation of dividing by
//! 255. The destination alpha is fixed at opaque. Source alpha 0 leaves the
//! destination untouched and source alpha 255 replaces it outright.

use vstd::prelude::*;
use crate::math::min_u32;
use crate::tools::change_bytes;

verus! {

/// A color as one packed 32-bit ARGB word.
#[derive(Clone, Copy, PartialEq, Eq, Structural, Debug)]
pub struct Color {
    pub value: u32,
}

/// A small palette of named ARGB values.
#[derive(Clone, Copy, PartialEq, Eq, Structural, Debug)]
pub enum Colors {
    Empty,
    Amber,
    Black,
    White,
    DarkGrey,
}

impl Colors {
    /// The packed ARGB word of this palette entry.
    pub open spec fn spec_value(self) -> u32 {
        match self {
            Colors::Empty => 0x00000000u32,
            Colors::Amber => 0xFFFFBF00u32,
            Colors::Black => 0xFF000000u32,
            Colors::White => 0xFFFFFFFFu32,
            Colors::DarkGrey => 0xFF222222u32,
        }
    }

    pub fn value(self) -> (r: u32)
        ensures
            r == self.spec_value(),
    {
        match self {
            Colors::Empty => 0x00000000,
            Colors::Amber => 0xFFFFBF00,
            Colors::Black => 0xFF000000,
            Colors::White => 0xFFFFFFFF,
            Colors::DarkGrey => 0xFF222222,
        }
    }
}

/// The red byte of a packed ARGB word.
pub open spec fn spec_red(v: u32) -> u32 {
    (v >> 16) & 0xFF
}

/// The green byte of a packed ARGB word.
pub open spec fn spec_green(v: u32) -> u32 {
    (v >> 8) & 0xFF
}

/// The blue byte of a packed ARGB word.
pub open spec fn spec_blue(v: u32) -> u32 {
    v & 0xFF
}

/// The alpha byte of a packed ARGB word.
pub open spec fn spec_alpha(v: u32) -> u32 {
    (v >> 24) & 0xFF
}

/// Packing four channel bytes into one ARGB word.
pub open spec fn spec_pack(r: u32, g: u32, b: u32, a: u32) -> u32 {
    (a << 24) | (r << 16) | (g << 8) | b
}

/// A channel value forced into the byte range.
pub open spec fn spec_clamp255(v: u32) -> u32 {
    if v > 255 {
        255u32
    } else {
        v
    }
}

/// Every extracted channel is a byte.
pub proof fn lemma_channels_in_range(v: u32)
    ensures
        spec_red(v) < 256,
        spec_green(v) < 256,
        spec_blue(v) < 256,
        spec_alpha(v) < 256,
{
    assert(((v >> 16) & 0xFF) < 256 && ((v >> 8) & 0xFF) < 256 && (v & 0xFF) < 256 && ((v
        >> 24) & 0xFF) < 256) by (bit_vector);
}

/// Packing the four extracted channels of a word reproduces the word.
pub proof fn lemma_unpack_pack(v: u32)
    ensures
        spec_pack(spec_red(v), spec_green(v), spec_blue(v), spec_alpha(v)) == v,
{
    assert((((v >> 24) & 0xFF) << 24) | (((v >> 16) & 0xFF) << 16) | (((v >> 8) & 0xFF)
        << 8) | (v & 0xFF) == v) by (bit_vector);
}

/// Packing channel bytes and unpacking them returns the same four bytes.
pub proof fn lemma_pack_unpack(r: u32, g: u32, b: u32, a: u32)
    requires
        r < 256,
        g < 256,
        b < 256,
        a < 256,
    ensures
        spec_red(spec_pack(r, g, b, a)) == r,
        spec_green(spec_pack(r, g, b, a)) == g,
        spec_blue(spec_pack(r, g, b, a)) == b,
        spec_alpha(spec_pack(r, g, b, a)) == a,
{
    let v = spec_pack(r, g, b, a);
    assert(r < 256 && g < 256 && b < 256 && a < 256 ==> {
        let p = (a << 24) | (r << 16) | (g << 8) | b;
        ((p >> 16) & 0xFF) == r && ((p >> 8) & 0xFF) == g && (p & 0xFF) == b && ((p >> 24)
            & 0xFF) == a
    }) by (bit_vector);
}

/// Packs four channel values, each already in `[0, 255]`, into one ARGB word.
pub fn pack_to_argb(r: u32, g: u32, b: u32, a: u32) -> (v: u32)
    requires
        r < 256,
        g < 256,
        b < 256,
        a < 256,
    ensures
        v == spec_pack(r, g, b, a),
        spec_red(v) == r,
        spec_green(v) == g,
        spec_blue(v) == b,
        spec_alpha(v) == a,
{
    proof {
        lemma_pack_unpack(r, g, b, a);
    }
    (a << 24u32) | (r << 16u32) | (g << 8u32) | b
}

/// Unpacks an ARGB word into its (red, green, blue, alpha) bytes.
pub fn separate_to_rgba(value: u32) -> (r: (u32, u32, u32, u32))
    ensures
        r.0 == spec_red(value),
        r.1 == spec_green(value),
        r.2 == spec_blue(value),
        r.3 == spec_alpha(value),
        r.0 < 256 && r.1 < 256 && r.2 < 256 && r.3 < 256,
{
    proof {
        lemma_channels_in_range(value);
    }
    ((value >> 16u32) & 0xFF, (value >> 8u32) & 0xFF, value & 0xFF, (value >> 24u32) & 0xFF)
}

impl Color {
    /// The red byte of this color.
    pub open spec fn red(self) -> u32 {
        spec_red(self.value)
    }

    /// The green byte of this color.
    pub open spec fn green(self) -> u32 {
        spec_green(self.value)
    }

    /// The blue byte of this color.
    pub open spec fn blue(self) -> u32 {
        spec_blue(self.value)
    }

    /// The alpha byte of this color.
    pub open spec fn alpha(self) -> u32 {
        spec_alpha(self.value)
    }

    /// Reinterprets a raw 32-bit word as a color, without repacking.
    pub fn from_u32(color: u32) -> (c: Self)
        ensures
            c.value == color,
    {
        Color { value: color }
    }

    /// Builds a color from four channel values; each channel is clamped to
    /// `[0, 255]` before packing.
    pub fn from_rgba(r: u32, g: u32, b: u32, a: u32) -> (c: Self)
        ensures
            c.value == spec_pack(
                spec_clamp255(r),
                spec_clamp255(g),
                spec_clamp255(b),
                spec_clamp255(a),
            ),
            c.red() == spec_clamp255(r),
            c.green() == spec_clamp255(g),
            c.blue() == spec_clamp255(b),
            c.alpha() == spec_clamp255(a),
    {
        let rc = min_u32(255, r);
        let gc = min_u32(255, g);
        let bc = min_u32(255, b);
        let ac = min_u32(255, a);
        Color { value: pack_to_argb(rc, gc, bc, ac) }
    }

    /// Unpacks this color into its (red, green, blue, alpha) bytes.
    pub fn separate(self) -> (r: (u32, u32, u32, u32))
        ensures
            r.0 == self.red(),
            r.1 == self.green(),
            r.2 == self.blue(),
            r.3 == self.alpha(),
            r.0 < 256 && r.1 < 256 && r.2 < 256 && r.3 < 256,
    {
        separate_to_rgba(self.value)
    }

    /// Replaces this color by one packed from the given channels, clamped.
    pub fn set_rgba(&mut self, r: u32, g: u32, b: u32, a: u32)
        ensures
            final(self).value == spec_pack(
                spec_clamp255(r),
                spec_clamp255(g),
                spec_clamp255(b),
                spec_clamp255(a),
            ),
    {
        let c = Color::from_rgba(r, g, b, a);
        self.value = c.value;
    }

    /// Replaces this color by one packed from the given channels, clamped,
    /// with alpha forced to opaque.
    pub fn set_rgb(&mut self, r: u32, g: u32, b: u32)
        ensures
            final(self).value == spec_pack(
                spec_clamp255(r),
                spec_clamp255(g),
                spec_clamp255(b),
                255u32,
            ),
    {
        let c = Color::from_rgba(r, g, b, 255);
        self.value = c.value;
    }
}

/// One channel of the integer "over" blend: source weighted by its alpha,
/// destination by the remaining weight, divided by 256 (truncating).
pub open spec fn blend_channel(s: int, d: int, a: int) -> int {
    (s * a + d * (255 - a)) / 256
}

/// The color written by compositing `src` over `dst`: alpha 0 keeps the
/// destination, alpha 255 replaces it outright, and a partial alpha blends
/// each channel and fixes the result's alpha at opaque.
pub open spec fn spec_pixel_over(src: Color, dst: Color) -> Color {
    if src.alpha() == 0 {
        dst
    } else if src.alpha() == 255 {
        src
    } else {
        Color {
            value: spec_pack(
                blend_channel(src.red() as int, dst.red() as int, src.alpha() as int) as u32,
                blend_channel(src.green() as int, dst.green() as int, src.alpha() as int) as u32,
                blend_channel(src.blue() as int, dst.blue() as int, src.alpha() as int) as u32,
                255u32,
            ),
        }
    }
}

/// A blended channel of byte-ranged inputs is itself a byte; it never
/// exceeds the larger input and falls below the smaller input by at most
/// one (the price of the truncating division by 256).
pub proof fn lemma_blend_channel_bounds(s: int, d: int, a: int)
    requires
        0 <= s <= 255,
        0 <= d <= 255,
        0 <= a <= 255,
    ensures
        0 <= blend_channel(s, d, a) <= 255,
        blend_channel(s, d, a) <= if s >= d { s } else { d },
        blend_channel(s, d, a) >= (if s >= d { d } else { s }) - 1,
{
    let num = s * a + d * (255 - a);
    let hi = if s >= d { s } else { d };
    let lo = if s >= d { d } else { s };
    assert(0 <= num && lo * 255 <= num && num <= hi * 255) by (nonlinear_arith)
        requires
            0 <= s <= 255,
            0 <= d <= 255,
            0 <= a <= 255,
            hi == if s >= d { s } else { d },
            lo == if s >= d { d } else { s },
            num == s * a + d * (255 - a),
    ;
    vstd::arithmetic::div_mod::lemma_div_pos_is_pos(num, 256);
    assert(num < 256 * (hi + 1)) by (nonlinear_arith)
        requires
            num <= hi * 255,
            0 <= hi <= 255,
    ;
    vstd::arithmetic::div_mod::lemma_multiply_divide_lt(num, 256, hi + 1);
    assert(256 * (lo - 1) < num) by (nonlinear_arith)
        requires
            lo * 255 <= num,
            0 <= lo <= 255,
    ;
    if lo >= 1 {
        assert(256 * (lo - 1) <= num);
        vstd::arithmetic::div_mod::lemma_div_multiples_vanish(lo - 1, 256);
        vstd::arithmetic::div_mod::lemma_div_is_ordered(256 * (lo - 1), num, 256);
    }
}

/// Blend monotonicity for a half-transparent source (alpha 128): the result
/// channel lies between the source and destination channel values,
/// inclusive. The truncating division by 256 can fall one short of the
/// smaller input (for instance on two equal channels of 255), so those
/// inputs are excluded; the bound with slack one holds of every input (see
/// `lemma_blend_channel_bounds`).
pub proof fn lemma_blend_channel_monotone(s: int, d: int)
    requires
        0 <= s <= 255,
        0 <= d <= 255,
        256 * (if s >= d { d } else { s }) <= 128 * s + 127 * d,
    ensures
        (if s >= d { d } else { s }) <= blend_channel(s, d, 128) <= (if s >= d { s } else { d }),
{
    lemma_blend_channel_bounds(s, d, 128);
    let num = s * 128 + d * (255 - 128);
    let lo = if s >= d { d } else { s };
    assert(num == 128 * s + 127 * d);
    vstd::arithmetic::div_mod::lemma_div_multiples_vanish(lo, 256);
    vstd::arithmetic::div_mod::lemma_div_is_ordered(256 * lo, num, 256);
}

/// Blend identity: a source with alpha 0 leaves the destination pixel
/// bit-for-bit unchanged, and a source with alpha 255 replaces it exactly.
pub proof fn lemma_blend_identity(src: Color, dst: Color)
    ensures
        src.alpha() == 0 ==> spec_pixel_over(src, dst) == dst,
        src.alpha() == 255 ==> spec_pixel_over(src, dst) == src,
{
}

/// Composites the color `src` over the color `dst` using the integer blend
/// law `spec_pixel_over`.
pub fn pixel_over(src: Color, dst: Color) -> (r: Color)
    ensures
        r == spec_pixel_over(src, dst),
{
    let (s_r, s_g, s_b, s_a) = src.separate();
    if s_a == 0 {
        dst
    } else if s_a == 255 {
        src
    } else {
        let (d_r, d_g, d_b, _d_a) = dst.separate();
        let inv: u32 = 255 - s_a;
        proof {
            lemma_blend_channel_bounds(s_r as int, d_r as int, s_a as int);
            lemma_blend_channel_bounds(s_g as int, d_g as int, s_a as int);
            lemma_blend_channel_bounds(s_b as int, d_b as int, s_a as int);
            assert(s_r * s_a + d_r * inv <= 65025 && s_g * s_a + d_g * inv <= 65025 && s_b
                * s_a + d_b * inv <= 65025) by (nonlinear_arith)
                requires
                    s_r < 256 && s_g < 256 && s_b < 256,
                    d_r < 256 && d_g < 256 && d_b < 256,
                    0 <= s_a < 256,
                    inv == 255 - s_a,
            ;
        }
        let r_c: u32 = (s_r * s_a + d_r * inv) / 256;
        let g_c: u32 = (s_g * s_a + d_g * inv) / 256;
        let b_c: u32 = (s_b * s_a + d_b * inv) / 256;
        Color { value: pack_to_argb(r_c, g_c, b_c, 255) }
    }
}

/// Replacing one byte of an ARGB word changes that channel and no other.
proof fn lemma_set_byte(v: u32, b: u32, nv: u32)
    requires
        b < 4,
        nv < 256,
    ensures
        ({
            let r = (v & !(0xFFu32 << (8 * b))) | (nv << (8 * b));
            &&& b == 0 ==> spec_blue(r) == nv && spec_red(r) == spec_red(v) && spec_green(r)
                == spec_green(v) && spec_alpha(r) == spec_alpha(v)
            &&& b == 1 ==> spec_green(r) == nv && spec_red(r) == spec_red(v) && spec_blue(r)
                == spec_blue(v) && spec_alpha(r) == spec_alpha(v)
            &&& b == 2 ==> spec_red(r) == nv && spec_green(r) == spec_green(v) && spec_blue(
                r,
            ) == spec_blue(v) && spec_alpha(r) == spec_alpha(v)
            &&& b == 3 ==> spec_alpha(r) == nv && spec_red(r) == spec_red(v) && spec_green(
                r,
            ) == spec_green(v) && spec_blue(r) == spec_blue(v)
        }),
{
    assert(b < 4 && nv < 256 ==> {
        let r = (v & !(0xFFu32 << (8 * b))) | (nv << (8 * b));
        &&& b == 0 ==> (r & 0xFF) == nv && (r >> 16) & 0xFF == (v >> 16) & 0xFF && (r >> 8)
            & 0xFF == (v >> 8) & 0xFF && (r >> 24) & 0xFF == (v >> 24) & 0xFF
        &&& b == 1 ==> (r >> 8) & 0xFF == nv && (r >> 16) & 0xFF == (v >> 16) & 0xFF && (r
            & 0xFF) == (v & 0xFF) && (r >> 24) & 0xFF == (v >> 24) & 0xFF
        &&& b == 2 ==> (r >> 16) & 0xFF == nv && (r >> 8) & 0xFF == (v >> 8) & 0xFF && (r
            & 0xFF) == (v & 0xFF) && (r >> 24) & 0xFF == (v >> 24) & 0xFF
        &&& b == 3 ==> (r >> 24) & 0xFF == nv && (r >> 16) & 0xFF == (v >> 16) & 0xFF && (r
            >> 8) & 0xFF == (v >> 8) & 0xFF && (r & 0xFF) == (v & 0xFF)
    }) by (bit_vector);
}

/// A copy of `color` with the red byte replaced by `value`.
pub fn color_set_red(color: Color, value: u32) -> (c: Color)
    requires
        value < 256,
    ensures
        c.red() == value,
        c.green() == color.green(),
        c.blue() == color.blue(),
        c.alpha() == color.alpha(),
{
    proof {
        lemma_set_byte(color.value, 2, value);
    }
    let new_value = change_bytes(color.value, 2, value);
    Color::from_u32(new_value)
}

/// A copy of `color` with the green byte replaced by `value`.
pub fn color_set_green(color: Color, value: u32) -> (c: Color)
    requires
        value < 256,
    ensures
        c.green() == value,
        c.red() == color.red(),
        c.blue() == color.blue(),
        c.alpha() == color.alpha(),
{
    proof {
        lemma_set_byte(color.value, 1, value);
    }
    let new_value = change_bytes(color.value, 1, value);
    Color::from_u32(new_value)
}

/// A copy of `color` with the blue byte replaced by `value`.
pub fn color_set_blue(color: Color, value: u32) -> (c: Color)
    requires
        value < 256,
    ensures
        c.blue() == value,
        c.red() == color.red(),
        c.green() == color.green(),
        c.alpha() == color.alpha(),
{
    proof {
        lemma_set_byte(color.value, 0, value);
    }
    let new_value = change_bytes(color.value, 0, value);
    Color::from_u32(new_value)
}

/// A copy of `color` with the alpha byte replaced by `value`.
pub fn color_set_alpha(color: Color, value: u32) -> (c: Color)
    requires
        value < 256,
    ensures
        c.alpha() == value,
        c.red() == color.red(),
        c.green() == color.green(),
        c.blue() == color.blue(),
{
    proof {
        lemma_set_byte(color.value, 3, value);
    }
    let new_value = change_bytes(color.value, 3, value);
    Color::from_u32(new_value)
}

} // verus!
