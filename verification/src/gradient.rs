//! Linear gradient synthesis. Each channel is interpolated with exact
//! integer arithmetic between the start and end colors across the chosen
//! axis, rounding to the nearest step, so that the first and last samples
//! reproduce the endpoint colors exactly and every channel is monotonic
//! along the axis. A horizontal gradient varies row by row (and
//! interpolates alpha as well); a vertical gradient varies column by
//! column with the alpha forced to opaque. A degenerate axis of length one
//! holds the start color alone.

use vstd::prelude::*;
use crate::color::{
    Color,
    Colors,
    spec_pack,
    lemma_pack_unpack,
    lemma_unpack_pack,
    lemma_channels_in_range,
    pack_to_argb,
};
use crate::image::{Image, buf_pixel, lemma_idx_bounds, lemma_idx_unique};
use crate::tools::get_index;

verus! {

/// One interpolated channel: pixel `i` of an axis of `n` pixels, between
/// channel values `c0` and `c1`, rounded to nearest (ties toward `c1`'s
/// side). A degenerate axis keeps `c0`.
pub open spec fn grad_channel(c0: int, c1: int, i: int, n: int) -> int {
    if n <= 1 {
        c0
    } else {
        (c0 * (n - 1 - i) + c1 * i + (n - 1) / 2) / (n - 1)
    }
}

/// The interpolated color at step `i` of `n`: each channel interpolated
/// between the endpoint colors; the alpha channel is interpolated only
/// when `interp_alpha` holds and is opaque otherwise.
pub open spec fn grad_color(cs: Color, ce: Color, i: int, n: int, interp_alpha: bool) -> Color {
    Color {
        value: spec_pack(
            grad_channel(cs.red() as int, ce.red() as int, i, n) as u32,
            grad_channel(cs.green() as int, ce.green() as int, i, n) as u32,
            grad_channel(cs.blue() as int, ce.blue() as int, i, n) as u32,
            if interp_alpha {
                grad_channel(cs.alpha() as int, ce.alpha() as int, i, n) as u32
            } else {
                255u32
            },
        ),
    }
}

/// An interpolated channel of byte-ranged endpoints is a byte.
pub proof fn lemma_grad_channel_in_range(c0: int, c1: int, i: int, n: int)
    requires
        0 <= c0 <= 255,
        0 <= c1 <= 255,
        0 <= i < n,
    ensures
        0 <= grad_channel(c0, c1, i, n) <= 255,
{
    if n > 1 {
        let m = n - 1;
        let num = c0 * (m - i) + c1 * i + m / 2;
        assert(0 <= num && num < 256 * m) by (nonlinear_arith)
            requires
                0 <= c0 <= 255,
                0 <= c1 <= 255,
                0 <= i <= m,
                m >= 1,
                num == c0 * (m - i) + c1 * i + m / 2,
                0 <= m / 2 < m,
        ;
        vstd::arithmetic::div_mod::lemma_div_pos_is_pos(num, m);
        vstd::arithmetic::div_mod::lemma_multiply_divide_lt(num, m, 256);
    }
}

/// Gradient endpoints: the first step reproduces `c0` exactly and the last
/// step reproduces `c1` exactly.
pub proof fn lemma_grad_channel_endpoints(c0: int, c1: int, n: int)
    requires
        0 <= c0 <= 255,
        0 <= c1 <= 255,
        n >= 1,
    ensures
        grad_channel(c0, c1, 0, n) == c0,
        n >= 2 ==> grad_channel(c0, c1, n - 1, n) == c1,
{
    if n > 1 {
        let m = n - 1;
        let h = m / 2;
        assert(0 <= h < m);
        assert(c0 * m + c1 * 0 + h == c0 * m + h);
        vstd::arithmetic::div_mod::lemma_fundamental_div_mod_converse_div(c0 * m + h, m, c0, h);
        assert(c0 * (m - m) + c1 * m + h == c1 * m + h) by (nonlinear_arith);
        vstd::arithmetic::div_mod::lemma_fundamental_div_mod_converse_div(c1 * m + h, m, c1, h);
    }
}

/// Gradient monotonicity: along the axis each channel moves toward the end
/// value and never back.
pub proof fn lemma_grad_channel_monotone(c0: int, c1: int, i: int, j: int, n: int)
    requires
        0 <= c0 <= 255,
        0 <= c1 <= 255,
        0 <= i <= j < n,
    ensures
        c0 <= c1 ==> grad_channel(c0, c1, i, n) <= grad_channel(c0, c1, j, n),
        c0 >= c1 ==> grad_channel(c0, c1, i, n) >= grad_channel(c0, c1, j, n),
{
    if n > 1 {
        let m = n - 1;
        let h = m / 2;
        let numi = c0 * (m - i) + c1 * i + h;
        let numj = c0 * (m - j) + c1 * j + h;
        assert(c0 <= c1 ==> numi <= numj) by (nonlinear_arith)
            requires
                0 <= i <= j <= m,
                numi == c0 * (m - i) + c1 * i + h,
                numj == c0 * (m - j) + c1 * j + h,
        ;
        assert(c0 >= c1 ==> numi >= numj) by (nonlinear_arith)
            requires
                0 <= i <= j <= m,
                numi == c0 * (m - i) + c1 * i + h,
                numj == c0 * (m - j) + c1 * j + h,
        ;
        if c0 <= c1 {
            vstd::arithmetic::div_mod::lemma_div_is_ordered(numi, numj, m);
        } else {
            vstd::arithmetic::div_mod::lemma_div_is_ordered(numj, numi, m);
        }
    }
}

/// The interpolated color at the first step is the start color (its alpha
/// too, when interpolated; forced opaque otherwise), and at the last step
/// the end color likewise.
pub proof fn lemma_grad_color_endpoints(cs: Color, ce: Color, n: int)
    requires
        n >= 1,
    ensures
        grad_color(cs, ce, 0, n, true) == cs,
        n >= 2 ==> grad_color(cs, ce, n - 1, n, true) == ce,
{
    lemma_channels_in_range(cs.value);
    lemma_channels_in_range(ce.value);
    lemma_grad_channel_endpoints(cs.red() as int, ce.red() as int, n);
    lemma_grad_channel_endpoints(cs.green() as int, ce.green() as int, n);
    lemma_grad_channel_endpoints(cs.blue() as int, ce.blue() as int, n);
    lemma_grad_channel_endpoints(cs.alpha() as int, ce.alpha() as int, n);
    lemma_unpack_pack(cs.value);
    lemma_unpack_pack(ce.value);
}

/// One interpolated channel, computed with exact 64-bit arithmetic.
fn lerp_channel(c0: u32, c1: u32, i: i32, n: i32) -> (r: u32)
    requires
        c0 <= 255,
        c1 <= 255,
        0 <= i < n,
    ensures
        r == grad_channel(c0 as int, c1 as int, i as int, n as int),
        r <= 255,
{
    proof {
        lemma_grad_channel_in_range(c0 as int, c1 as int, i as int, n as int);
    }
    if n <= 1 {
        c0
    } else {
        let m: u64 = (n - 1) as u64;
        let ii: u64 = i as u64;
        proof {
            assert(c0 as u64 * (m - ii) <= 255 * 0x8000_0000u64 && c1 as u64 * ii <= 255
                * 0x8000_0000u64) by (nonlinear_arith)
                requires
                    c0 <= 255,
                    c1 <= 255,
                    0 <= ii < m + 1,
                    m <= 0x8000_0000u64,
            ;
        }
        let num: u64 = c0 as u64 * (m - ii) + c1 as u64 * ii + m / 2;
        (num / m) as u32
    }
}

/// The interpolated color at step `i` of `n`.
fn lerp_color(cs: Color, ce: Color, i: i32, n: i32, interp_alpha: bool) -> (c: Color)
    requires
        0 <= i < n,
    ensures
        c == grad_color(cs, ce, i as int, n as int, interp_alpha),
{
    let (r0, g0, b0, a0) = cs.separate();
    let (r1, g1, b1, a1) = ce.separate();
    let r = lerp_channel(r0, r1, i, n);
    let g = lerp_channel(g0, g1, i, n);
    let b = lerp_channel(b0, b1, i, n);
    let a = if interp_alpha {
        lerp_channel(a0, a1, i, n)
    } else {
        255
    };
    proof {
        lemma_grad_channel_in_range(r0 as int, r1 as int, i as int, n as int);
        lemma_grad_channel_in_range(g0 as int, g1 as int, i as int, n as int);
        lemma_grad_channel_in_range(b0 as int, b1 as int, i as int, n as int);
        lemma_grad_channel_in_range(a0 as int, a1 as int, i as int, n as int);
    }
    Color { value: pack_to_argb(r, g, b, a) }
}

/// Fills `data` (a `width` by `height` row-major buffer) with a gradient
/// that varies row by row from `color_start` at row 0 to `color_end` at
/// the last row, interpolating all four channels.
pub fn create_horisontal_gradient(
    width: i32,
    height: i32,
    color_start: Color,
    color_end: Color,
    data: &mut Vec<Color>,
)
    requires
        width > 0,
        height > 0,
        old(data)@.len() == width * height,
    ensures
        final(data)@.len() == old(data)@.len(),
        forall|px: int, py: int|
            0 <= px < width && 0 <= py < height ==> buf_pixel(final(data)@, width as int, px, py) == grad_color(
                color_start,
                color_end,
                py,
                height as int,
                true,
            ),
{
    let mut y: i32 = 0;
    while y < height
        invariant
            width > 0,
            height > 0,
            data@.len() == width * height,
            0 <= y <= height,
            forall|px: int, py: int|
                0 <= px < width && 0 <= py < y ==> buf_pixel(data@, width as int, px, py) == grad_color(
                    color_start,
                    color_end,
                    py,
                    height as int,
                    true,
                ),
        decreases height - y,
    {
        let color = lerp_color(color_start, color_end, y, height, true);
        let mut x: i32 = 0;
        while x < width
            invariant
                width > 0,
                height > 0,
                data@.len() == width * height,
                0 <= y < height,
                0 <= x <= width,
                color == grad_color(color_start, color_end, y as int, height as int, true),
                forall|px: int, py: int|
                    0 <= px < width && 0 <= py < y ==> buf_pixel(data@, width as int, px, py) == grad_color(
                        color_start,
                        color_end,
                        py,
                        height as int,
                        true,
                    ),
                forall|px: int|
                    0 <= px < x ==> buf_pixel(data@, width as int, px, y as int) == grad_color(
                        color_start,
                        color_end,
                        y as int,
                        height as int,
                        true,
                    ),
            decreases width - x,
        {
            let _n: usize = data.len();
            proof {
                lemma_idx_bounds(x as int, y as int, width as int, height as int);
            }
            let i = get_index(x, y, width);
            let ghost prev = data@;
            data.set(i, color);
            proof {
                assert forall|px: int, py: int|
                    0 <= px < width && 0 <= py < y implies #[trigger] buf_pixel(data@, width as int, px, py)
                    == grad_color(color_start, color_end, py, height as int, true) by {
                    lemma_idx_bounds(px, py, width as int, height as int);
                    assert(buf_pixel(prev, width as int, px, py) == grad_color(
                        color_start,
                        color_end,
                        py,
                        height as int,
                        true,
                    ));
                    if py * width + px == y * width + x {
                        lemma_idx_unique(px, py, x as int, y as int, width as int);
                    }
                }
                assert forall|px: int| 0 <= px < x + 1 implies #[trigger] buf_pixel(data@, width as int, px, y as int) == grad_color(color_start, color_end, y as int, height as int, true) by {
                    lemma_idx_bounds(px, y as int, width as int, height as int);
                    if px < x {
                        assert(buf_pixel(prev, width as int, px, y as int) == grad_color(
                            color_start,
                            color_end,
                            y as int,
                            height as int,
                            true,
                        ));
                        if y * width + px == y * width + x {
                            lemma_idx_unique(px, y as int, x as int, y as int, width as int);
                        }
                    }
                }
            }
            x = x + 1;
        }
        y = y + 1;
    }
}

/// Fills `data` (a `width` by `height` row-major buffer) with a gradient
/// that varies column by column from `color_start` at column 0 to
/// `color_end` at the last column, with alpha forced to opaque.
pub fn create_vectical_gradient(
    width: i32,
    height: i32,
    color_start: Color,
    color_end: Color,
    data: &mut Vec<Color>,
)
    requires
        width > 0,
        height > 0,
        old(data)@.len() == width * height,
    ensures
        final(data)@.len() == old(data)@.len(),
        forall|px: int, py: int|
            0 <= px < width && 0 <= py < height ==> buf_pixel(final(data)@, width as int, px, py) == grad_color(
                color_start,
                color_end,
                px,
                width as int,
                false,
            ),
{
    let mut x: i32 = 0;
    while x < width
        invariant
            width > 0,
            height > 0,
            data@.len() == width * height,
            0 <= x <= width,
            forall|px: int, py: int|
                0 <= px < x && 0 <= py < height ==> buf_pixel(data@, width as int, px, py) == grad_color(
                    color_start,
                    color_end,
                    px,
                    width as int,
                    false,
                ),
        decreases width - x,
    {
        let color = lerp_color(color_start, color_end, x, width, false);
        let mut y: i32 = 0;
        while y < height
            invariant
                width > 0,
                height > 0,
                data@.len() == width * height,
                0 <= x < width,
                0 <= y <= height,
                color == grad_color(color_start, color_end, x as int, width as int, false),
                forall|px: int, py: int|
                    0 <= px < x && 0 <= py < height ==> buf_pixel(data@, width as int, px, py) == grad_color(
                        color_start,
                        color_end,
                        px,
                        width as int,
                        false,
                    ),
                forall|py: int|
                    0 <= py < y ==> buf_pixel(data@, width as int, x as int, py) == grad_color(
                        color_start,
                        color_end,
                        x as int,
                        width as int,
                        false,
                    ),
            decreases height - y,
        {
            let _n: usize = data.len();
            proof {
                lemma_idx_bounds(x as int, y as int, width as int, height as int);
            }
            let i = get_index(x, y, width);
            let ghost prev = data@;
            data.set(i, color);
            proof {
                assert forall|px: int, py: int|
                    0 <= px < x && 0 <= py < height implies #[trigger] buf_pixel(data@, width as int, px, py)
                    == grad_color(color_start, color_end, px, width as int, false) by {
                    lemma_idx_bounds(px, py, width as int, height as int);
                    assert(buf_pixel(prev, width as int, px, py) == grad_color(
                        color_start,
                        color_end,
                        px,
                        width as int,
                        false,
                    ));
                    if py * width + px == y * width + x {
                        lemma_idx_unique(px, py, x as int, y as int, width as int);
                    }
                }
                assert forall|py: int| 0 <= py < y + 1 implies #[trigger] buf_pixel(data@, width as int, x as int, py) == grad_color(color_start, color_end, x as int, width as int, false) by {
                    lemma_idx_bounds(x as int, py, width as int, height as int);
                    if py < y {
                        assert(buf_pixel(prev, width as int, x as int, py) == grad_color(
                            color_start,
                            color_end,
                            x as int,
                            width as int,
                            false,
                        ));
                        if py * width + x == y * width + x {
                            lemma_idx_unique(x as int, py, x as int, y as int, width as int);
                        }
                    }
                }
            }
            y = y + 1;
        }
        x = x + 1;
    }
}

impl Image {
    /// A `width` by `height` image holding a row-wise gradient from
    /// `color_start` (row 0) to `color_end` (last row).
    pub fn from_horisontal_gradient(
        width: i32,
        height: i32,
        color_start: Color,
        color_end: Color,
    ) -> (img: Image)
        requires
            width > 0,
            height > 0,
            width * height <= usize::MAX,
        ensures
            img.wf(),
            img.width == width,
            img.height == height,
            forall|px: int, py: int|
                0 <= px < width && 0 <= py < height ==> img.pixel(px, py) == grad_color(
                    color_start,
                    color_end,
                    py,
                    height as int,
                    true,
                ),
    {
        let mut img = Image::from_color(width, height, Color::from_u32(Colors::White.value()));
        create_horisontal_gradient(width, height, color_start, color_end, &mut img.color_data);
        proof {
            assert forall|px: int, py: int|
                0 <= px < width && 0 <= py < height implies #[trigger] img.pixel(px, py)
                == grad_color(color_start, color_end, py, height as int, true) by {
                assert(buf_pixel(img.color_data@, width as int, px, py) == grad_color(
                    color_start,
                    color_end,
                    py,
                    height as int,
                    true,
                ));
            }
        }
        img
    }

    /// A `width` by `height` image holding a column-wise gradient from
    /// `color_start` (column 0) to `color_end` (last column), opaque.
    pub fn from_vectical_gradient(
        width: i32,
        height: i32,
        color_start: Color,
        color_end: Color,
    ) -> (img: Image)
        requires
            width > 0,
            height > 0,
            width * height <= usize::MAX,
        ensures
            img.wf(),
            img.width == width,
            img.height == height,
            forall|px: int, py: int|
                0 <= px < width && 0 <= py < height ==> img.pixel(px, py) == grad_color(
                    color_start,
                    color_end,
                    px,
                    width as int,
                    false,
                ),
    {
        let mut img = Image::from_color(width, height, Color::from_u32(Colors::White.value()));
        create_vectical_gradient(width, height, color_start, color_end, &mut img.color_data);
        proof {
            assert forall|px: int, py: int|
                0 <= px < width && 0 <= py < height implies #[trigger] img.pixel(px, py)
                == grad_color(color_start, color_end, px, width as int, false) by {
                assert(buf_pixel(img.color_data@, width as int, px, py) == grad_color(
                    color_start,
                    color_end,
                    px,
                    width as int,
                    false,
                ));
            }
        }
        img
    }
}

} // verus!
