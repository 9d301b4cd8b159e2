//! Fixed-point line rasterization. The endpoints are integers; the
//! dominant axis (the one the line spans more pixels along) is stepped one
//! pixel per iteration, while the minor coordinate advances by a 16.16
//! fixed-point increment `(short << 16) / long` and is read back by a floor
//! division. Every visited pixel is composited through the single-pixel
//! primitive, so lines are implicitly clipped. After the scan the end point
//! itself is composited, so that both endpoints of a segment are always
//! plotted (in particular a zero-length segment still plots its point).

use vstd::prelude::*;
use crate::color::Color;
use crate::image::{Image, lemma_idx_bounds, lemma_idx_unique, plot_spec};
use crate::math::{iabs, tdiv};
use crate::tools::change_bytes;

verus! {

/// Whether the line from `(x1, y1)` to `(x2, y2)` spans more pixels
/// vertically than horizontally.
pub open spec fn line_y_longer(x1: int, y1: int, x2: int, y2: int) -> bool {
    iabs(y2 - y1) > iabs(x2 - x1)
}

/// The signed extent of the line along its dominant axis.
pub open spec fn line_long(x1: int, y1: int, x2: int, y2: int) -> int {
    if line_y_longer(x1, y1, x2, y2) {
        y2 - y1
    } else {
        x2 - x1
    }
}

/// The signed extent of the line along its minor axis.
pub open spec fn line_short(x1: int, y1: int, x2: int, y2: int) -> int {
    if line_y_longer(x1, y1, x2, y2) {
        x2 - x1
    } else {
        y2 - y1
    }
}

/// The number of scan iterations: one per pixel of the dominant extent.
pub open spec fn line_steps(x1: int, y1: int, x2: int, y2: int) -> int {
    iabs(line_long(x1, y1, x2, y2))
}

/// The per-iteration step (1 or -1) along the dominant axis.
pub open spec fn line_inc(x1: int, y1: int, x2: int, y2: int) -> int {
    if line_long(x1, y1, x2, y2) < 0 {
        -1
    } else {
        1
    }
}

/// The 16.16 fixed-point minor-axis increment per dominant-axis step,
/// truncated toward zero as the machine division does; zero for a
/// zero-length line.
pub open spec fn line_dec_inc(x1: int, y1: int, x2: int, y2: int) -> int {
    let ll = line_steps(x1, y1, x2, y2);
    if ll == 0 {
        0
    } else {
        tdiv(line_short(x1, y1, x2, y2) * 65536, ll)
    }
}

/// The pixel visited by scan iteration `k`: the dominant coordinate has
/// advanced `k` steps and the minor coordinate is the floor of the
/// accumulated fixed-point offset.
pub open spec fn line_pt(x1: int, y1: int, x2: int, y2: int, k: int) -> (int, int) {
    let j = k * line_dec_inc(x1, y1, x2, y2);
    let major_off = k * line_inc(x1, y1, x2, y2);
    if line_y_longer(x1, y1, x2, y2) {
        (x1 + j / 65536, y1 + major_off)
    } else {
        (x1 + major_off, y1 + j / 65536)
    }
}

/// Whether some scan iteration (not counting the final endpoint plot)
/// visits the pixel `(px, py)`.
pub open spec fn line_hits(x1: int, y1: int, x2: int, y2: int, px: int, py: int) -> bool {
    exists|k: int|
        0 <= k < line_steps(x1, y1, x2, y2) && #[trigger] line_pt(x1, y1, x2, y2, k) == (px, py)
}

/// The buffer after the first `k` scan iterations of the line.
pub open spec fn line_fold(
    data: Seq<Color>,
    w: int,
    h: int,
    x1: int,
    y1: int,
    x2: int,
    y2: int,
    c: Color,
    k: nat,
) -> Seq<Color>
    decreases k,
{
    if k == 0 {
        data
    } else {
        let prev = line_fold(data, w, h, x1, y1, x2, y2, c, (k - 1) as nat);
        let p = line_pt(x1, y1, x2, y2, k - 1);
        plot_spec(prev, w, h, p.0, p.1, c)
    }
}

/// The buffer after drawing the whole line: all scan iterations, then the
/// end point itself.
pub open spec fn draw_line_spec(
    data: Seq<Color>,
    w: int,
    h: int,
    x1: int,
    y1: int,
    x2: int,
    y2: int,
    c: Color,
) -> Seq<Color> {
    plot_spec(
        line_fold(data, w, h, x1, y1, x2, y2, c, line_steps(x1, y1, x2, y2) as nat),
        w,
        h,
        x2,
        y2,
        c,
    )
}

/// The alpha byte for a bilinear coverage cell: the product of the two
/// 16.16 fixed-point weights, scaled to the byte range, truncating.
pub open spec fn aa_alpha(wx: int, wy: int) -> int {
    (wx * wy * 255) / 0x1_0000_0000
}

/// `c` with its alpha byte replaced by the coverage alpha of the weights.
pub open spec fn aa_color(c: Color, wx: int, wy: int) -> Color {
    Color { value: (c.value & !(0xFFu32 << 24)) | ((aa_alpha(wx, wy) as u32) << 24) }
}

/// The buffer after an antialiased splat at the 16.16 fixed-point position
/// `(x, y)`: bilinear coverage weights composited onto the four
/// neighboring integer pixels, row by row.
pub open spec fn plot_aa_spec(
    data: Seq<Color>,
    w: int,
    h: int,
    x: int,
    y: int,
    c: Color,
) -> Seq<Color> {
    let x0 = x / 65536;
    let y0 = y / 65536;
    let fx = x - x0 * 65536;
    let fy = y - y0 * 65536;
    let d1 = plot_spec(data, w, h, x0, y0, aa_color(c, 65536 - fx, 65536 - fy));
    let d2 = plot_spec(d1, w, h, x0 + 1, y0, aa_color(c, fx, 65536 - fy));
    let d3 = plot_spec(d2, w, h, x0, y0 + 1, aa_color(c, 65536 - fx, fy));
    plot_spec(d3, w, h, x0 + 1, y0 + 1, aa_color(c, fx, fy))
}

/// One coverage-weighted color, computed in 64-bit integers.
fn aa_color_exec(c: Color, wx: i64, wy: i64) -> (r: Color)
    requires
        0 <= wx <= 65536,
        0 <= wy <= 65536,
    ensures
        r == aa_color(c, wx as int, wy as int),
{
    proof {
        assert(0 <= wx * wy <= 0x1_0000_0000int) by (nonlinear_arith)
            requires
                0 <= wx <= 65536,
                0 <= wy <= 65536,
        ;
    }
    let a: i64 = (wx * wy * 255) / 0x1_0000_0000;
    let new_value = change_bytes(c.value, 3, a as u32);
    Color { value: new_value }
}

/// Floor division of a 16.16 fixed-point value by the scale, as the
/// arithmetic right shift of the scan algorithm computes it.
fn floor_div_65536(j: i64) -> (q: i64)
    requires
        -0x1000_0000_0000_0000 <= j <= 0x1000_0000_0000_0000,
    ensures
        q == j as int / 65536,
{
    if j >= 0 {
        j / 65536
    } else {
        let m: i64 = (-j + 65535) / 65536;
        proof {
            let q0 = j as int / 65536;
            let r0 = j as int % 65536;
            vstd::arithmetic::div_mod::lemma_fundamental_div_mod(j as int, 65536);
            assert(-(j as int) + 65535 == (-q0) * 65536 + (65535 - r0));
            vstd::arithmetic::div_mod::lemma_fundamental_div_mod_converse_div(
                -(j as int) + 65535,
                65536,
                -q0,
                65535 - r0,
            );
        }
        -m
    }
}

/// The accumulated fixed-point offset never exceeds the minor extent
/// scaled by 65536, so the accumulator stays far from overflow.
proof fn lemma_j_bound(short: int, ll: int, dec: int, k: int)
    requires
        ll >= 1,
        0 <= k <= ll,
        dec == tdiv(short * 65536, ll),
        iabs(short) <= 0x1_0000_0000,
    ensures
        iabs(k * dec) <= iabs(short) * 65536,
{
    let a = short * 65536;
    let q = iabs(short) * 65536 / ll;
    assert(iabs(a) == iabs(short) * 65536) by (nonlinear_arith)
        requires
            a == short * 65536,
    ;
    assert(iabs(dec) == q);
    vstd::arithmetic::div_mod::lemma_fundamental_div_mod(iabs(short) * 65536, ll);
    vstd::arithmetic::div_mod::lemma_mod_division_less_than_divisor(iabs(short) * 65536, ll);
    assert(ll * q <= iabs(short) * 65536);
    assert(iabs(k * dec) == k * iabs(dec)) by (nonlinear_arith)
        requires
            k >= 0,
    ;
    assert(k * q <= ll * q) by (nonlinear_arith)
        requires
            0 <= k <= ll,
            q >= 0,
    ;
    vstd::arithmetic::div_mod::lemma_div_pos_is_pos(iabs(short) * 65536, ll);
}

impl Image {
    /// Composites one pixel given in wide coordinates; coordinates outside
    /// the 32-bit range are necessarily outside the buffer and are dropped,
    /// exactly as `plot_spec` says.
    fn plot_point_wide(&mut self, x: i64, y: i64, color: Color)
        requires
            old(self).wf(),
        ensures
            final(self).wf(),
            final(self).width == old(self).width,
            final(self).height == old(self).height,
            final(self).color_data@ == plot_spec(
                old(self).color_data@,
                old(self).width as int,
                old(self).height as int,
                x as int,
                y as int,
                color,
            ),
    {
        if x >= 1 && y >= 1 && x < self.width as i64 && y < self.height as i64 {
            self.plot_point(x as i32, y as i32, color);
        }
    }

    /// Draws the line from `(x1, y1)` to `(x2, y2)` in `color`, using the
    /// fixed-point scan described by `draw_line_spec`. Out-of-bounds pixels
    /// are silently dropped, so lines are implicitly clipped. On an
    /// opaque color, both endpoints that lie in the writable region carry
    /// the color afterwards, and pixels the scan never visits are
    /// untouched.
    pub fn draw_line(&mut self, x1: i32, y1: i32, x2: i32, y2: i32, color: Color)
        requires
            old(self).wf(),
        ensures
            final(self).wf(),
            final(self).width == old(self).width,
            final(self).height == old(self).height,
            final(self).color_data@ == draw_line_spec(
                old(self).color_data@,
                old(self).width as int,
                old(self).height as int,
                x1 as int,
                y1 as int,
                x2 as int,
                y2 as int,
                color,
            ),
            color.alpha() == 255 && 1 <= x2 < old(self).width && 1 <= y2 < old(self).height
                ==> final(self).pixel(x2 as int, y2 as int) == color,
            color.alpha() == 255 && 1 <= x1 < old(self).width && 1 <= y1 < old(self).height
                ==> final(self).pixel(x1 as int, y1 as int) == color,
            forall|px: int, py: int|
                0 <= px < old(self).width && 0 <= py < old(self).height && !line_hits(
                    x1 as int,
                    y1 as int,
                    x2 as int,
                    y2 as int,
                    px,
                    py,
                ) && !(px == x2 && py == y2) ==> final(self).pixel(px, py) == old(self).pixel(
                    px,
                    py,
                ),
    {
        let ghost orig = *self;
        let ghost gx1 = x1 as int;
        let ghost gy1 = y1 as int;
        let ghost gx2 = x2 as int;
        let ghost gy2 = y2 as int;
        let w = self.width;
        let h = self.height;
        let mut short_len: i64 = y2 as i64 - y1 as i64;
        let mut long_len: i64 = x2 as i64 - x1 as i64;
        let short_abs: i64 = if short_len < 0 {
            -short_len
        } else {
            short_len
        };
        let long_abs: i64 = if long_len < 0 {
            -long_len
        } else {
            long_len
        };
        let y_longer: bool = short_abs > long_abs;
        if y_longer {
            let tmp = short_len;
            short_len = long_len;
            long_len = tmp;
        }
        let long_neg: bool = long_len < 0;
        let ll: i64 = if long_len < 0 {
            -long_len
        } else {
            long_len
        };
        let dec_inc: i64 = if ll == 0 {
            0
        } else {
            (short_len * 65536) / ll
        };
        proof {
            assert(y_longer == line_y_longer(gx1, gy1, gx2, gy2));
            assert(long_len == line_long(gx1, gy1, gx2, gy2));
            assert(short_len == line_short(gx1, gy1, gx2, gy2));
            assert(ll == line_steps(gx1, gy1, gx2, gy2));
            assert(dec_inc == line_dec_inc(gx1, gy1, gx2, gy2));
        }
        let mut k: i64 = 0;
        while k < ll
            invariant
                orig.wf(),
                self.wf(),
                self.width == orig.width,
                self.height == orig.height,
                w == orig.width,
                h == orig.height,
                0 <= k <= ll,
                gx1 == x1 as int && gy1 == y1 as int && gx2 == x2 as int && gy2 == y2 as int,
                y_longer == line_y_longer(gx1, gy1, gx2, gy2),
                long_neg <==> line_long(gx1, gy1, gx2, gy2) < 0,
                short_len == line_short(gx1, gy1, gx2, gy2),
                ll == line_steps(gx1, gy1, gx2, gy2),
                dec_inc == line_dec_inc(gx1, gy1, gx2, gy2),
                iabs(short_len as int) <= 0x1_0000_0000,
                self.color_data@ == line_fold(
                    orig.color_data@,
                    w as int,
                    h as int,
                    gx1,
                    gy1,
                    gx2,
                    gy2,
                    color,
                    k as nat,
                ),
                (k >= 1 && color.alpha() == 255 && 1 <= gx1 < w && 1 <= gy1 < h) ==> self.pixel(
                    gx1,
                    gy1,
                ) == color,
                forall|px: int, py: int|
                    0 <= px < w && 0 <= py < h && !(exists|k2: int|
                        0 <= k2 < k && #[trigger] line_pt(gx1, gy1, gx2, gy2, k2) == (px, py))
                        ==> self.pixel(px, py) == orig.pixel(px, py),
            decreases ll - k,
        {
            proof {
                lemma_j_bound(short_len as int, ll as int, dec_inc as int, k as int);
            }
            let j: i64 = k * dec_inc;
            let jq: i64 = floor_div_65536(j);
            let major_off: i64 = if long_neg {
                -k
            } else {
                k
            };
            let mx: i64;
            let my: i64;
            if y_longer {
                mx = x1 as i64 + jq;
                my = y1 as i64 + major_off;
            } else {
                mx = x1 as i64 + major_off;
                my = y1 as i64 + jq;
            }
            proof {
                assert(major_off == k * line_inc(gx1, gy1, gx2, gy2));
                assert((mx as int, my as int) == line_pt(gx1, gy1, gx2, gy2, k as int));
            }
            let ghost prev = *self;
            self.plot_point_wide(mx, my, color);
            proof {
                let ghost kk = k as int;
                let ghost p = line_pt(gx1, gy1, gx2, gy2, kk);
                assert(self.color_data@ == line_fold(
                    orig.color_data@,
                    w as int,
                    h as int,
                    gx1,
                    gy1,
                    gx2,
                    gy2,
                    color,
                    (kk + 1) as nat,
                ));
                // the start pixel: set by iteration 0, never revisited
                if color.alpha() == 255 && 1 <= gx1 < w && 1 <= gy1 < h {
                    if kk == 0 {
                        assert(p == (gx1, gy1));
                        lemma_idx_bounds(gx1, gy1, w as int, h as int);
                    } else {
                        assert(p.0 == mx as int && p.1 == my as int);
                        if 1 <= (mx as int) && (mx as int) < w && 1 <= (my as int) && (my as int) < h {
                            lemma_idx_bounds(mx as int, my as int, w as int, h as int);
                            lemma_idx_bounds(gx1, gy1, w as int, h as int);
                            if my as int * w + mx as int == gy1 * w + gx1 {
                                lemma_idx_unique(mx as int, my as int, gx1, gy1, w as int);
                                assert(major_off != 0);
                                assert(false);
                            }
                        }
                    }
                }
                assert forall|px: int, py: int|
                    0 <= px < w && 0 <= py < h && !(exists|k2: int|
                        0 <= k2 < kk + 1 && #[trigger] line_pt(gx1, gy1, gx2, gy2, k2) == (
                        px,
                        py,
                        )) implies self.pixel(px, py) == orig.pixel(px, py) by {
                    assert(!(exists|k2: int|
                        0 <= k2 < kk && line_pt(gx1, gy1, gx2, gy2, k2) == (px, py)));
                    assert(prev.pixel(px, py) == orig.pixel(px, py));
                    assert(line_pt(gx1, gy1, gx2, gy2, kk) != (px, py));
                    lemma_idx_bounds(px, py, w as int, h as int);
                    assert(self.color_data@ == plot_spec(
                        prev.color_data@,
                        w as int,
                        h as int,
                        mx as int,
                        my as int,
                        color,
                    ));
                    if 1 <= (mx as int) && (mx as int) < w && 1 <= (my as int) && (my as int) < h {
                        lemma_idx_bounds(mx as int, my as int, w as int, h as int);
                        if my as int * w + mx as int == py * w + px {
                            lemma_idx_unique(mx as int, my as int, px, py, w as int);
                        }
                        assert(my as int * w + mx as int != py * w + px);
                        assert(self.color_data@ == prev.color_data@.update(
                            my as int * w + mx as int,
                            crate::color::spec_pixel_over(
                                color,
                                prev.color_data@[my as int * w + mx as int],
                            ),
                        ));
                        assert(self.color_data@[py * w + px] == prev.color_data@[py * w + px]);
                    } else {
                        assert(self.color_data@ == prev.color_data@);
                    }
                    assert(self.pixel(px, py) == prev.pixel(px, py));
                }
            }
            k = k + 1;
        }
        let ghost prev = *self;
        self.plot_point_wide(x2 as i64, y2 as i64, color);
        proof {
            assert(self.color_data@ == draw_line_spec(
                orig.color_data@,
                w as int,
                h as int,
                gx1,
                gy1,
                gx2,
                gy2,
                color,
            ));
            if color.alpha() == 255 && 1 <= gx2 < w && 1 <= gy2 < h {
                lemma_idx_bounds(gx2, gy2, w as int, h as int);
            }
            if color.alpha() == 255 && 1 <= gx1 < w && 1 <= gy1 < h {
                lemma_idx_bounds(gx1, gy1, w as int, h as int);
                if gx1 == gx2 && gy1 == gy2 {
                } else {
                    if ll == 0 {
                        // a zero dominant extent forces equal endpoints
                        assert(iabs(gx2 - gx1) <= iabs(line_long(gx1, gy1, gx2, gy2)));
                        assert(iabs(gy2 - gy1) <= iabs(line_long(gx1, gy1, gx2, gy2)));
                        assert(false);
                    }
                    if 1 <= gx2 < w && 1 <= gy2 < h {
                        if gy2 * w + gx2 == gy1 * w + gx1 {
                            lemma_idx_unique(gx2, gy2, gx1, gy1, w as int);
                            assert(false);
                        }
                    }
                }
            }
            assert forall|px: int, py: int|
                0 <= px < w && 0 <= py < h && !line_hits(gx1, gy1, gx2, gy2, px, py) && !(px
                == gx2 && py == gy2) implies self.pixel(px, py) == orig.pixel(px, py) by {
                assert(prev.pixel(px, py) == orig.pixel(px, py));
                lemma_idx_bounds(px, py, w as int, h as int);
                if 1 <= gx2 < w && 1 <= gy2 < h {
                    lemma_idx_bounds(gx2, gy2, w as int, h as int);
                    if gy2 * w + gx2 == py * w + px {
                        lemma_idx_unique(gx2, gy2, px, py, w as int);
                    }
                    assert(gy2 * w + gx2 != py * w + px);
                    assert(self.color_data@ == prev.color_data@.update(
                        gy2 * w + gx2,
                        crate::color::spec_pixel_over(color, prev.color_data@[gy2 * w + gx2]),
                    ));
                    assert(self.color_data@[py * w + px] == prev.color_data@[py * w + px]);
                } else {
                    assert(self.color_data@ == prev.color_data@);
                }
                assert(self.pixel(px, py) == prev.pixel(px, py));
            }
        }
    }

    /// Splats `color` at a fractional position given in 16.16 fixed-point
    /// coordinates: bilinear coverage is distributed over the four
    /// neighboring integer pixels, each weighted write compositing the
    /// color with its alpha byte replaced by the coverage fraction. This
    /// is the antialiased alternative to plotting a single pixel.
    pub fn plot_aa(&mut self, x: i64, y: i64, color: Color)
        requires
            old(self).wf(),
            -0x1000_0000_0000_0000 <= x <= 0x1000_0000_0000_0000,
            -0x1000_0000_0000_0000 <= y <= 0x1000_0000_0000_0000,
        ensures
            final(self).wf(),
            final(self).width == old(self).width,
            final(self).height == old(self).height,
            final(self).color_data@ == plot_aa_spec(
                old(self).color_data@,
                old(self).width as int,
                old(self).height as int,
                x as int,
                y as int,
                color,
            ),
    {
        let x0: i64 = floor_div_65536(x);
        let y0: i64 = floor_div_65536(y);
        let fx: i64 = x - x0 * 65536;
        let fy: i64 = y - y0 * 65536;
        proof {
            vstd::arithmetic::div_mod::lemma_fundamental_div_mod(x as int, 65536);
            vstd::arithmetic::div_mod::lemma_mod_division_less_than_divisor(x as int, 65536);
            vstd::arithmetic::div_mod::lemma_fundamental_div_mod(y as int, 65536);
            vstd::arithmetic::div_mod::lemma_mod_division_less_than_divisor(y as int, 65536);
            vstd::arithmetic::div_mod::lemma_mod_bound(x as int, 65536);
            vstd::arithmetic::div_mod::lemma_mod_bound(y as int, 65536);
        }
        let c00 = aa_color_exec(color, 65536 - fx, 65536 - fy);
        let c10 = aa_color_exec(color, fx, 65536 - fy);
        let c01 = aa_color_exec(color, 65536 - fx, fy);
        let c11 = aa_color_exec(color, fx, fy);
        self.plot_point_wide(x0, y0, c00);
        self.plot_point_wide(x0 + 1, y0, c10);
        self.plot_point_wide(x0, y0 + 1, c01);
        self.plot_point_wide(x0 + 1, y0 + 1, c11);
    }

    /// Draws the axis-aligned rectangle outline with corners `(x0, y0)` and
    /// `(x1, y1)`: its left, bottom, right and top edges as four lines, in
    /// that order.
    pub fn plot_square(&mut self, x0: i32, y0: i32, x1: i32, y1: i32, color: Color)
        requires
            old(self).wf(),
        ensures
            final(self).wf(),
            final(self).width == old(self).width,
            final(self).height == old(self).height,
            final(self).color_data@ == ({
                let w = old(self).width as int;
                let h = old(self).height as int;
                let d1 = draw_line_spec(
                    old(self).color_data@,
                    w,
                    h,
                    x0 as int,
                    y0 as int,
                    x0 as int,
                    y1 as int,
                    color,
                );
                let d2 = draw_line_spec(d1, w, h, x0 as int, y1 as int, x1 as int, y1 as int, color);
                let d3 = draw_line_spec(d2, w, h, x1 as int, y1 as int, x1 as int, y0 as int, color);
                draw_line_spec(d3, w, h, x1 as int, y0 as int, x0 as int, y0 as int, color)
            }),
    {
        self.draw_line(x0, y0, x0, y1, color);
        self.draw_line(x0, y1, x1, y1, color);
        self.draw_line(x1, y1, x1, y0, color);
        self.draw_line(x1, y0, x0, y0, color);
    }
}

} // verus!
