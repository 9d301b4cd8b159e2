//! Clipped rectangle fill. The requested rectangle is clamped against the
//! buffer on both axes independently; degenerate requests collapse to an
//! empty span. An opaque color takes a bulk per-scanline path that
//! overwrites pixels outright; a partially transparent color falls back to
//! per-pixel compositing; a fully transparent color is skipped entirely.

use vstd::prelude::*;
use crate::color::{Color, spec_pixel_over};
use crate::image::{Image, lemma_idx_bounds, lemma_idx_unique};
use crate::math::{max_i32, min_i32};
use crate::tools::get_index;

verus! {

/// An axis-aligned rectangle given by its top-left corner and extent.
#[derive(Clone, Copy, PartialEq, Eq, Structural, Debug)]
pub struct Rect {
    pub x: i32,
    pub y: i32,
    pub width: i32,
    pub height: i32,
}

/// The start of a span requested at `v`, clamped into `[0, hi]`.
pub open spec fn clip_low(v: int, hi: int) -> int {
    if v < 0 {
        0
    } else if v > hi {
        hi
    } else {
        v
    }
}

/// The exclusive end of a span from `v` of extent `e`, clamped so that it
/// never exceeds `hi` nor falls below the clamped start.
pub open spec fn clip_high(v: int, e: int, hi: int) -> int {
    let lo = clip_low(v, hi);
    let end = if v + e > hi {
        hi
    } else {
        v + e
    };
    if end < lo {
        lo
    } else {
        end
    }
}

/// The color of pixel `(px, py)` after a clipped rectangle fill over the
/// clipped spans `[sx, ex)` and `[sy, ey)`: an opaque color overwrites the
/// region, a partial alpha composites over it (the first row and column
/// stay untouched, the compositing primitive's edge policy), and alpha 0
/// changes nothing.
pub open spec fn rect_pixel(
    data: Seq<Color>,
    w: int,
    sx: int,
    ex: int,
    sy: int,
    ey: int,
    c: Color,
    px: int,
    py: int,
) -> Color {
    let inside = sx <= px < ex && sy <= py < ey;
    if c.alpha() == 255 && inside {
        c
    } else if 0 < c.alpha() < 255 && inside && px >= 1 && py >= 1 {
        spec_pixel_over(c, data[py * w + px])
    } else {
        data[py * w + px]
    }
}

impl Image {
    /// Overwrites the pixels `[x0, x1)` of row `y` with `color`.
    fn fill_row(&mut self, y: i32, x0: i32, x1: i32, color: Color)
        requires
            old(self).wf(),
            0 <= y < old(self).height,
            0 <= x0 <= x1 <= old(self).width,
        ensures
            final(self).wf(),
            final(self).width == old(self).width,
            final(self).height == old(self).height,
            forall|px: int, py: int|
                0 <= px < old(self).width && 0 <= py < old(self).height ==> final(self).pixel(
                    px,
                    py,
                ) == (if py == y && x0 <= px < x1 {
                    color
                } else {
                    old(self).pixel(px, py)
                }),
    {
        let ghost orig = *self;
        let w = self.width;
        let h = self.height;
        let mut x: i32 = x0;
        while x < x1
            invariant
                orig.wf(),
                self.wf(),
                self.width == orig.width,
                self.height == orig.height,
                w == orig.width,
                h == orig.height,
                0 <= y < h,
                0 <= x0 <= x <= x1 <= w,
                forall|px: int, py: int|
                    0 <= px < w && 0 <= py < h ==> self.pixel(px, py) == (if py == y && x0
                        <= px < x {
                        color
                    } else {
                        orig.pixel(px, py)
                    }),
            decreases x1 - x,
        {
            let _n: usize = self.color_data.len();
            proof {
                lemma_idx_bounds(x as int, y as int, w as int, h as int);
            }
            let i = get_index(x, y, w);
            let ghost prev = *self;
            self.color_data.set(i, color);
            proof {
                assert forall|px: int, py: int|
                    0 <= px < w && 0 <= py < h implies #[trigger] self.pixel(px, py) == (
                if py == y && x0 <= px < x + 1 {
                    color
                } else {
                    orig.pixel(px, py)
                }) by {
                    lemma_idx_bounds(px, py, w as int, h as int);
                    assert(prev.pixel(px, py) == (if py == y && x0 <= px < x {
                        color
                    } else {
                        orig.pixel(px, py)
                    }));
                    if !(py == y as int && px == x as int) && py * w + px == y * w + x {
                        lemma_idx_unique(px, py, x as int, y as int, w as int);
                    }
                }
            }
            x = x + 1;
        }
    }

    /// Composites `color` over the pixels `[x0, x1)` of row `y`, honoring
    /// the single-pixel primitive's clipping and edge policy.
    fn blend_row(&mut self, y: i32, x0: i32, x1: i32, color: Color)
        requires
            old(self).wf(),
            0 <= y < old(self).height,
            0 <= x0 <= x1 <= old(self).width,
        ensures
            final(self).wf(),
            final(self).width == old(self).width,
            final(self).height == old(self).height,
            forall|px: int, py: int|
                0 <= px < old(self).width && 0 <= py < old(self).height ==> final(self).pixel(
                    px,
                    py,
                ) == (if py == y && x0 <= px < x1 && px >= 1 && y >= 1 {
                    spec_pixel_over(color, old(self).pixel(px, py))
                } else {
                    old(self).pixel(px, py)
                }),
    {
        let ghost orig = *self;
        let w = self.width;
        let h = self.height;
        let mut x: i32 = x0;
        while x < x1
            invariant
                orig.wf(),
                self.wf(),
                self.width == orig.width,
                self.height == orig.height,
                w == orig.width,
                h == orig.height,
                0 <= y < h,
                0 <= x0 <= x <= x1 <= w,
                forall|px: int, py: int|
                    0 <= px < w && 0 <= py < h ==> self.pixel(px, py) == (if py == y && x0
                        <= px < x && px >= 1 && y >= 1 {
                        spec_pixel_over(color, orig.pixel(px, py))
                    } else {
                        orig.pixel(px, py)
                    }),
            decreases x1 - x,
        {
            let ghost prev = *self;
            self.plot_point(x, y, color);
            proof {
                if 1 <= x && 1 <= y {
                    lemma_idx_bounds(x as int, y as int, w as int, h as int);
                }
                assert forall|px: int, py: int|
                    0 <= px < w && 0 <= py < h implies #[trigger] self.pixel(px, py) == (
                if py == y && x0 <= px < x + 1 && px >= 1 && y >= 1 {
                    spec_pixel_over(color, orig.pixel(px, py))
                } else {
                    orig.pixel(px, py)
                }) by {
                    lemma_idx_bounds(px, py, w as int, h as int);
                    assert(prev.pixel(px, py) == (if py == y && x0 <= px < x && px >= 1 && y
                        >= 1 {
                        spec_pixel_over(color, orig.pixel(px, py))
                    } else {
                        orig.pixel(px, py)
                    }));
                    if !(py == y as int && px == x as int) && py * w + px == y * w + x {
                        lemma_idx_unique(px, py, x as int, y as int, w as int);
                    }
                }
            }
            x = x + 1;
        }
    }

    /// Fills the rectangle of extent `(rw, rh)` whose top-left corner is at
    /// `(x, y)`, clipped against the buffer, with `color`; see `rect_pixel`
    /// for the per-pixel result.
    pub fn draw_rect(&mut self, x: i32, y: i32, rw: i32, rh: i32, color: Color)
        requires
            old(self).wf(),
        ensures
            final(self).wf(),
            final(self).width == old(self).width,
            final(self).height == old(self).height,
            forall|px: int, py: int|
                0 <= px < old(self).width && 0 <= py < old(self).height ==> final(self).pixel(
                    px,
                    py,
                ) == rect_pixel(
                    old(self).color_data@,
                    old(self).width as int,
                    clip_low(x as int, old(self).width as int),
                    clip_high(x as int, rw as int, old(self).width as int),
                    clip_low(y as int, old(self).height as int),
                    clip_high(y as int, rh as int, old(self).height as int),
                    color,
                    px,
                    py,
                ),
    {
        let ghost orig = *self;
        let w = self.width;
        let h = self.height;
        let start_x = max_i32(0, min_i32(w, x));
        let start_y = max_i32(0, min_i32(h, y));
        let end_x_raw: i64 = x as i64 + rw as i64;
        let end_x: i32 = if end_x_raw > w as i64 {
            w
        } else if end_x_raw < start_x as i64 {
            start_x
        } else {
            end_x_raw as i32
        };
        let end_y_raw: i64 = y as i64 + rh as i64;
        let end_y: i32 = if end_y_raw > h as i64 {
            h
        } else if end_y_raw < start_y as i64 {
            start_y
        } else {
            end_y_raw as i32
        };
        proof {
            assert(start_x == clip_low(x as int, w as int));
            assert(start_y == clip_low(y as int, h as int));
            assert(end_x == clip_high(x as int, rw as int, w as int));
            assert(end_y == clip_high(y as int, rh as int, h as int));
        }
        let (_, _, _, alpha) = color.separate();
        if alpha == 0 {
            return ;
        }
        let mut yy: i32 = start_y;
        if alpha == 255 {
            while yy < end_y
                invariant
                    orig.wf(),
                    self.wf(),
                    self.width == orig.width,
                    self.height == orig.height,
                    w == orig.width,
                    h == orig.height,
                    color.alpha() == 255,
                    0 <= start_x <= end_x <= w,
                    0 <= start_y <= yy <= end_y <= h,
                    forall|px: int, py: int|
                        0 <= px < w && 0 <= py < h ==> self.pixel(px, py) == (if start_x
                            <= px < end_x && start_y <= py < yy {
                            color
                        } else {
                            orig.pixel(px, py)
                        }),
                decreases end_y - yy,
            {
                self.fill_row(yy, start_x, end_x, color);
                yy = yy + 1;
            }
        } else {
            while yy < end_y
                invariant
                    orig.wf(),
                    self.wf(),
                    self.width == orig.width,
                    self.height == orig.height,
                    w == orig.width,
                    h == orig.height,
                    0 < color.alpha() < 255,
                    0 <= start_x <= end_x <= w,
                    0 <= start_y <= yy <= end_y <= h,
                    forall|px: int, py: int|
                        0 <= px < w && 0 <= py < h ==> self.pixel(px, py) == (if start_x
                            <= px < end_x && start_y <= py < yy && px >= 1 && py >= 1 {
                            spec_pixel_over(color, orig.pixel(px, py))
                        } else {
                            orig.pixel(px, py)
                        }),
                decreases end_y - yy,
            {
                self.blend_row(yy, start_x, end_x, color);
                yy = yy + 1;
            }
        }
    }
}

} // verus!
