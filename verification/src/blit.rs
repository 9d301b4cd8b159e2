//! Sprites and sprite blitting: compositing one image onto another at an
//! integer position, clipped against the destination, with a three-way
//! per-pixel alpha classification (skip transparent pixels, overwrite with
//! opaque ones, composite the rest).

use vstd::prelude::*;
use crate::color::{Color, Colors, spec_pixel_over};
use crate::image::{Image, lemma_idx_bounds, lemma_idx_unique};
use crate::tools::get_index;

verus! {

/// The compositing layer a sprite belongs to.
#[derive(Clone, Copy, PartialEq, Eq, Structural, Debug)]
pub enum LayerID {
    Base,
    Background,
    Wave,
    GUI,
    Last,
}

/// A named, positioned, independently regenerable pixel buffer composited
/// into a larger scene buffer. Children are nested for grouping; the core
/// itself only ever blits one image into another.
pub struct Sprite {
    pub image: Image,
    pub pos_x: i32,
    pub pos_y: i32,
    pub need_update: bool,
    pub layer: LayerID,
    pub children: Vec<Sprite>,
}

impl Sprite {
    /// A sprite is well formed when its image is.
    pub open spec fn wf(self) -> bool {
        self.image.wf()
    }

    /// A fresh sprite holding an all-white image, marked for regeneration.
    pub fn new(pos_x: i32, pos_y: i32, width: i32, height: i32, layer: LayerID) -> (s: Sprite)
        requires
            width > 0,
            height > 0,
            width * height <= usize::MAX,
        ensures
            s.wf(),
            s.image.width == width,
            s.image.height == height,
            s.pos_x == pos_x,
            s.pos_y == pos_y,
            s.layer == layer,
            s.need_update == true,
            s.children@.len() == 0,
            forall|i: int|
                0 <= i < s.image.color_data@.len() ==> s.image.color_data@[i].value
                    == 0xFFFFFFFFu32,
    {
        Sprite {
            image: Image::from_color(width, height, Color::from_u32(Colors::White.value())),
            pos_x,
            pos_y,
            need_update: true,
            layer,
            children: Vec::new(),
        }
    }
}

/// The color of destination pixel `(px, py)` (inside the clipped region)
/// after blitting `src` at `(pos_x, pos_y)`: a fully transparent source
/// pixel leaves the destination, a fully opaque one replaces it, and a
/// partially transparent one is composited (subject to the single-pixel
/// primitive's policy of never writing the first row or column).
pub open spec fn blit_pixel(
    data: Seq<Color>,
    w: int,
    src: Image,
    pos_x: int,
    pos_y: int,
    px: int,
    py: int,
) -> Color {
    let s = src.pixel(px - pos_x, py - pos_y);
    if s.alpha() == 0 {
        data[py * w + px]
    } else if s.alpha() == 255 {
        s
    } else if px >= 1 && py >= 1 {
        spec_pixel_over(s, data[py * w + px])
    } else {
        data[py * w + px]
    }
}

impl Image {
    /// Blits one source row onto the pixels `[x0, x1)` of row `y`.
    fn blit_row(&mut self, src: &Image, pos_x: i32, pos_y: i32, y: i32, x0: i32, x1: i32)
        requires
            old(self).wf(),
            src.wf(),
            0 <= y < old(self).height,
            0 <= x0 <= x1 <= old(self).width,
            pos_x <= x0,
            x1 <= pos_x + src.width,
            pos_y <= y < pos_y + src.height,
        ensures
            final(self).wf(),
            final(self).width == old(self).width,
            final(self).height == old(self).height,
            forall|px: int, py: int|
                0 <= px < old(self).width && 0 <= py < old(self).height ==> final(self).pixel(
                    px,
                    py,
                ) == (if py == y && x0 <= px < x1 {
                    blit_pixel(
                        old(self).color_data@,
                        old(self).width as int,
                        *src,
                        pos_x as int,
                        pos_y as int,
                        px,
                        py,
                    )
                } else {
                    old(self).pixel(px, py)
                }),
    {
        let ghost orig = *self;
        let w = self.width;
        let h = self.height;
        let sw = src.width;
        let mut x: i32 = x0;
        while x < x1
            invariant
                orig.wf(),
                self.wf(),
                src.wf(),
                self.width == orig.width,
                self.height == orig.height,
                w == orig.width,
                h == orig.height,
                sw == src.width,
                0 <= y < h,
                0 <= x0 <= x <= x1 <= w,
                pos_x <= x0,
                x1 <= pos_x + src.width,
                pos_y <= y < pos_y + src.height,
                forall|px: int, py: int|
                    0 <= px < w && 0 <= py < h ==> self.pixel(px, py) == (if py == y && x0
                        <= px < x {
                        blit_pixel(
                            orig.color_data@,
                            w as int,
                            *src,
                            pos_x as int,
                            pos_y as int,
                            px,
                            py,
                        )
                    } else {
                        orig.pixel(px, py)
                    }),
            decreases x1 - x,
        {
            let _sn: usize = src.color_data.len();
            proof {
                lemma_idx_bounds(
                    x as int - pos_x as int,
                    y as int - pos_y as int,
                    src.width as int,
                    src.height as int,
                );
            }
            let source_offset = get_index(x - pos_x, y - pos_y, sw);
            let color = src.color_data[source_offset];
            let (_, _, _, fg_a) = color.separate();
            let ghost prev = *self;
            if fg_a == 0 {
                // a fully transparent source pixel is skipped
            } else if fg_a == 255 {
                let _n: usize = self.color_data.len();
                proof {
                    lemma_idx_bounds(x as int, y as int, w as int, h as int);
                }
                let dest_offset = get_index(x, y, w);
                self.color_data.set(dest_offset, color);
            } else {
                self.plot_point(x, y, color);
            }
            proof {
                if 1 <= x && 1 <= y {
                    lemma_idx_bounds(x as int, y as int, w as int, h as int);
                }
                assert forall|px: int, py: int|
                    0 <= px < w && 0 <= py < h implies #[trigger] self.pixel(px, py) == (
                if py == y && x0 <= px < x + 1 {
                    blit_pixel(
                        orig.color_data@,
                        w as int,
                        *src,
                        pos_x as int,
                        pos_y as int,
                        px,
                        py,
                    )
                } else {
                    orig.pixel(px, py)
                }) by {
                    lemma_idx_bounds(px, py, w as int, h as int);
                    assert(prev.pixel(px, py) == (if py == y && x0 <= px < x {
                        blit_pixel(
                            orig.color_data@,
                            w as int,
                            *src,
                            pos_x as int,
                            pos_y as int,
                            px,
                            py,
                        )
                    } else {
                        orig.pixel(px, py)
                    }));
                    if !(py == y as int && px == x as int) && py * w + px == y * w + x {
                        lemma_idx_unique(px, py, x as int, y as int, w as int);
                    }
                }
            }
            x = x + 1;
        }
    }

    /// Blits `sprite`'s image onto this one at the sprite's position,
    /// clipped against this buffer; see `blit_pixel` for the per-pixel
    /// result over the clipped spans.
    pub fn draw_bitmap(&mut self, sprite: &Sprite)
        requires
            old(self).wf(),
            sprite.wf(),
        ensures
            final(self).wf(),
            final(self).width == old(self).width,
            final(self).height == old(self).height,
            forall|px: int, py: int|
                0 <= px < old(self).width && 0 <= py < old(self).height ==> final(self).pixel(
                    px,
                    py,
                ) == ({
                    let sx = if sprite.pos_x > 0 {
                        sprite.pos_x as int
                    } else {
                        0
                    };
                    let sy = if sprite.pos_y > 0 {
                        sprite.pos_y as int
                    } else {
                        0
                    };
                    let ex = if sprite.pos_x + sprite.image.width < old(self).width {
                        sprite.pos_x + sprite.image.width
                    } else {
                        old(self).width as int
                    };
                    let ey = if sprite.pos_y + sprite.image.height < old(self).height {
                        sprite.pos_y + sprite.image.height
                    } else {
                        old(self).height as int
                    };
                    if sx <= px < ex && sy <= py < ey {
                        blit_pixel(
                            old(self).color_data@,
                            old(self).width as int,
                            sprite.image,
                            sprite.pos_x as int,
                            sprite.pos_y as int,
                            px,
                            py,
                        )
                    } else {
                        old(self).pixel(px, py)
                    }
                }),
    {
        let ghost orig = *self;
        let w = self.width;
        let h = self.height;
        let pos_x = sprite.pos_x;
        let pos_y = sprite.pos_y;
        let image = &sprite.image;
        let source_width = image.width;
        let source_height = image.height;

        let start_x: i32 = if pos_x > 0 {
            pos_x
        } else {
            0
        };
        let start_y: i32 = if pos_y > 0 {
            pos_y
        } else {
            0
        };
        let end_x_raw: i64 = pos_x as i64 + source_width as i64;
        let end_x: i32 = if end_x_raw < w as i64 {
            end_x_raw as i32
        } else {
            w
        };
        let end_y_raw: i64 = pos_y as i64 + source_height as i64;
        let end_y: i32 = if end_y_raw < h as i64 {
            end_y_raw as i32
        } else {
            h
        };
        if start_x >= end_x || start_y >= end_y {
            return ;
        }
        let mut y: i32 = start_y;
        while y < end_y
            invariant
                orig.wf(),
                self.wf(),
                sprite.wf(),
                self.width == orig.width,
                self.height == orig.height,
                w == orig.width,
                h == orig.height,
                pos_x == sprite.pos_x,
                pos_y == sprite.pos_y,
                image == &sprite.image,
                0 <= start_x < end_x <= w,
                0 <= start_y <= y <= end_y <= h,
                pos_x <= start_x,
                end_x <= pos_x + sprite.image.width,
                pos_y <= start_y,
                end_y <= pos_y + sprite.image.height,
                forall|px: int, py: int|
                    0 <= px < w && 0 <= py < h ==> self.pixel(px, py) == (if start_x <= px
                        < end_x && start_y <= py < y {
                        blit_pixel(
                            orig.color_data@,
                            w as int,
                            sprite.image,
                            pos_x as int,
                            pos_y as int,
                            px,
                            py,
                        )
                    } else {
                        orig.pixel(px, py)
                    }),
            decreases end_y - y,
        {
            let ghost prev = *self;
            self.blit_row(image, pos_x, pos_y, y, start_x, end_x);
            proof {
                assert forall|px: int, py: int|
                    0 <= px < w && 0 <= py < h implies #[trigger] self.pixel(px, py) == (
                if start_x <= px < end_x && start_y <= py < y + 1 {
                    blit_pixel(
                        orig.color_data@,
                        w as int,
                        sprite.image,
                        pos_x as int,
                        pos_y as int,
                        px,
                        py,
                    )
                } else {
                    orig.pixel(px, py)
                }) by {
                    assert(prev.pixel(px, py) == (if start_x <= px < end_x && start_y <= py
                        < y {
                        blit_pixel(
                            orig.color_data@,
                            w as int,
                            sprite.image,
                            pos_x as int,
                            pos_y as int,
                            px,
                            py,
                        )
                    } else {
                        orig.pixel(px, py)
                    }));
                    lemma_idx_bounds(px, py, w as int, h as int);
                }
            }
            y = y + 1;
        }
    }
}

} // verus!
