//! The owned pixel buffer: a row-major array of colors with fixed
//! dimensions, bulk fill, and the single-pixel compositing primitive that
//! every drawing operation funnels through.

use vstd::prelude::*;
use crate::color::{Color, Colors, pixel_over, spec_pixel_over};
use crate::tools::get_index;

verus! {

/// Row-major index bounds: a pixel inside the rectangle lies inside the
/// buffer.
pub proof fn lemma_idx_bounds(x: int, y: int, w: int, h: int)
    requires
        0 <= x < w,
        0 <= y < h,
    ensures
        0 <= y * w + x < w * h,
{
    assert(0 <= y * w + x < w * h) by (nonlinear_arith)
        requires
            0 <= x < w,
            0 <= y < h,
    ;
}

/// Row-major indexing is injective: two in-row-range columns with the same
/// flat index agree on both coordinates.
pub proof fn lemma_idx_unique(x1: int, y1: int, x2: int, y2: int, w: int)
    requires
        0 <= x1 < w,
        0 <= x2 < w,
        y1 * w + x1 == y2 * w + x2,
    ensures
        x1 == x2,
        y1 == y2,
{
    assert(x1 == x2 && y1 == y2) by (nonlinear_arith)
        requires
            0 <= x1 < w,
            0 <= x2 < w,
            y1 * w + x1 == y2 * w + x2,
    ;
}

/// The buffer contents after compositing `c` over the pixel at `(x, y)` of
/// a `w` by `h` buffer. Writes are confined to `1 <= x < w` and
/// `1 <= y < h`: coordinates outside the buffer are dropped (drawing is
/// silently clipped), and so are the first row and column, the edge policy
/// of this primitive.
pub open spec fn plot_spec(data: Seq<Color>, w: int, h: int, x: int, y: int, c: Color) -> Seq<
    Color,
> {
    if 1 <= x < w && 1 <= y < h {
        data.update(y * w + x, spec_pixel_over(c, data[y * w + x]))
    } else {
        data
    }
}

/// The header of a Windows bitmap file, field for field.
#[derive(Clone, Copy, PartialEq, Eq, Structural, Debug)]
pub struct BitmapHeader {
    pub file_t_ype: u16,
    pub file_size: u32,
    pub reserved1: u16,
    pub reserved2: u16,
    pub bitmap_offset: u32,
    pub size: u32,
    pub width: i32,
    pub height: i32,
    pub planes: u16,
    pub bits_per_pixel: u16,
    pub compression: u32,
    pub size_of_bitmap: u32,
    pub horz_resolution: i32,
    pub vert_resolution: i32,
    pub colors_used: u32,
    pub colors_important: u32,
    pub red_mask: u32,
    pub green_mask: u32,
    pub blue_mask: u32,
}

/// The pixel at `(x, y)` of a bare row-major buffer of row length `w`.
pub open spec fn buf_pixel(data: Seq<Color>, w: int, x: int, y: int) -> Color {
    data[y * w + x]
}

/// An owned image: a row-major pixel buffer of `width * height` colors.
pub struct Image {
    pub width: i32,
    pub height: i32,
    pub color_data: Vec<Color>,
}

impl Image {
    /// Well-formedness: non-negative dimensions and a buffer of exactly
    /// `width * height` pixels.
    pub open spec fn wf(self) -> bool {
        &&& 0 <= self.width
        &&& 0 <= self.height
        &&& self.color_data@.len() == self.width * self.height
    }

    /// The color of the pixel at `(x, y)`.
    pub open spec fn pixel(self, x: int, y: int) -> Color {
        self.color_data@[y * self.width + x]
    }

    /// An image whose pixels all hold the fully transparent sentinel color.
    pub fn new(width: i32, height: i32) -> (img: Image)
        requires
            width > 0,
            height > 0,
            width * height <= usize::MAX,
        ensures
            img.wf(),
            img.width == width,
            img.height == height,
            forall|i: int| 0 <= i < img.color_data@.len() ==> img.color_data@[i].value == 0,
    {
        Image::from_color(width, height, Color::from_u32(Colors::Empty.value()))
    }

    /// An image whose pixels all hold `color`.
    pub fn from_color(width: i32, height: i32, color: Color) -> (img: Image)
        requires
            width > 0,
            height > 0,
            width * height <= usize::MAX,
        ensures
            img.wf(),
            img.width == width,
            img.height == height,
            img.color_data@ == Seq::new((width * height) as nat, |i: int| color),
    {
        proof {
            assert(0 <= width * height < 0x4000_0000_0000_0000int) by (nonlinear_arith)
                requires
                    0 < width < 0x8000_0000int,
                    0 < height < 0x8000_0000int,
            ;
        }
        let n: usize = (width as i64 * height as i64) as usize;
        let mut data: Vec<Color> = Vec::new();
        let mut i: usize = 0;
        while i < n
            invariant
                i <= n,
                data@.len() == i,
                forall|j: int| 0 <= j < i ==> data@[j] == color,
            decreases n - i,
        {
            data.push(color);
            i = i + 1;
        }
        let img = Image { width, height, color_data: data };
        proof {
            assert(img.color_data@ =~= Seq::new((width * height) as nat, |i: int| color));
        }
        img
    }

    /// Wraps an existing pixel array; the caller guarantees that it holds
    /// exactly `width * height` pixels.
    pub fn from_data(width: i32, height: i32, data: Vec<Color>) -> (img: Image)
        requires
            width > 0,
            height > 0,
            data@.len() == width * height,
        ensures
            img.wf(),
            img.width == width,
            img.height == height,
            img.color_data@ == data@,
    {
        Image { width, height, color_data: data }
    }

    /// Reads the pixel at `(x, y)`.
    pub fn get_pixel(&self, x: i32, y: i32) -> (c: Color)
        requires
            self.wf(),
            0 <= x < self.width,
            0 <= y < self.height,
        ensures
            c == self.pixel(x as int, y as int),
    {
        let n: usize = self.color_data.len();
        proof {
            lemma_idx_bounds(x as int, y as int, self.width as int, self.height as int);
        }
        let i = get_index(x, y, self.width);
        self.color_data[i]
    }

    /// Overwrites every pixel with `color`.
    pub fn fill(&mut self, color: Color)
        requires
            old(self).wf(),
        ensures
            final(self).wf(),
            final(self).width == old(self).width,
            final(self).height == old(self).height,
            final(self).color_data@ == Seq::new(old(self).color_data@.len(), |i: int| color),
    {
        let n: usize = self.color_data.len();
        let ghost w = self.width;
        let ghost h = self.height;
        let mut i: usize = 0;
        while i < n
            invariant
                i <= n,
                self.color_data@.len() == n,
                self.width == w,
                self.height == h,
                forall|j: int| 0 <= j < i ==> self.color_data@[j] == color,
            decreases n - i,
        {
            self.color_data.set(i, color);
            i = i + 1;
        }
        proof {
            assert(self.color_data@ =~= Seq::new(old(self).color_data@.len(), |i: int| color));
        }
    }

    /// Overwrites every pixel with the fully transparent sentinel color.
    pub fn clear(&mut self)
        requires
            old(self).wf(),
        ensures
            final(self).wf(),
            final(self).width == old(self).width,
            final(self).height == old(self).height,
            final(self).color_data@ == Seq::new(
                old(self).color_data@.len(),
                |i: int| (Color { value: 0u32 }),
            ),
    {
        self.fill(Color::from_u32(Colors::Empty.value()));
    }

    /// Composites `color` over the single pixel at `(x, y)`, clipped as
    /// `plot_spec` describes. Mutates at most one element of the buffer.
    pub fn plot_point(&mut self, x: i32, y: i32, color: Color)
        requires
            old(self).wf(),
        ensures
            final(self).wf(),
            final(self).width == old(self).width,
            final(self).height == old(self).height,
            final(self).color_data@ == plot_spec(
                old(self).color_data@,
                old(self).width as int,
                old(self).height as int,
                x as int,
                y as int,
                color,
            ),
    {
        if x >= 1 && y >= 1 && x < self.width && y < self.height {
            let n: usize = self.color_data.len();
            proof {
                lemma_idx_bounds(x as int, y as int, self.width as int, self.height as int);
            }
            let i = get_index(x, y, self.width);
            let dst = self.color_data[i];
            let blended = pixel_over(color, dst);
            self.color_data.set(i, blended);
        }
    }
}

/// Fill idempotence: a buffer filled with one color depends only on the
/// buffer's length, so filling it again with the same color reproduces the
/// same buffer bit for bit.
pub proof fn lemma_fill_idempotent(len: nat, color: Color)
    ensures
        Seq::new(Seq::new(len, |i: int| color).len(), |i: int| color) == Seq::new(
            len,
            |i: int| color,
        ),
{
}

} // verus!
