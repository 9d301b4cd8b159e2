//! Waveform rendering: mapping a window of normalized audio samples to a
//! polyline traced into a fresh image. A sample value is a 16.16
//! fixed-point number in [-1, 1] (that is, in [-65536, 65536]); sample
//! offset `k` of a window of `range` samples maps to the screen point
//! `x = k * width / range`, `y = center + sample * height / 2` (computed
//! in fixed point and truncated), and consecutive points are joined with
//! the line rasterizer. The trace starts at the left edge, at the height
//! of the very first sample of the whole waveform.

use vstd::prelude::*;
use crate::color::{Color, Colors};
use crate::image::Image;
use crate::line::draw_line_spec;
use crate::math::tdiv;

verus! {

/// A read-only waveform: one fixed-point sample value per sample index.
pub struct Waveform {
    pub sample_count: usize,
    pub points_y: Vec<i64>,
}

impl Waveform {
    /// Well-formedness: one value per sample, each a 16.16 fixed-point
    /// number in [-1, 1].
    pub open spec fn wf(self) -> bool {
        &&& self.points_y@.len() == self.sample_count
        &&& forall|i: int|
            0 <= i < self.points_y@.len() ==> -65536 <= #[trigger] self.points_y@[i] <= 65536
    }

    /// Wraps a sequence of fixed-point sample values as a waveform.
    pub fn from_points(points_y: Vec<i64>) -> (w: Waveform)
        requires
            forall|i: int| 0 <= i < points_y@.len() ==> -65536 <= #[trigger] points_y@[i] <= 65536,
        ensures
            w.wf(),
            w.points_y@ == points_y@,
            w.sample_count == points_y@.len(),
    {
        let n = points_y.len();
        Waveform { sample_count: n, points_y }
    }
}

/// The screen column of sample offset `k` in a window of `range` samples
/// rendered over `width` columns.
pub open spec fn wave_x(k: int, range: int, width: int) -> int {
    (k * width) / range
}

/// The screen row of fixed-point sample value `v` on an image of the given
/// height: the vertical center plus the sample scaled by half the height,
/// truncated toward zero.
pub open spec fn wave_y(v: int, height: int) -> int {
    tdiv((height / 2) * 131072 + v * height, 131072)
}

/// The screen point for sample offset `j` of the window; offset -1 is the
/// trace's starting point at the left edge, at the height of the first
/// sample of the waveform.
pub open spec fn wave_pt(
    wave: Waveform,
    start: int,
    range: int,
    width: int,
    height: int,
    j: int,
) -> (int, int) {
    if j < 0 {
        (0int, wave_y(wave.points_y@[0] as int, height))
    } else {
        (wave_x(j, range, width), wave_y(wave.points_y@[start + j] as int, height))
    }
}

/// The buffer after tracing the first `i` segments of the window's
/// polyline onto `data`.
pub open spec fn wave_fold(
    data: Seq<Color>,
    w: int,
    h: int,
    wave: Waveform,
    start: int,
    range: int,
    c: Color,
    i: nat,
) -> Seq<Color>
    decreases i,
{
    if i == 0 {
        data
    } else {
        let prev = wave_fold(data, w, h, wave, start, range, c, (i - 1) as nat);
        let a = wave_pt(wave, start, range, w, h, i - 2);
        let b = wave_pt(wave, start, range, w, h, i - 1);
        draw_line_spec(prev, w, h, a.0, a.1, b.0, b.1, c)
    }
}

/// The screen row of a sample, computed in 64-bit fixed point. The result
/// always lies in `[0, height]`.
fn wave_y_exec(v: i64, height: i32) -> (y: i32)
    requires
        -65536 <= v <= 65536,
        0 < height <= 0x4000_0000,
    ensures
        y == wave_y(v as int, height as int),
        0 <= y <= height,
{
    let center: i64 = (height / 2) as i64;
    proof {
        let h = height as int;
        vstd::arithmetic::div_mod::lemma_fundamental_div_mod(h, 2);
        assert(2 * center == h - h % 2);
        assert(-65536 * h <= v * h <= 65536 * h) by (nonlinear_arith)
            requires
                -65536 <= v <= 65536,
                h > 0,
        ;
    }
    let num: i64 = center * 131072 + v * height as i64;
    proof {
        let h = height as int;
        assert(num >= 65536 * (h - 1) - 65536 * h);
        assert(num <= 65536 * h + 65536 * h);
        if num >= 0 {
            vstd::arithmetic::div_mod::lemma_div_is_ordered(num as int, 131072 * h, 131072);
            vstd::arithmetic::div_mod::lemma_div_multiples_vanish(h, 131072);
            vstd::arithmetic::div_mod::lemma_div_pos_is_pos(num as int, 131072);
        } else {
            assert(0 <= -num <= 65536);
            vstd::arithmetic::div_mod::lemma_basic_div(-(num as int), 131072);
        }
    }
    (num / 131072) as i32
}

impl Image {
    /// Renders the window of `range` samples starting at `start` of `wave`
    /// as a polyline trace in `color` on a fresh transparent image; see
    /// `wave_fold` for the exact buffer contents.
    pub fn waveform(
        width: i32,
        height: i32,
        wave: &Waveform,
        start: u32,
        range: u32,
        color: Color,
    ) -> (img: Image)
        requires
            0 < width <= 0x4000_0000,
            0 < height <= 0x4000_0000,
            width * height <= usize::MAX,
            wave.wf(),
            wave.sample_count >= 1,
            range >= 1,
            start + range <= wave.sample_count,
        ensures
            img.wf(),
            img.width == width,
            img.height == height,
            img.color_data@ == wave_fold(
                Seq::new((width * height) as nat, |i: int| (Color { value: 0u32 })),
                width as int,
                height as int,
                *wave,
                start as int,
                range as int,
                color,
                range as nat,
            ),
    {
        let mut img = Image::from_color(width, height, Color::from_u32(Colors::Empty.value()));
        let ghost init = img.color_data@;
        proof {
            assert(init =~= Seq::new((width * height) as nat, |i: int| (Color { value: 0u32 })));
        }
        let _n: usize = wave.points_y.len();
        let mut last_x: i32 = 0;
        let mut last_y: i32 = wave_y_exec(wave.points_y[0], height);
        let mut j: u32 = 0;
        while j < range
            invariant
                0 < width <= 0x4000_0000,
                0 < height <= 0x4000_0000,
                wave.wf(),
                wave.sample_count >= 1,
                range >= 1,
                start + range <= wave.sample_count,
                0 <= j <= range,
                img.wf(),
                img.width == width,
                img.height == height,
                (last_x as int, last_y as int) == wave_pt(
                    *wave,
                    start as int,
                    range as int,
                    width as int,
                    height as int,
                    j as int - 1,
                ),
                img.color_data@ == wave_fold(
                    init,
                    width as int,
                    height as int,
                    *wave,
                    start as int,
                    range as int,
                    color,
                    j as nat,
                ),
            decreases range - j,
        {
            let _n2: usize = wave.points_y.len();
            let idx: usize = start as usize + j as usize;
            let v: i64 = wave.points_y[idx];
            proof {
                assert(0 <= j as int * width as int <= 0x4000_0000_0000_0000int)
                    by (nonlinear_arith)
                    requires
                        0 <= (j as int) && (j as int) < 0x1_0000_0000int,
                        0 < (width as int) && (width as int) <= 0x4000_0000int,
                ;
            }
            let xw: i64 = (j as i64 * width as i64) / range as i64;
            proof {
                vstd::arithmetic::div_mod::lemma_div_pos_is_pos(
                    j as int * width as int,
                    range as int,
                );
                assert(j as int * width as int <= range as int * width as int)
                    by (nonlinear_arith)
                    requires
                        0 <= j as int <= range as int,
                        width as int > 0,
                ;
                vstd::arithmetic::div_mod::lemma_div_is_ordered(
                    j as int * width as int,
                    range as int * width as int,
                    range as int,
                );
                assert((range as int * width as int) / range as int == width as int) by {
                    vstd::arithmetic::div_mod::lemma_div_multiples_vanish(
                        width as int,
                        range as int,
                    );
                    assert(range as int * width as int == width as int * range as int)
                        by (nonlinear_arith);
                }
            }
            let x: i32 = xw as i32;
            let y: i32 = wave_y_exec(v, height);
            img.draw_line(last_x, last_y, x, y, color);
            last_x = x;
            last_y = y;
            j = j + 1;
        }
        img
    }
}

} // verus!
