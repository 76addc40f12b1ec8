use vstd::prelude::*;

use crate::color::Color;
use crate::MAX_DIM;

verus! {

/// A raster image: `w * h` RGBA pixels in row-major order.
#[derive(Clone, Debug)]
pub struct Image {
    pub w: u32,
    pub h: u32,
    pub pixels: Vec<Color>,
}

impl Image {
    /// Well-formedness: bounded dimensions and a pixel for every cell.
    pub open spec fn wf(self) -> bool {
        &&& 1 <= self.w <= MAX_DIM
        &&& 1 <= self.h <= MAX_DIM
        &&& self.pixels@.len() == self.w * self.h
    }

    /// The pixel at column `x`, row `y`.
    pub open spec fn pix(self, x: int, y: int) -> Color {
        self.pixels@[y * self.w + x]
    }

    pub proof fn lemma_cells_bounds(self)
        requires
            self.wf(),
        ensures
            1 <= self.w * self.h <= MAX_DIM * MAX_DIM,
    {
        assert(1 <= self.w * self.h <= MAX_DIM * MAX_DIM) by (nonlinear_arith)
            requires
                1 <= self.w <= MAX_DIM && 1 <= self.h <= MAX_DIM,
        ;
    }

    pub proof fn lemma_idx_bounds(self, x: int, y: int)
        requires
            self.wf(),
            0 <= x < self.w,
            0 <= y < self.h,
        ensures
            0 <= y * self.w + x < self.pixels@.len(),
    {
        assert(y * self.w <= (self.h - 1) * self.w && 0 <= y * self.w) by (nonlinear_arith)
            requires
                0 <= y <= self.h - 1 && self.w >= 1,
        ;
        assert((self.h - 1) * self.w + self.w == self.h * self.w) by (nonlinear_arith);
    }

    /// Build an image of the given size with every pixel set to `fill`.
    pub fn uniform(w: u32, h: u32, fill: Color) -> (img: Image)
        requires
            1 <= w <= MAX_DIM,
            1 <= h <= MAX_DIM,
        ensures
            img.wf(),
            img.w == w,
            img.h == h,
            forall|x: int, y: int|
                0 <= x < w && 0 <= y < h ==> #[trigger] img.pix(x, y) == fill,
    {
        proof {
            assert(1 <= w * h <= MAX_DIM * MAX_DIM) by (nonlinear_arith)
                requires
                    1 <= w <= MAX_DIM && 1 <= h <= MAX_DIM,
            ;
        }
        let n: usize = (w as usize) * (h as usize);
        let mut pixels: Vec<Color> = Vec::new();
        let mut i: usize = 0;
        while i < n
            invariant
                i <= n,
                n == w * h,
                pixels@.len() == i,
                forall|j: int| 0 <= j < i ==> pixels@[j] == fill,
            decreases n - i,
        {
            pixels.push(fill);
            i += 1;
        }
        let img = Image { w, h, pixels };
        proof {
            assert forall|x: int, y: int|
                0 <= x < w && 0 <= y < h implies #[trigger] img.pix(x, y) == fill by {
                img.lemma_idx_bounds(x, y);
            }
        }
        img
    }

    /// Read the pixel at `(x, y)`.
    pub fn get_pixel(&self, x: u32, y: u32) -> (c: Color)
        requires
            self.wf(),
            x < self.w,
            y < self.h,
        ensures
            c == self.pix(x as int, y as int),
    {
        proof {
            self.lemma_idx_bounds(x as int, y as int);
            self.lemma_cells_bounds();
        }
        let idx: usize = (y as usize) * (self.w as usize) + (x as usize);
        self.pixels[idx]
    }

    /// Overwrite the pixel at `(x, y)`.
    pub fn set_pixel(&mut self, x: u32, y: u32, c: Color)
        requires
            old(self).wf(),
            x < old(self).w,
            y < old(self).h,
        ensures
            final(self).wf(),
            final(self).w == old(self).w,
            final(self).h == old(self).h,
            final(self).pixels@ == old(self).pixels@.update(y * old(self).w + x, c),
            final(self).pix(x as int, y as int) == c,
            forall|i: int, j: int|
                0 <= i < old(self).w && 0 <= j < old(self).h && !(i == x && j == y)
                    ==> #[trigger] final(self).pix(i, j) == old(self).pix(i, j),
    {
        proof {
            self.lemma_idx_bounds(x as int, y as int);
            self.lemma_cells_bounds();
        }
        let idx: usize = (y as usize) * (self.w as usize) + (x as usize);
        self.pixels.set(idx, c);
        proof {
            assert forall|i: int, j: int|
                0 <= i < self.w && 0 <= j < self.h && !(i == x && j == y)
                    implies #[trigger] self.pix(i, j) == old(self).pix(i, j) by {
                self.lemma_idx_bounds(i, j);
                old(self).lemma_idx_bounds(i, j);
                if j * self.w + i == y * self.w + x {
                    assert(i == x && j == y) by (nonlinear_arith)
                        requires
                            j * self.w + i == y * self.w + x,
                            0 <= i < self.w,
                            0 <= x < self.w,
                            0 <= j,
                            0 <= y,
                    ;
                }
            }
        }
    }
}

/// One channel of a color, selected by index: 0 red, 1 green, 2 blue, 3 alpha.
pub open spec fn chan(c: Color, k: int) -> int {
    if k == 0 {
        c.r as int
    } else if k == 1 {
        c.g as int
    } else if k == 2 {
        c.b as int
    } else {
        c.a as int
    }
}

/// Sum of channel `k` over `s[i..]`.
pub open spec fn chan_sum_from(s: Seq<Color>, i: int, k: int) -> int
    decreases s.len() - i,
{
    if i < 0 || i >= s.len() {
        0
    } else {
        chan(s[i], k) + chan_sum_from(s, i + 1, k)
    }
}

pub proof fn lemma_chan_sum_bounds(s: Seq<Color>, i: int, k: int)
    ensures
        0 <= chan_sum_from(s, i, k) <= if i < 0 || i >= s.len() {
            0int
        } else {
            255 * (s.len() - i)
        },
    decreases s.len() - i,
{
    if i >= 0 && i < s.len() {
        lemma_chan_sum_bounds(s, i + 1, k);
        assert(255 * (s.len() - i) == 255 * (s.len() - (i + 1)) + 255) by (nonlinear_arith);
    }
}

/// The mean color of the image, truncating each channel mean; alpha is 255.
pub open spec fn average_spec(img: Image) -> Color {
    Color {
        r: (chan_sum_from(img.pixels@, 0, 0) / (img.w * img.h) as int) as u8,
        g: (chan_sum_from(img.pixels@, 0, 1) / (img.w * img.h) as int) as u8,
        b: (chan_sum_from(img.pixels@, 0, 2) / (img.w * img.h) as int) as u8,
        a: 255,
    }
}

fn average_channel(img: &Image, k: u32) -> (r: u8)
    requires
        img.wf(),
        k < 3,
    ensures
        r as int == chan_sum_from(img.pixels@, 0, k as int) / (img.w * img.h) as int,
{
    proof {
        img.lemma_cells_bounds();
    }
    let n: usize = img.pixels.len();
    let mut sum: u64 = 0;
    let mut i: usize = 0;
    while i < n
        invariant
            i <= n,
            k < 3,
            n == img.pixels@.len() <= MAX_DIM * MAX_DIM,
            sum <= 255 * i,
            sum + chan_sum_from(img.pixels@, i as int, k as int)
                == chan_sum_from(img.pixels@, 0, k as int),
        decreases n - i,
    {
        let c = img.pixels[i];
        let v: u64 = if k == 0 {
            c.r as u64
        } else if k == 1 {
            c.g as u64
        } else {
            c.b as u64
        };
        proof {
            lemma_chan_sum_bounds(img.pixels@, i as int, k as int);
        }
        sum += v;
        i += 1;
    }
    let cells: u64 = (img.w as u64) * (img.h as u64);
    proof {
        img.lemma_cells_bounds();
        lemma_chan_sum_bounds(img.pixels@, 0, k as int);
        assert(sum / cells <= 255) by (nonlinear_arith)
            requires
                cells == img.w * img.h,
                cells >= 1,
                0 <= sum <= 255 * cells,
        ;
    }
    (sum / cells) as u8
}

/// The mean color of the image, with full alpha.
pub fn average_color(img: &Image) -> (c: Color)
    requires
        img.wf(),
    ensures
        c == average_spec(*img),
{
    Color {
        r: average_channel(img, 0),
        g: average_channel(img, 1),
        b: average_channel(img, 2),
        a: 255,
    }
}

} // verus!
