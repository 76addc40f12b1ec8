use vstd::prelude::*;

use crate::clamp_spec;
use crate::clamp_u32;
use crate::color::{alpha_compose, compose_spec, Color};
use crate::image::Image;

verus! {

/// One horizontal run of covered pixels: row `y`, inclusive columns
/// `x1..=x2`.
#[derive(Clone, Copy, Debug, PartialEq, Eq, Structural)]
pub struct Scanline {
    pub y: u32,
    pub x1: u32,
    pub x2: u32,
}

/// A scanline that lies inside a `w` by `h` canvas.
pub open spec fn line_ok(l: Scanline, w: int, h: int) -> bool {
    &&& l.x1 <= l.x2 < w
    &&& l.y < h
}

/// Every line of `s[i..]` lies inside the canvas.
pub open spec fn lines_ok_from(s: Seq<Scanline>, i: int, w: int, h: int) -> bool {
    forall|j: int| i <= j < s.len() ==> line_ok(#[trigger] s[j], w, h)
}

/// All lines lie inside the canvas.
pub open spec fn lines_ok(s: Seq<Scanline>, w: int, h: int) -> bool {
    lines_ok_from(s, 0, w, h)
}

/// The row of flat pixel indices covered by `l` on a canvas `w` wide:
/// drawing `l` touches exactly the flat indices in `[lo(l), hi(l)]`.
pub open spec fn flat_lo(l: Scanline, w: int) -> int {
    l.y * w + l.x1
}

pub open spec fn flat_hi(l: Scanline, w: int) -> int {
    l.y * w + l.x2
}

/// The pixel sequence after blending `c` over the span of `l`.
pub open spec fn drawn_line(s: Seq<Color>, w: int, l: Scanline, c: Color) -> Seq<Color> {
    Seq::new(
        s.len(),
        |i: int|
            if flat_lo(l, w) <= i <= flat_hi(l, w) {
                compose_spec(s[i], c)
            } else {
                s[i]
            },
    )
}

/// The pixel sequence after blending `c` over every line of `lines[i..]`,
/// first line first.
pub open spec fn drawn_lines_from(
    s: Seq<Color>,
    w: int,
    lines: Seq<Scanline>,
    i: int,
    c: Color,
) -> Seq<Color>
    decreases lines.len() - i,
{
    if i < 0 || i >= lines.len() {
        s
    } else {
        drawn_lines_from(drawn_line(s, w, lines[i], c), w, lines, i + 1, c)
    }
}

pub open spec fn drawn_lines(s: Seq<Color>, w: int, lines: Seq<Scanline>, c: Color) -> Seq<Color> {
    drawn_lines_from(s, w, lines, 0, c)
}

impl Scanline {
    /// Blend `color` over this scanline's pixels of `img`.
    pub fn draw(&self, img: &mut Image, color: &Color)
        requires
            old(img).wf(),
            line_ok(*self, old(img).w as int, old(img).h as int),
        ensures
            final(img).wf(),
            final(img).w == old(img).w,
            final(img).h == old(img).h,
            final(img).pixels@ == drawn_line(old(img).pixels@, old(img).w as int, *self, *color),
    {
        let ghost orig = *img;
        let mut x: u32 = self.x1;
        proof {
            img.lemma_idx_bounds(self.x1 as int, self.y as int);
            img.lemma_idx_bounds(self.x2 as int, self.y as int);
        }
        while x <= self.x2
            invariant
                img.wf(),
                img.w == orig.w,
                img.h == orig.h,
                orig.wf(),
                line_ok(*self, orig.w as int, orig.h as int),
                self.x1 <= x <= self.x2 + 1,
                img.pixels@.len() == orig.pixels@.len(),
                forall|i: int|
                    0 <= i < orig.pixels@.len() && flat_lo(*self, orig.w as int) <= i
                        < orig.w * self.y + x ==> #[trigger] img.pixels@[i] == compose_spec(
                        orig.pixels@[i],
                        *color,
                    ),
                forall|i: int|
                    0 <= i < orig.pixels@.len() && !(flat_lo(*self, orig.w as int) <= i
                        < orig.w * self.y + x) ==> #[trigger] img.pixels@[i] == orig.pixels@[i],
            decreases self.x2 + 1 - x,
        {
            let bg = img.get_pixel(x, self.y);
            let ghost before = img.pixels@;
            let blended = alpha_compose(&bg, color);
            img.set_pixel(x, self.y, blended);
            proof {
                img.lemma_idx_bounds(x as int, self.y as int);
                assert forall|i: int|
                    0 <= i < orig.pixels@.len() && flat_lo(*self, orig.w as int) <= i
                        < orig.w * self.y + (x + 1) implies #[trigger] img.pixels@[i]
                    == compose_spec(orig.pixels@[i], *color) by {
                    if i < orig.w * self.y + x {
                        assert(img.pixels@[i] == before[i]);
                    }
                }
            }
            x += 1;
        }
        proof {
            assert(img.pixels@ =~= drawn_line(orig.pixels@, orig.w as int, *self, *color));
        }
    }

    /// Clamp the scanline into a `w` by `h` canvas.
    pub fn crop(&mut self, w: u32, h: u32)
        requires
            w >= 1,
            h >= 1,
        ensures
            *final(self) == crop_spec(*old(self), w as int, h as int),
            line_ok_cropped(*final(self), w as int, h as int),
    {
        self.y = clamp_u32(self.y, 0, h - 1);
        self.x1 = clamp_u32(self.x1, 0, w - 1);
        self.x2 = clamp_u32(self.x2, 0, w - 1);
    }
}

/// The scanline clamped into a `w` by `h` canvas.
pub open spec fn crop_spec(l: Scanline, w: int, h: int) -> Scanline {
    Scanline {
        y: clamp_spec(l.y as int, 0, h - 1) as u32,
        x1: clamp_spec(l.x1 as int, 0, w - 1) as u32,
        x2: clamp_spec(l.x2 as int, 0, w - 1) as u32,
    }
}

/// After cropping, both columns and the row are inside the canvas.
pub open spec fn line_ok_cropped(l: Scanline, w: int, h: int) -> bool {
    &&& l.x1 < w
    &&& l.x2 < w
    &&& l.y < h
}

/// The filter shapes apply before cropping: a scanline is dropped when
/// its run is empty or its row lies outside the canvas.
pub open spec fn keep_line(l: Scanline, w: int, h: int) -> bool {
    &&& l.x1 <= l.x2
    &&& l.y < h
}

/// The lines of `lines[i..]` that pass the visibility filter, each cropped
/// into the canvas, in their original order.
pub open spec fn crop_lines_spec(lines: Seq<Scanline>, i: int, w: int, h: int) -> Seq<Scanline>
    decreases lines.len() - i,
{
    if i < 0 || i >= lines.len() {
        Seq::empty()
    } else if keep_line(lines[i], w, h) {
        seq![crop_spec(lines[i], w, h)] + crop_lines_spec(lines, i + 1, w, h)
    } else {
        crop_lines_spec(lines, i + 1, w, h)
    }
}

pub proof fn lemma_crop_lines_ok(lines: Seq<Scanline>, i: int, w: int, h: int)
    requires
        w >= 1,
        h >= 1,
    ensures
        lines_ok(crop_lines_spec(lines, i, w, h), w, h),
    decreases lines.len() - i,
{
    if i >= 0 && i < lines.len() {
        lemma_crop_lines_ok(lines, i + 1, w, h);
    }
}

/// Drop the scanlines that miss the canvas and clamp the rest into it.
pub fn crop_lines(lines: &Vec<Scanline>, w: u32, h: u32) -> (r: Vec<Scanline>)
    requires
        w >= 1,
        h >= 1,
    ensures
        r@ == crop_lines_spec(lines@, 0, w as int, h as int),
        lines_ok(r@, w as int, h as int),
        r@.len() <= lines@.len(),
{
    let n = lines.len();
    let mut r: Vec<Scanline> = Vec::new();
    let mut i: usize = 0;
    while i < n
        invariant
            i <= n == lines@.len(),
            w >= 1,
            h >= 1,
            r@ + crop_lines_spec(lines@, i as int, w as int, h as int) == crop_lines_spec(
                lines@,
                0,
                w as int,
                h as int,
            ),
            r@.len() <= i,
        decreases n - i,
    {
        let l = lines[i];
        if l.x1 <= l.x2 && l.y < h {
            let mut cl = l;
            cl.crop(w, h);
            let ghost rold = r@;
            r.push(cl);
            proof {
                assert(r@ + crop_lines_spec(lines@, i + 1, w as int, h as int) =~= (rold
                    + crop_lines_spec(lines@, i as int, w as int, h as int)));
            }
        }
        i += 1;
    }
    proof {
        assert(r@ =~= r@ + crop_lines_spec(lines@, n as int, w as int, h as int));
        lemma_crop_lines_ok(lines@, 0, w as int, h as int);
    }
    r
}

/// Blend `color` over every scanline of `lines`, first line first.
pub fn draw_lines(img: &mut Image, lines: &Vec<Scanline>, color: &Color)
    requires
        old(img).wf(),
        lines_ok(lines@, old(img).w as int, old(img).h as int),
    ensures
        final(img).wf(),
        final(img).w == old(img).w,
        final(img).h == old(img).h,
        final(img).pixels@ == drawn_lines(
            old(img).pixels@,
            old(img).w as int,
            lines@,
            *color,
        ),
{
    let ghost orig = *img;
    let n = lines.len();
    let mut i: usize = 0;
    while i < n
        invariant
            i <= n == lines@.len(),
            img.wf(),
            img.w == orig.w,
            img.h == orig.h,
            orig.wf(),
            lines_ok(lines@, orig.w as int, orig.h as int),
            drawn_lines_from(img.pixels@, orig.w as int, lines@, i as int, *color)
                == drawn_lines(orig.pixels@, orig.w as int, lines@, *color),
        decreases n - i,
    {
        lines[i].draw(img, color);
        i += 1;
    }
}

} // verus!
