use vstd::prelude::*;

use crate::algo::{diff_full, sse_full, MAX_SCORE};
use crate::color::Color;
use crate::image::{average_color, average_spec, Image};
use crate::shape::PurrShape;
use crate::svg::{hex_of, opacity_of, push_hex_byte, push_opacity};
use crate::MAX_DIM;

verus! {

/// One search result: a shape, the color it would be drawn with, and the
/// projected total distance if it were committed.  An unscored state
/// carries `u64::MAX`.
#[derive(Clone, Copy, Debug)]
pub struct PurrState<T> {
    pub shape: T,
    pub color: Color,
    pub score: u64,
}

impl<T: PurrShape> PurrState<T> {
    /// A placeholder state at the given score: a blank shape that covers
    /// nothing.
    pub fn new(score: u64) -> (s: PurrState<T>)
        ensures
            s.score == score,
            forall|w: u32, h: u32|
                1 <= w <= MAX_DIM && 1 <= h <= MAX_DIM ==> #[trigger] s.shape.bounds(w, h),
    {
        PurrState { score, color: Color { r: 0, g: 0, b: 0, a: 0 }, shape: T::blank() }
    }

    /// The fill attributes of this state's color.
    pub fn fill_attr(&self) -> (r: String)
        ensures
            r@ == fill_attr_spec(self.color),
    {
        let mut s = String::from_str("");
        proof {
            reveal_strlit("");
        }
        s.append("fill=\"#");
        push_hex_byte(&mut s, self.color.r);
        push_hex_byte(&mut s, self.color.g);
        push_hex_byte(&mut s, self.color.b);
        s.append("\" fill-opacity=\"");
        push_opacity(&mut s, self.color.a);
        s.append("\"");
        proof {
            assert(s@ =~= fill_attr_spec(self.color));
        }
        s
    }

    /// This state's vector element: its shape filled with its color.
    pub fn to_svg(&self) -> (r: String)
        ensures
            r@ == state_svg(*self),
    {
        let attr = self.fill_attr();
        self.shape.to_svg(attr.as_str())
    }
}

/// The fill attributes for a color: hex RGB and decimal opacity.
pub open spec fn fill_attr_spec(c: Color) -> Seq<char> {
    "fill=\"#"@ + hex_of(c.r as int) + hex_of(c.g as int) + hex_of(c.b as int)
        + "\" fill-opacity=\""@ + opacity_of(c.a as int) + "\""@
}

pub open spec fn state_svg<T: PurrShape>(s: PurrState<T>) -> Seq<char> {
    s.shape.svg_spec(fill_attr_spec(s.color))
}

/// The search context: the immutable target, the working canvas, the
/// current score as a sum of squared channel differences, the background
/// color, the per-context random source, and the alpha bias.
#[derive(Debug)]
pub struct PurrContext {
    pub w: u32,
    pub h: u32,
    pub origin_img: Image,
    pub current_img: Image,
    pub rng: rand::rngs::SmallRng,
    pub score: u64,
    pub bg: Color,
    pub alpha: u8,
}

impl PurrContext {
    /// Both images are well formed, share the context's dimensions, and
    /// the score is in the range a squared-difference sum can take.
    pub open spec fn wf(self) -> bool {
        &&& self.origin_img.wf()
        &&& self.current_img.wf()
        &&& self.origin_img.w == self.w
        &&& self.origin_img.h == self.h
        &&& self.current_img.w == self.w
        &&& self.current_img.h == self.h
        &&& self.score <= MAX_SCORE
        &&& self.alpha >= 1
    }

    /// Everything except the canvas, the score and the random source is
    /// unchanged.
    pub open spec fn same_target(self, other: PurrContext) -> bool {
        &&& self.w == other.w
        &&& self.h == other.h
        &&& self.origin_img == other.origin_img
        &&& self.bg == other.bg
        &&& self.alpha == other.alpha
    }

    /// Build a context for a decoded target image: the canvas starts as a
    /// uniform field of `bg` (or of the target's mean color), and the
    /// score is the full distance between target and canvas.
    pub fn new(origin_img: Image, alpha: u8, bg: Option<Color>, seed: u64) -> (ctx: PurrContext)
        requires
            origin_img.wf(),
            alpha >= 1,
        ensures
            ctx.wf(),
            ctx.origin_img == origin_img,
            ctx.w == origin_img.w,
            ctx.h == origin_img.h,
            ctx.alpha == alpha,
            ctx.bg == (match bg {
                Option::Some(c) => c,
                Option::None => average_spec(origin_img),
            }),
            forall|x: int, y: int|
                0 <= x < ctx.w && 0 <= y < ctx.h ==> #[trigger] ctx.current_img.pix(x, y)
                    == ctx.bg,
            ctx.score == sse_full(origin_img, ctx.current_img),
    {
        let color = match bg {
            Option::Some(c) => c,
            Option::None => average_color(&origin_img),
        };
        let current_img = Image::uniform(origin_img.w, origin_img.h, color);
        let score = diff_full(&origin_img, &current_img);
        let w = origin_img.w;
        let h = origin_img.h;
        PurrContext {
            w,
            h,
            origin_img,
            current_img,
            rng: crate::rng::new_rng(seed),
            score,
            bg: color,
            alpha,
        }
    }

    /// An independent copy of this context with its own random source,
    /// seeded by `seed`: how each worker derives its private context.
    pub fn duplicate(&self, seed: u64) -> (c: PurrContext)
        requires
            self.wf(),
        ensures
            c.wf(),
            c.w == self.w,
            c.h == self.h,
            c.origin_img.pixels@ == self.origin_img.pixels@,
            c.current_img.pixels@ == self.current_img.pixels@,
            c.origin_img.w == self.origin_img.w,
            c.origin_img.h == self.origin_img.h,
            c.current_img.w == self.current_img.w,
            c.current_img.h == self.current_img.h,
            c.score == self.score,
            c.bg == self.bg,
            c.alpha == self.alpha,
    {
        PurrContext {
            w: self.w,
            h: self.h,
            origin_img: copy_image(&self.origin_img),
            current_img: copy_image(&self.current_img),
            rng: crate::rng::new_rng(seed),
            score: self.score,
            bg: self.bg,
            alpha: self.alpha,
        }
    }
}

/// An exact pixel-for-pixel copy.
pub fn copy_image(img: &Image) -> (c: Image)
    requires
        img.wf(),
    ensures
        c.wf(),
        c.w == img.w,
        c.h == img.h,
        c.pixels@ == img.pixels@,
{
    let n = img.pixels.len();
    let mut pixels: Vec<Color> = Vec::new();
    let mut i: usize = 0;
    while i < n
        invariant
            i <= n == img.pixels@.len(),
            pixels@.len() == i,
            forall|j: int| 0 <= j < i ==> pixels@[j] == img.pixels@[j],
        decreases n - i,
    {
        pixels.push(img.pixels[i]);
        i += 1;
    }
    let c = Image { w: img.w, h: img.h, pixels };
    proof {
        assert(c.pixels@ =~= img.pixels@);
    }
    c
}

} // verus!
