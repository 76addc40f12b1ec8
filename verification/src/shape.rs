use vstd::prelude::*;

use crate::algo::MAX_LINES;
use crate::color::Color;
use crate::image::Image;
use crate::scanline::{lines_ok, Scanline};
use crate::MAX_DIM;

verus! {

/// What every shape family offers: random initialization, random
/// mutation, scanline rasterization, an alpha-composited blit, and a
/// vector description.  Rasterization yields only scanlines inside the
/// canvas; mutation always leaves the shape valid for its family.
pub trait Shape: Sized + Clone + Copy {
    /// The shape's fields lie in the coordinate ranges the rasterizers
    /// accept for a `w` by `h` canvas.
    spec fn bounds(&self, w: u32, h: u32) -> bool;

    /// The family's validity predicate.
    spec fn valid(&self) -> bool;

    /// A zeroed placeholder, within bounds on any canvas.
    fn blank() -> (s: Self)
        ensures
            forall|w: u32, h: u32|
                1 <= w <= MAX_DIM && 1 <= h <= MAX_DIM ==> #[trigger] s.bounds(w, h),
    ;

    /// A fresh random shape for a `w` by `h` canvas.
    fn random(w: u32, h: u32, rng: &mut rand::rngs::SmallRng) -> (s: Self)
        requires
            1 <= w <= MAX_DIM,
            1 <= h <= MAX_DIM,
        ensures
            s.bounds(w, h),
            s.valid(),
    ;

    /// Randomly perturb the shape, keeping it valid for its family.
    fn mutate(&mut self, w: u32, h: u32, rng: &mut rand::rngs::SmallRng)
        requires
            old(self).bounds(w, h),
            1 <= w <= MAX_DIM,
            1 <= h <= MAX_DIM,
        ensures
            final(self).bounds(w, h),
            final(self).valid(),
    ;

    /// The exact scanlines the shape covers on a `w` by `h` canvas.
    spec fn rasterize_spec(&self, w: u32, h: u32) -> Seq<Scanline>;

    /// The scanlines the shape covers on a `w` by `h` canvas.
    fn rasterize(&self, w: u32, h: u32) -> (r: Vec<Scanline>)
        requires
            self.bounds(w, h),
            1 <= w <= MAX_DIM,
            1 <= h <= MAX_DIM,
        ensures
            r@ == self.rasterize_spec(w, h),
            lines_ok(r@, w as int, h as int),
            r@.len() <= MAX_LINES,
    ;

    /// Blend `color` over every pixel the shape covers, first scanline
    /// first.
    fn draw(&self, img: &mut Image, color: &Color)
        requires
            old(img).wf(),
            self.bounds(old(img).w, old(img).h),
        ensures
            final(img).wf(),
            final(img).w == old(img).w,
            final(img).h == old(img).h,
            final(img).pixels@ == crate::scanline::drawn_lines(
                old(img).pixels@,
                old(img).w as int,
                self.rasterize_spec(old(img).w, old(img).h),
                *color,
            ),
    ;

    /// The shape's vector element as a character sequence.
    spec fn svg_spec(&self, attr: Seq<char>) -> Seq<char>;

    /// The shape's vector element, carrying the given fill attributes.
    fn to_svg(&self, attr: &str) -> (r: String)
        ensures
            r@ == self.svg_spec(attr@),
    ;
}

/// The bound the search and the runner place on a shape type.
pub trait PurrShape: Shape {

}

} // verus!
