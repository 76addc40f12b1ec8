use vstd::prelude::*;

use crate::color::Color;
use crate::ellipse::{at_least1, extent_cap, Ellipse};
use crate::image::Image;
use crate::point::Point;
use crate::rng::{rng_below, rng_range_i32};
use crate::scanline::Scanline;
use crate::shape::{PurrShape, Shape};

verus! {

/// A circle: an ellipse whose radii stay equal through every mutation.
#[derive(Clone, Copy, Debug, PartialEq, Eq, Structural)]
pub struct Circle(pub Ellipse);

impl Shape for Circle {
    open spec fn bounds(&self, w: u32, h: u32) -> bool {
        self.0.bounds_spec(w, h)
    }

    open spec fn valid(&self) -> bool {
        self.0.valid_spec() && self.0.rx == self.0.ry
    }

    fn blank() -> (s: Self) {
        Circle(Ellipse { o: Point { x: 0, y: 0 }, rx: 0, ry: 0 })
    }

    fn random(w: u32, h: u32, rng: &mut rand::rngs::SmallRng) -> (s: Self) {
        let x = rng_range_i32(rng, 0, w as i32);
        let y = rng_range_i32(rng, 0, h as i32);
        let r = rng_below(rng, 32) + 1;
        Circle(Ellipse { o: Point { x, y }, rx: r, ry: r })
    }

    fn mutate(&mut self, w: u32, h: u32, rng: &mut rand::rngs::SmallRng)
        ensures
            final(self).0.ry == final(self).0.rx,
            final(self).0.rx == at_least1(old(self).0.rx) || (final(self).0.o == old(self).0.o
                && 1 <= final(self).0.rx <= extent_cap(w)),
    {
        match rng_below(rng, 2) {
            0 => {
                self.0.mutate_o(w, h, rng);
            },
            _ => {
                self.0.mutate_rx(w, rng);
            },
        }
        if self.0.rx < 1 {
            self.0.rx = 1;
        }
        self.0.ry = self.0.rx;
    }

    open spec fn rasterize_spec(&self, w: u32, h: u32) -> Seq<Scanline> {
        self.0.rasterize_spec(w, h)
    }

    fn rasterize(&self, w: u32, h: u32) -> (r: Vec<Scanline>) {
        self.0.rasterize(w, h)
    }

    fn draw(&self, img: &mut Image, color: &Color) {
        self.0.draw(img, color)
    }

    open spec fn svg_spec(&self, attr: Seq<char>) -> Seq<char> {
        crate::ellipse::ellipse_svg(self.0, attr)
    }

    fn to_svg(&self, attr: &str) -> (r: String)
        ensures
            r@ == crate::ellipse::ellipse_svg(self.0, attr@),
    {
        self.0.to_svg(attr)
    }
}

impl PurrShape for Circle {

}

} // verus!
