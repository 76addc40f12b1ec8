use vstd::prelude::*;

use crate::circle::Circle;
use crate::color::Color;
use crate::ellipse::{Ellipse, RotatedEllipse};
use crate::image::Image;
use crate::polygon::Polygon;
use crate::quadratic::Quadratic;
use crate::rectangle::{Rectangle, RotatedRectangle};
use crate::rng::rng_below;
use crate::scanline::Scanline;
use crate::shape::{PurrShape, Shape};
use crate::triangle::Triangle;

verus! {

/// A tagged variant over all shape families: random initialization picks
/// a family uniformly, every other operation delegates to the carried
/// shape.
#[derive(Clone, Copy, Debug)]
pub enum Combo {
    Triangle(Triangle),
    Ellipse(Ellipse),
    Rectangle(Rectangle),
    RotatedRectangle(RotatedRectangle),
    Circle(Circle),
    Quadratic(Quadratic),
    RotatedEllipse(RotatedEllipse),
    Polygon(Polygon),
}

impl Shape for Combo {
    open spec fn bounds(&self, w: u32, h: u32) -> bool {
        match *self {
            Combo::Triangle(s) => s.bounds(w, h),
            Combo::Ellipse(s) => s.bounds(w, h),
            Combo::Rectangle(s) => s.bounds(w, h),
            Combo::RotatedRectangle(s) => s.bounds(w, h),
            Combo::Circle(s) => s.bounds(w, h),
            Combo::Quadratic(s) => s.bounds(w, h),
            Combo::RotatedEllipse(s) => s.bounds(w, h),
            Combo::Polygon(s) => s.bounds(w, h),
        }
    }

    open spec fn valid(&self) -> bool {
        match *self {
            Combo::Triangle(s) => Shape::valid(&s),
            Combo::Ellipse(s) => Shape::valid(&s),
            Combo::Rectangle(s) => Shape::valid(&s),
            Combo::RotatedRectangle(s) => Shape::valid(&s),
            Combo::Circle(s) => Shape::valid(&s),
            Combo::Quadratic(s) => Shape::valid(&s),
            Combo::RotatedEllipse(s) => Shape::valid(&s),
            Combo::Polygon(s) => Shape::valid(&s),
        }
    }

    fn blank() -> (s: Self) {
        Combo::Triangle(Triangle::blank())
    }

    fn random(w: u32, h: u32, rng: &mut rand::rngs::SmallRng) -> (s: Self) {
        match rng_below(rng, 8) {
            0 => Combo::Triangle(Triangle::random(w, h, rng)),
            1 => Combo::Ellipse(Ellipse::random(w, h, rng)),
            2 => Combo::Rectangle(Rectangle::random(w, h, rng)),
            3 => Combo::RotatedRectangle(RotatedRectangle::random(w, h, rng)),
            4 => Combo::Circle(Circle::random(w, h, rng)),
            5 => Combo::Quadratic(Quadratic::random(w, h, rng)),
            6 => Combo::RotatedEllipse(RotatedEllipse::random(w, h, rng)),
            _ => Combo::Polygon(Polygon::random(w, h, rng)),
        }
    }

    fn mutate(&mut self, w: u32, h: u32, rng: &mut rand::rngs::SmallRng)
        ensures
            ((*old(self)) is Triangle <==> (*final(self)) is Triangle),
            ((*old(self)) is Ellipse <==> (*final(self)) is Ellipse),
            ((*old(self)) is Rectangle <==> (*final(self)) is Rectangle),
            ((*old(self)) is RotatedRectangle <==> (*final(self)) is RotatedRectangle),
            ((*old(self)) is Circle <==> (*final(self)) is Circle),
            ((*old(self)) is Quadratic <==> (*final(self)) is Quadratic),
            ((*old(self)) is RotatedEllipse <==> (*final(self)) is RotatedEllipse),
            ((*old(self)) is Polygon <==> (*final(self)) is Polygon),
    {
        match self {
            Combo::Triangle(s) => s.mutate(w, h, rng),
            Combo::Ellipse(s) => s.mutate(w, h, rng),
            Combo::Rectangle(s) => s.mutate(w, h, rng),
            Combo::RotatedRectangle(s) => s.mutate(w, h, rng),
            Combo::Circle(s) => s.mutate(w, h, rng),
            Combo::Quadratic(s) => s.mutate(w, h, rng),
            Combo::RotatedEllipse(s) => s.mutate(w, h, rng),
            Combo::Polygon(s) => s.mutate(w, h, rng),
        }
    }

    open spec fn rasterize_spec(&self, w: u32, h: u32) -> Seq<Scanline> {
        match *self {
            Combo::Triangle(s) => s.rasterize_spec(w, h),
            Combo::Ellipse(s) => s.rasterize_spec(w, h),
            Combo::Rectangle(s) => s.rasterize_spec(w, h),
            Combo::RotatedRectangle(s) => s.rasterize_spec(w, h),
            Combo::Circle(s) => s.rasterize_spec(w, h),
            Combo::Quadratic(s) => s.rasterize_spec(w, h),
            Combo::RotatedEllipse(s) => s.rasterize_spec(w, h),
            Combo::Polygon(s) => s.rasterize_spec(w, h),
        }
    }

    fn rasterize(&self, w: u32, h: u32) -> (r: Vec<Scanline>) {
        match self {
            Combo::Triangle(s) => s.rasterize(w, h),
            Combo::Ellipse(s) => s.rasterize(w, h),
            Combo::Rectangle(s) => s.rasterize(w, h),
            Combo::RotatedRectangle(s) => s.rasterize(w, h),
            Combo::Circle(s) => s.rasterize(w, h),
            Combo::Quadratic(s) => s.rasterize(w, h),
            Combo::RotatedEllipse(s) => s.rasterize(w, h),
            Combo::Polygon(s) => s.rasterize(w, h),
        }
    }

    fn draw(&self, img: &mut Image, color: &Color) {
        match self {
            Combo::Triangle(s) => s.draw(img, color),
            Combo::Ellipse(s) => s.draw(img, color),
            Combo::Rectangle(s) => s.draw(img, color),
            Combo::RotatedRectangle(s) => s.draw(img, color),
            Combo::Circle(s) => s.draw(img, color),
            Combo::Quadratic(s) => s.draw(img, color),
            Combo::RotatedEllipse(s) => s.draw(img, color),
            Combo::Polygon(s) => s.draw(img, color),
        }
    }

    open spec fn svg_spec(&self, attr: Seq<char>) -> Seq<char> {
        match *self {
            Combo::Triangle(s) => s.svg_spec(attr),
            Combo::Ellipse(s) => s.svg_spec(attr),
            Combo::Rectangle(s) => s.svg_spec(attr),
            Combo::RotatedRectangle(s) => s.svg_spec(attr),
            Combo::Circle(s) => s.svg_spec(attr),
            Combo::Quadratic(s) => s.svg_spec(attr),
            Combo::RotatedEllipse(s) => s.svg_spec(attr),
            Combo::Polygon(s) => s.svg_spec(attr),
        }
    }

    fn to_svg(&self, attr: &str) -> (r: String) {
        match self {
            Combo::Triangle(s) => s.to_svg(attr),
            Combo::Ellipse(s) => s.to_svg(attr),
            Combo::Rectangle(s) => s.to_svg(attr),
            Combo::RotatedRectangle(s) => s.to_svg(attr),
            Combo::Circle(s) => s.to_svg(attr),
            Combo::Quadratic(s) => s.to_svg(attr),
            Combo::RotatedEllipse(s) => s.to_svg(attr),
            Combo::Polygon(s) => s.to_svg(attr),
        }
    }
}

impl PurrShape for Combo {

}

} // verus!
