use vstd::prelude::*;

use crate::clamp_i32;
use crate::color::Color;
use crate::image::Image;
use crate::point::Point;
use crate::raster::{rotate_point, rotate_point_spec, scan_polygon, scan_polygon_spec};
use crate::rng::{normal_offset, rng_below, rng_range_i32};
use crate::scanline::{crop_lines, crop_lines_spec, Scanline};
use crate::shape::{PurrShape, Shape};
use crate::svg::{dec_of, dec_of_int, push_int, push_u32};
use crate::ellipse::{at_least1, extent_cap};
use crate::MAX_DIM;

verus! {

/// An axis-aligned rectangle: top-left corner `p`, width `x`, height `y`.
#[derive(Clone, Copy, Debug, PartialEq, Eq, Structural)]
pub struct Rectangle {
    pub p: Point,
    pub x: u32,
    pub y: u32,
}

impl Rectangle {
    pub open spec fn bounds_spec(self, w: u32, h: u32) -> bool {
        &&& 0 <= self.p.x < w
        &&& 0 <= self.p.y < h
        &&& self.x <= MAX_DIM
        &&& self.y <= MAX_DIM
    }

    /// Width and height are at least one pixel.
    pub open spec fn valid_spec(self) -> bool {
        self.x >= 1 && self.y >= 1
    }

    /// Perturb either the corner or the extent, as `which` picks.
    fn do_mutate(&mut self, w: u32, h: u32, which: u32, rng: &mut rand::rngs::SmallRng)
        requires
            old(self).bounds_spec(w, h),
            1 <= w <= MAX_DIM,
            1 <= h <= MAX_DIM,
        ensures
            final(self).bounds_spec(w, h),
            final(self).valid_spec(),
            (final(self).x == at_least1(old(self).x) && final(self).y == at_least1(
                old(self).y,
            )) || (final(self).p == old(self).p && 1 <= final(self).x <= extent_cap(w) && 1
                <= final(self).y <= extent_cap(h)),
    {
        if which == 0 {
            self.p.x = clamp_i32(self.p.x + normal_offset(rng, 16), 0, w as i32 - 1);
            self.p.y = clamp_i32(self.p.y + normal_offset(rng, 16), 0, h as i32 - 1);
        } else {
            let wcap: i32 = if w >= 2 {
                w as i32 - 1
            } else {
                1
            };
            let hcap: i32 = if h >= 2 {
                h as i32 - 1
            } else {
                1
            };
            self.x = clamp_i32(self.x as i32 + normal_offset(rng, 16), 1, wcap) as u32;
            self.y = clamp_i32(self.y as i32 + normal_offset(rng, 16), 1, hcap) as u32;
        }
        if self.x < 1 {
            self.x = 1;
        }
        if self.y < 1 {
            self.y = 1;
        }
    }

    /// The four corners, clockwise from the top-left.
    pub open spec fn corners_spec(self) -> Seq<Point> {
        seq![
            self.p,
            Point { x: (self.p.x + self.x) as i32, y: self.p.y },
            Point { x: (self.p.x + self.x) as i32, y: (self.p.y + self.y) as i32 },
            Point { x: self.p.x, y: (self.p.y + self.y) as i32 },
        ]
    }

    fn corner_points(&self, Ghost(w): Ghost<u32>, Ghost(h): Ghost<u32>) -> (r: Vec<Point>)
        requires
            self.bounds_spec(w, h),
            1 <= w <= MAX_DIM,
            1 <= h <= MAX_DIM,
        ensures
            crate::point::points_ok(r@),
            r@.len() == 4,
            r@ == self.corners_spec(),
            forall|j: int|
                0 <= j < 4 ==> ((#[trigger] r@[j]).x == self.p.x || r@[j].x == self.p.x
                    + self.x),
            forall|j: int|
                0 <= j < 4 ==> ((#[trigger] r@[j]).y == self.p.y || r@[j].y == self.p.y
                    + self.y),
    {
        let mut points: Vec<Point> = Vec::new();
        points.push(self.p);
        points.push(Point { x: self.p.x + self.x as i32, y: self.p.y });
        points.push(Point { x: self.p.x + self.x as i32, y: self.p.y + self.y as i32 });
        points.push(Point { x: self.p.x, y: self.p.y + self.y as i32 });
        proof {
            assert(points@ =~= self.corners_spec());
        }
        points
    }
}

impl Shape for Rectangle {
    open spec fn bounds(&self, w: u32, h: u32) -> bool {
        self.bounds_spec(w, h)
    }

    open spec fn valid(&self) -> bool {
        self.valid_spec()
    }

    fn blank() -> (s: Self) {
        Rectangle { p: Point { x: 0, y: 0 }, x: 0, y: 0 }
    }

    fn random(w: u32, h: u32, rng: &mut rand::rngs::SmallRng) -> (s: Self) {
        let px = rng_range_i32(rng, 0, w as i32);
        let py = rng_range_i32(rng, 0, h as i32);
        let x = rng_below(rng, 32) + 1;
        let y = rng_below(rng, 32) + 1;
        Rectangle { p: Point { x: px, y: py }, x, y }
    }

    fn mutate(&mut self, w: u32, h: u32, rng: &mut rand::rngs::SmallRng)
        ensures
            (final(self).x == at_least1(old(self).x) && final(self).y == at_least1(
                old(self).y,
            )) || (final(self).p == old(self).p && 1 <= final(self).x <= extent_cap(w) && 1
                <= final(self).y <= extent_cap(h)),
    {
        let which = rng_below(rng, 2);
        self.do_mutate(w, h, which, rng);
    }

    open spec fn rasterize_spec(&self, w: u32, h: u32) -> Seq<Scanline> {
        crop_lines_spec(
            scan_polygon_spec(self.corners_spec(), w as int, h as int),
            0,
            w as int,
            h as int,
        )
    }

    fn rasterize(&self, w: u32, h: u32) -> (r: Vec<Scanline>) {
        let points = self.corner_points(Ghost(w), Ghost(h));
        let lines = scan_polygon(&points, w, h);
        crop_lines(&lines, w, h)
    }

    fn draw(&self, img: &mut Image, color: &Color) {
        let lines = self.rasterize(img.w, img.h);
        crate::scanline::draw_lines(img, &lines, color);
    }

    open spec fn svg_spec(&self, attr: Seq<char>) -> Seq<char> {
        rect_svg(*self, attr)
    }

    fn to_svg(&self, attr: &str) -> (r: String)
        ensures
            r@ == rect_svg(*self, attr@),
    {
        let mut s = String::from_str("");
        proof {
            reveal_strlit("");
        }
        s.append("<rect ");
        s.append(attr);
        s.append(" x=\"");
        push_int(&mut s, self.p.x as i64);
        s.append("\" y=\"");
        push_int(&mut s, self.p.y as i64);
        s.append("\" width=\"");
        push_u32(&mut s, self.x);
        s.append("\" height=\"");
        push_u32(&mut s, self.y);
        s.append("\" />");
        proof {
            assert(s@ =~= rect_svg(*self, attr@));
        }
        s
    }
}

/// The vector element a rectangle emits.
pub open spec fn rect_svg(t: Rectangle, attr: Seq<char>) -> Seq<char> {
    "<rect "@ + attr + " x=\""@ + dec_of_int(t.p.x as int) + "\" y=\""@ + dec_of_int(
        t.p.y as int,
    ) + "\" width=\""@ + dec_of(t.x as int) + "\" height=\""@ + dec_of(t.y as int) + "\" />"@
}

impl PurrShape for Rectangle {

}

/// A rectangle rotated about its centre by a whole number of degrees.
#[derive(Clone, Copy, Debug, PartialEq, Eq, Structural)]
pub struct RotatedRectangle {
    pub degree: u32,
    pub rect: Rectangle,
}

impl RotatedRectangle {
    pub open spec fn bounds_spec(self, w: u32, h: u32) -> bool {
        &&& self.rect.bounds_spec(w, h)
        &&& self.degree < 360
    }

    /// The rectangle's centre, halves truncated.
    pub open spec fn center_spec(self) -> Point {
        Point {
            x: (self.rect.p.x + self.rect.x as int / 2) as i32,
            y: (self.rect.p.y + self.rect.y as int / 2) as i32,
        }
    }

    /// The four corners rotated about the centre.
    pub open spec fn rotated_corners_spec(self) -> Seq<Point> {
        let c = self.center_spec();
        Seq::new(4, |j: int| rotate_point_spec(c, self.rect.corners_spec()[j], self.degree as int))
    }
}

impl Shape for RotatedRectangle {
    open spec fn bounds(&self, w: u32, h: u32) -> bool {
        self.bounds_spec(w, h)
    }

    open spec fn valid(&self) -> bool {
        self.rect.valid_spec()
    }

    fn blank() -> (s: Self) {
        RotatedRectangle { degree: 0, rect: Rectangle { p: Point { x: 0, y: 0 }, x: 0, y: 0 } }
    }

    fn random(w: u32, h: u32, rng: &mut rand::rngs::SmallRng) -> (s: Self) {
        RotatedRectangle { degree: rng_below(rng, 360), rect: Rectangle::random(w, h, rng) }
    }

    fn mutate(&mut self, w: u32, h: u32, rng: &mut rand::rngs::SmallRng) {
        self.rect.do_mutate(w, h, rng_below(rng, 2), rng);
        let which = rng_below(rng, 3);
        if which == 0 || which == 1 {
            self.rect.do_mutate(w, h, which, rng);
        } else {
            // shift the angle by a normal offset, wrapped into [0, 360)
            let off = normal_offset(rng, 32);
            let shifted: i32 = self.degree as i32 + off + 32 * 360;
            self.degree = (shifted as u32) % 360;
        }
    }

    open spec fn rasterize_spec(&self, w: u32, h: u32) -> Seq<Scanline> {
        crop_lines_spec(
            scan_polygon_spec(self.rotated_corners_spec(), w as int, h as int),
            0,
            w as int,
            h as int,
        )
    }

    fn rasterize(&self, w: u32, h: u32) -> (r: Vec<Scanline>) {
        let c = Point {
            x: self.rect.p.x + (self.rect.x / 2) as i32,
            y: self.rect.p.y + (self.rect.y / 2) as i32,
        };
        let corners = self.rect.corner_points(Ghost(w), Ghost(h));
        let mut points: Vec<Point> = Vec::new();
        points.push(rotate_point(&c, &corners[0], self.degree));
        points.push(rotate_point(&c, &corners[1], self.degree));
        points.push(rotate_point(&c, &corners[2], self.degree));
        points.push(rotate_point(&c, &corners[3], self.degree));
        proof {
            assert(c == self.center_spec());
            assert(points@ =~= self.rotated_corners_spec());
        }
        let lines = scan_polygon(&points, w, h);
        crop_lines(&lines, w, h)
    }

    fn draw(&self, img: &mut Image, color: &Color) {
        let lines = self.rasterize(img.w, img.h);
        crate::scanline::draw_lines(img, &lines, color);
    }

    open spec fn svg_spec(&self, attr: Seq<char>) -> Seq<char> {
        rotated_rect_svg(*self, attr)
    }

    fn to_svg(&self, attr: &str) -> (r: String)
        ensures
            r@ == rotated_rect_svg(*self, attr@),
    {
        let mut s = String::from_str("");
        proof {
            reveal_strlit("");
        }
        s.append("<g transform=\"translate(");
        push_int(&mut s, self.rect.p.x as i64);
        s.append(" ");
        push_int(&mut s, self.rect.p.y as i64);
        s.append(") rotate(");
        push_u32(&mut s, self.degree);
        s.append(" ");
        push_u32(&mut s, self.rect.x / 2);
        s.append(" ");
        push_u32(&mut s, self.rect.y / 2);
        s.append(") scale(");
        push_u32(&mut s, self.rect.x);
        s.append(" ");
        push_u32(&mut s, self.rect.y);
        s.append(")\"><rect ");
        s.append(attr);
        s.append(" x=\"0\" y=\"0\" width=\"1\" height=\"1\" /></g>");
        proof {
            assert(s@ =~= rotated_rect_svg(*self, attr@));
        }
        s
    }
}

/// The vector element a rotated rectangle emits.
pub open spec fn rotated_rect_svg(t: RotatedRectangle, attr: Seq<char>) -> Seq<char> {
    "<g transform=\"translate("@ + dec_of_int(t.rect.p.x as int) + " "@ + dec_of_int(
        t.rect.p.y as int,
    ) + ") rotate("@ + dec_of(t.degree as int) + " "@ + dec_of(t.rect.x as int / 2) + " "@
        + dec_of(t.rect.y as int / 2) + ") scale("@ + dec_of(t.rect.x as int) + " "@ + dec_of(
        t.rect.y as int,
    ) + ")\"><rect "@ + attr + " x=\"0\" y=\"0\" width=\"1\" height=\"1\" /></g>"@
}

impl PurrShape for RotatedRectangle {

}

} // verus!
