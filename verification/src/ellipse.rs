use vstd::prelude::*;

use crate::clamp_i32;
use crate::color::Color;
use crate::image::Image;
use crate::point::Point;
use crate::raster::{ellipse_lines_spec, rasterize_ellipse, rasterize_rotated_ellipse, rotated_ellipse_lines_spec};
use crate::rng::{normal_offset, rng_below, rng_range_i32};
use crate::scanline::{crop_lines, crop_lines_spec, Scanline};
use crate::shape::{PurrShape, Shape};
use crate::svg::{dec_of, dec_of_int, push_int, push_u32};
use crate::MAX_DIM;

verus! {

/// An axis-aligned ellipse: centre `o` and radii `rx`, `ry`.
#[derive(Clone, Copy, Debug, PartialEq, Eq, Structural)]
pub struct Ellipse {
    pub o: Point,
    pub rx: u32,
    pub ry: u32,
}

/// A radius after the mutation fix-up: unchanged, except lifted to one.
pub open spec fn at_least1(v: u32) -> u32 {
    if v < 1 {
        1u32
    } else {
        v
    }
}

/// The cap a radius or extent is clamped to on a `limit`-wide canvas.
pub open spec fn extent_cap(limit: u32) -> u32 {
    if limit >= 2 {
        (limit - 1) as u32
    } else {
        1u32
    }
}

impl Ellipse {
    pub open spec fn bounds_spec(self, w: u32, h: u32) -> bool {
        &&& 0 <= self.o.x < w
        &&& 0 <= self.o.y < h
        &&& self.rx <= MAX_DIM
        &&& self.ry <= MAX_DIM
    }

    /// Both radii are at least one pixel.
    pub open spec fn valid_spec(self) -> bool {
        self.rx >= 1 && self.ry >= 1
    }

    /// Perturb the centre within the canvas.
    pub fn mutate_o(&mut self, w: u32, h: u32, rng: &mut rand::rngs::SmallRng)
        requires
            old(self).bounds_spec(w, h),
            1 <= w <= MAX_DIM,
            1 <= h <= MAX_DIM,
        ensures
            final(self).bounds_spec(w, h),
            final(self).rx == old(self).rx,
            final(self).ry == old(self).ry,
    {
        self.o.x = clamp_i32(self.o.x + normal_offset(rng, 16), 0, w as i32 - 1);
        self.o.y = clamp_i32(self.o.y + normal_offset(rng, 16), 0, h as i32 - 1);
    }

    /// Perturb the horizontal radius, keeping it at least one.
    pub fn mutate_rx(&mut self, w: u32, rng: &mut rand::rngs::SmallRng)
        requires
            old(self).rx <= MAX_DIM,
            1 <= w <= MAX_DIM,
        ensures
            final(self).o == old(self).o,
            final(self).ry == old(self).ry,
            1 <= final(self).rx <= MAX_DIM,
            final(self).rx <= extent_cap(w),
    {
        let cap: i32 = if w >= 2 {
            w as i32 - 1
        } else {
            1
        };
        self.rx = clamp_i32(self.rx as i32 + normal_offset(rng, 16), 1, cap) as u32;
    }

    /// Perturb the vertical radius, keeping it at least one.
    pub fn mutate_ry(&mut self, h: u32, rng: &mut rand::rngs::SmallRng)
        requires
            old(self).ry <= MAX_DIM,
            1 <= h <= MAX_DIM,
        ensures
            final(self).o == old(self).o,
            final(self).rx == old(self).rx,
            1 <= final(self).ry <= MAX_DIM,
            final(self).ry <= extent_cap(h),
    {
        let cap: i32 = if h >= 2 {
            h as i32 - 1
        } else {
            1
        };
        self.ry = clamp_i32(self.ry as i32 + normal_offset(rng, 16), 1, cap) as u32;
    }
}

impl Shape for Ellipse {
    open spec fn bounds(&self, w: u32, h: u32) -> bool {
        self.bounds_spec(w, h)
    }

    open spec fn valid(&self) -> bool {
        self.valid_spec()
    }

    fn blank() -> (s: Self) {
        Ellipse { o: Point { x: 0, y: 0 }, rx: 0, ry: 0 }
    }

    fn random(w: u32, h: u32, rng: &mut rand::rngs::SmallRng) -> (s: Self) {
        let x = rng_range_i32(rng, 0, w as i32);
        let y = rng_range_i32(rng, 0, h as i32);
        let rx = rng_below(rng, 32) + 1;
        let ry = rng_below(rng, 32) + 1;
        Ellipse { o: Point { x, y }, rx, ry }
    }

    fn mutate(&mut self, w: u32, h: u32, rng: &mut rand::rngs::SmallRng)
        ensures
            (final(self).rx == at_least1(old(self).rx) && final(self).ry == at_least1(
                old(self).ry,
            )) || (final(self).o == old(self).o && 1 <= final(self).rx <= extent_cap(w)
                && final(self).ry == at_least1(old(self).ry)) || (final(self).o == old(self).o
                && final(self).rx == at_least1(old(self).rx) && 1 <= final(self).ry
                <= extent_cap(h)),
    {
        match rng_below(rng, 3) {
            0 => {
                self.mutate_o(w, h, rng);
            },
            1 => {
                self.mutate_rx(w, rng);
            },
            _ => {
                self.mutate_ry(h, rng);
            },
        }
        if self.rx < 1 {
            self.rx = 1;
        }
        if self.ry < 1 {
            self.ry = 1;
        }
    }

    open spec fn rasterize_spec(&self, w: u32, h: u32) -> Seq<Scanline> {
        if self.rx < 1 || self.ry < 1 {
            Seq::empty()
        } else {
            crop_lines_spec(
                ellipse_lines_spec(self.o, self.rx as int, self.ry as int),
                0,
                w as int,
                h as int,
            )
        }
    }

    fn rasterize(&self, w: u32, h: u32) -> (r: Vec<Scanline>) {
        if self.rx < 1 || self.ry < 1 {
            let r: Vec<Scanline> = Vec::new();
            proof {
                assert(r@ =~= Seq::<Scanline>::empty());
            }
            return r;
        }
        let lines = rasterize_ellipse(&self.o, self.rx, self.ry);
        crop_lines(&lines, w, h)
    }

    fn draw(&self, img: &mut Image, color: &Color) {
        let lines = self.rasterize(img.w, img.h);
        crate::scanline::draw_lines(img, &lines, color);
    }

    open spec fn svg_spec(&self, attr: Seq<char>) -> Seq<char> {
        ellipse_svg(*self, attr)
    }

    fn to_svg(&self, attr: &str) -> (r: String)
        ensures
            r@ == ellipse_svg(*self, attr@),
    {
        let mut s = String::from_str("");
        proof {
            reveal_strlit("");
        }
        s.append("<ellipse ");
        s.append(attr);
        s.append(" cx=\"");
        push_int(&mut s, self.o.x as i64);
        s.append("\" cy=\"");
        push_int(&mut s, self.o.y as i64);
        s.append("\" rx=\"");
        push_u32(&mut s, self.rx);
        s.append("\" ry=\"");
        push_u32(&mut s, self.ry);
        s.append("\" />");
        proof {
            assert(s@ =~= ellipse_svg(*self, attr@));
        }
        s
    }
}

/// The vector element an ellipse emits.
pub open spec fn ellipse_svg(t: Ellipse, attr: Seq<char>) -> Seq<char> {
    "<ellipse "@ + attr + " cx=\""@ + dec_of_int(t.o.x as int) + "\" cy=\""@ + dec_of_int(
        t.o.y as int,
    ) + "\" rx=\""@ + dec_of(t.rx as int) + "\" ry=\""@ + dec_of(t.ry as int) + "\" />"@
}

impl PurrShape for Ellipse {

}

/// An ellipse rotated about its centre by a whole number of degrees.
#[derive(Clone, Copy, Debug, PartialEq, Eq, Structural)]
pub struct RotatedEllipse {
    pub degree: u32,
    pub ellipse: Ellipse,
}

impl RotatedEllipse {
    pub open spec fn bounds_spec(self, w: u32, h: u32) -> bool {
        &&& self.ellipse.bounds_spec(w, h)
        &&& self.degree < 360
    }
}

impl Shape for RotatedEllipse {
    open spec fn bounds(&self, w: u32, h: u32) -> bool {
        self.bounds_spec(w, h)
    }

    open spec fn valid(&self) -> bool {
        self.ellipse.valid_spec()
    }

    fn blank() -> (s: Self) {
        RotatedEllipse { degree: 0, ellipse: Ellipse { o: Point { x: 0, y: 0 }, rx: 0, ry: 0 } }
    }

    fn random(w: u32, h: u32, rng: &mut rand::rngs::SmallRng) -> (s: Self) {
        RotatedEllipse { degree: rng_below(rng, 360), ellipse: Ellipse::random(w, h, rng) }
    }

    fn mutate(&mut self, w: u32, h: u32, rng: &mut rand::rngs::SmallRng) {
        match rng_below(rng, 4) {
            0 => {
                self.ellipse.mutate_o(w, h, rng);
            },
            1 => {
                self.ellipse.mutate_rx(w, rng);
            },
            2 => {
                self.ellipse.mutate_ry(h, rng);
            },
            _ => {
                // shift the angle by a normal offset, wrapped into [0, 360)
                let off = normal_offset(rng, 32);
                let shifted: i32 = self.degree as i32 + off + 32 * 360;
                self.degree = (shifted as u32) % 360;
            },
        }
        if self.ellipse.rx < 1 {
            self.ellipse.rx = 1;
        }
        if self.ellipse.ry < 1 {
            self.ellipse.ry = 1;
        }
    }

    open spec fn rasterize_spec(&self, w: u32, h: u32) -> Seq<Scanline> {
        if self.ellipse.rx < 1 || self.ellipse.ry < 1 {
            Seq::empty()
        } else {
            crop_lines_spec(
                rotated_ellipse_lines_spec(
                    self.ellipse.o,
                    self.ellipse.rx as int,
                    self.ellipse.ry as int,
                    self.degree as int,
                ),
                0,
                w as int,
                h as int,
            )
        }
    }

    fn rasterize(&self, w: u32, h: u32) -> (r: Vec<Scanline>) {
        if self.ellipse.rx < 1 || self.ellipse.ry < 1 {
            let r: Vec<Scanline> = Vec::new();
            proof {
                assert(r@ =~= Seq::<Scanline>::empty());
            }
            return r;
        }
        let lines = rasterize_rotated_ellipse(
            &self.ellipse.o,
            self.ellipse.rx,
            self.ellipse.ry,
            self.degree,
            w,
            h,
        );
        crop_lines(&lines, w, h)
    }

    fn draw(&self, img: &mut Image, color: &Color) {
        let lines = self.rasterize(img.w, img.h);
        crate::scanline::draw_lines(img, &lines, color);
    }

    open spec fn svg_spec(&self, attr: Seq<char>) -> Seq<char> {
        rotated_ellipse_svg(*self, attr)
    }

    fn to_svg(&self, attr: &str) -> (r: String)
        ensures
            r@ == rotated_ellipse_svg(*self, attr@),
    {
        let mut s = String::from_str("");
        proof {
            reveal_strlit("");
        }
        s.append("<g transform=\"translate(");
        push_int(&mut s, self.ellipse.o.x as i64);
        s.append(" ");
        push_int(&mut s, self.ellipse.o.y as i64);
        s.append(") rotate(");
        push_u32(&mut s, self.degree);
        s.append(") scale(");
        push_u32(&mut s, self.ellipse.rx);
        s.append(" ");
        push_u32(&mut s, self.ellipse.ry);
        s.append(")\"><ellipse ");
        s.append(attr);
        s.append(" cx=\"0\" cy=\"0\" rx=\"1\" ry=\"1\" /></g>");
        proof {
            assert(s@ =~= rotated_ellipse_svg(*self, attr@));
        }
        s
    }
}

/// The vector element a rotated ellipse emits.
pub open spec fn rotated_ellipse_svg(t: RotatedEllipse, attr: Seq<char>) -> Seq<char> {
    "<g transform=\"translate("@ + dec_of_int(t.ellipse.o.x as int) + " "@ + dec_of_int(
        t.ellipse.o.y as int,
    ) + ") rotate("@ + dec_of(t.degree as int) + ") scale("@ + dec_of(t.ellipse.rx as int) + " "@
        + dec_of(t.ellipse.ry as int) + ")\"><ellipse "@ + attr
        + " cx=\"0\" cy=\"0\" rx=\"1\" ry=\"1\" /></g>"@
}

impl PurrShape for RotatedEllipse {

}

} // verus!
