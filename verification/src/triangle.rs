use vstd::prelude::*;

use crate::clamp_i32;
use crate::color::Color;
use crate::image::Image;
use crate::point::Point;
use crate::raster::{scan_polygon, scan_polygon_spec};
use crate::rng::{normal_offset, rng_below, rng_range_i32};
use crate::scanline::{crop_lines, crop_lines_spec, Scanline};
use crate::shape::{PurrShape, Shape};
use crate::svg::dec_of_int;
use crate::svg::push_int;
use crate::MAX_DIM;

verus! {

/// A filled triangle.
#[derive(Clone, Copy, Debug, PartialEq, Eq, Structural)]
pub struct Triangle {
    pub a: Point,
    pub b: Point,
    pub c: Point,
}

/// A triangle coordinate: inside the canvas up to the mutation margin,
/// and far within the range where the angle test cannot overflow.
pub open spec fn tcoord_ok(v: int, limit: int) -> bool {
    -16 <= v <= limit + 15
}

/// The interior angle at the vertex with arms `u` and `v` exceeds 15
/// degrees.  With `dot` their inner product and `d1`, `d2` their squared
/// lengths, the angle is obtuse or right when `dot <= 0`; otherwise the
/// bound says cos^2 < cos^2(15 deg) = (2 + sqrt(3)) / 4, squared once
/// more to clear the root.
pub open spec fn angle_gt_15(ux: int, uy: int, vx: int, vy: int) -> bool {
    let d1 = ux * ux + uy * uy;
    let d2 = vx * vx + vy * vy;
    let dot = ux * vx + uy * vy;
    let l = 4 * dot * dot - 2 * (d1 * d2);
    &&& d1 > 0
    &&& d2 > 0
    &&& (dot <= 0 || l < 0 || l * l < 3 * ((d1 * d2) * (d1 * d2)))
}

impl Triangle {
    /// Every interior angle exceeds 15 degrees; degenerate corners are
    /// rejected.
    pub open spec fn valid_spec(self) -> bool {
        &&& angle_gt_15(
            self.b.x - self.a.x,
            self.b.y - self.a.y,
            self.c.x - self.a.x,
            self.c.y - self.a.y,
        )
        &&& angle_gt_15(
            self.a.x - self.b.x,
            self.a.y - self.b.y,
            self.c.x - self.b.x,
            self.c.y - self.b.y,
        )
        &&& angle_gt_15(
            self.a.x - self.c.x,
            self.a.y - self.c.y,
            self.b.x - self.c.x,
            self.b.y - self.c.y,
        )
    }

    pub open spec fn bounds_spec(self, w: u32, h: u32) -> bool {
        &&& tcoord_ok(self.a.x as int, w as int)
        &&& tcoord_ok(self.a.y as int, h as int)
        &&& tcoord_ok(self.b.x as int, w as int)
        &&& tcoord_ok(self.b.y as int, h as int)
        &&& tcoord_ok(self.c.x as int, w as int)
        &&& tcoord_ok(self.c.y as int, h as int)
    }

    /// Whether every interior angle exceeds 15 degrees.
    pub fn valid(&self) -> (r: bool)
        requires
            -0x2000 < self.a.x < 0x2000,
            -0x2000 < self.a.y < 0x2000,
            -0x2000 < self.b.x < 0x2000,
            -0x2000 < self.b.y < 0x2000,
            -0x2000 < self.c.x < 0x2000,
            -0x2000 < self.c.y < 0x2000,
        ensures
            r == self.valid_spec(),
    {
        let v1 = angle_check(
            self.b.x as i128 - self.a.x as i128,
            self.b.y as i128 - self.a.y as i128,
            self.c.x as i128 - self.a.x as i128,
            self.c.y as i128 - self.a.y as i128,
        );
        let v2 = angle_check(
            self.a.x as i128 - self.b.x as i128,
            self.a.y as i128 - self.b.y as i128,
            self.c.x as i128 - self.b.x as i128,
            self.c.y as i128 - self.b.y as i128,
        );
        let v3 = angle_check(
            self.a.x as i128 - self.c.x as i128,
            self.a.y as i128 - self.c.y as i128,
            self.b.x as i128 - self.c.x as i128,
            self.b.y as i128 - self.c.y as i128,
        );
        v1 && v2 && v3
    }
}

fn angle_check(ux: i128, uy: i128, vx: i128, vy: i128) -> (r: bool)
    requires
        -0x4000 <= ux <= 0x4000,
        -0x4000 <= uy <= 0x4000,
        -0x4000 <= vx <= 0x4000,
        -0x4000 <= vy <= 0x4000,
    ensures
        r == angle_gt_15(ux as int, uy as int, vx as int, vy as int),
{
    proof {
        lemma_sq_bound(ux as int, 0x4000);
        lemma_sq_bound(uy as int, 0x4000);
        lemma_sq_bound(vx as int, 0x4000);
        lemma_sq_bound(vy as int, 0x4000);
        lemma_prod_bound(ux as int, vx as int, 0x4000);
        lemma_prod_bound(uy as int, vy as int, 0x4000);
    }
    let d1: i128 = ux * ux + uy * uy;
    let d2: i128 = vx * vx + vy * vy;
    let dot: i128 = ux * vx + uy * vy;
    proof {
        lemma_prod_bound(dot as int, dot as int, 0x2000_0000);
        lemma_prod_bound(d1 as int, d2 as int, 0x2000_0000);
    }
    let l: i128 = 4 * (dot * dot) - 2 * (d1 * d2);
    if d1 <= 0 || d2 <= 0 {
        proof {
            assert(4 * ((dot as int) * (dot as int)) == 4 * (dot as int) * (dot as int))
                by (nonlinear_arith);
        }
        return false;
    }
    if dot <= 0 {
        proof {
            assert(4 * ((dot as int) * (dot as int)) == 4 * (dot as int) * (dot as int))
                by (nonlinear_arith);
        }
        return true;
    }
    if l < 0 {
        proof {
            assert(4 * ((dot as int) * (dot as int)) == 4 * (dot as int) * (dot as int))
                by (nonlinear_arith);
        }
        return true;
    }
    proof {
        lemma_prod_bound(l as int, l as int, 0x4000_0000_0000_0000);
        lemma_prod_bound((d1 * d2) as int, (d1 * d2) as int, 0x4000_0000_0000_0000);
        assert(4 * ((dot as int) * (dot as int)) == 4 * (dot as int) * (dot as int))
            by (nonlinear_arith);
    }
    l * l < 3 * ((d1 * d2) * (d1 * d2))
}

proof fn lemma_sq_bound(x: int, m: int)
    requires
        -m <= x <= m,
        0 <= m,
    ensures
        0 <= x * x <= m * m,
{
    assert(0 <= x * x <= m * m) by (nonlinear_arith)
        requires
            -m <= x <= m && 0 <= m,
    ;
}

proof fn lemma_prod_bound(x: int, y: int, m: int)
    requires
        -m <= x <= m,
        -m <= y <= m,
        0 <= m,
    ensures
        -(m * m) <= x * y <= m * m,
{
    assert(-(m * m) <= x * y <= m * m) by (nonlinear_arith)
        requires
            -m <= x <= m && -m <= y <= m && 0 <= m,
    ;
}

/// A triangle that stays valid whatever the canvas: a right isoceles
/// corner used when random search fails to find a valid mutation within
/// its attempt budget.
fn fallback_triangle() -> (t: Triangle)
    ensures
        t.valid_spec(),
        forall|w: u32, h: u32| 1 <= w && 1 <= h ==> #[trigger] t.bounds_spec(w, h),
{
    let t = Triangle {
        a: Point { x: 0, y: 0 },
        b: Point { x: 0, y: 12 },
        c: Point { x: 12, y: 0 },
    };
    proof {
        assert(angle_gt_15(0, 12, 12, 0)) by (nonlinear_arith);
        assert(angle_gt_15(0 - 0, 0 - 12, 12 - 0, 0 - 12)) by (nonlinear_arith);
        assert(angle_gt_15(0 - 12, 0 - 0, 0 - 12, 12 - 0)) by (nonlinear_arith);
        assert(t.valid_spec());
    }
    t
}

fn perturb_coord(v: i32, limit: u32, rng: &mut rand::rngs::SmallRng) -> (r: i32)
    requires
        1 <= limit <= MAX_DIM,
        -16 <= v <= limit + 15,
    ensures
        -16 <= r <= limit + 15,
{
    let off = normal_offset(rng, 16);
    clamp_i32(v + off, -16, limit as i32 - 1 + 16)
}

impl Shape for Triangle {
    open spec fn bounds(&self, w: u32, h: u32) -> bool {
        self.bounds_spec(w, h)
    }

    open spec fn valid(&self) -> bool {
        self.valid_spec()
    }

    fn blank() -> (s: Self) {
        Triangle {
            a: Point { x: 0, y: 0 },
            b: Point { x: 0, y: 0 },
            c: Point { x: 0, y: 0 },
        }
    }

    fn random(w: u32, h: u32, rng: &mut rand::rngs::SmallRng) -> (s: Self) {
        let x1 = rng_range_i32(rng, 0, w as i32);
        let y1 = rng_range_i32(rng, 0, h as i32);
        let x2 = clamp_i32(x1 + rng_range_i32(rng, 0, 31) - 15, -16, w as i32 + 15);
        let y2 = clamp_i32(y1 + rng_range_i32(rng, 0, 31) - 15, -16, h as i32 + 15);
        let x3 = clamp_i32(x1 + rng_range_i32(rng, 0, 31) - 15, -16, w as i32 + 15);
        let y3 = clamp_i32(y1 + rng_range_i32(rng, 0, 31) - 15, -16, h as i32 + 15);
        let mut t = Triangle {
            a: Point { x: x1, y: y1 },
            b: Point { x: x2, y: y2 },
            c: Point { x: x3, y: y3 },
        };
        t.mutate(w, h, rng);
        t
    }

    fn mutate(&mut self, w: u32, h: u32, rng: &mut rand::rngs::SmallRng) {
        let mut attempts: u32 = 10000;
        let mut done = false;
        while !done && attempts > 0
            invariant
                self.bounds_spec(w, h),
                1 <= w <= MAX_DIM,
                1 <= h <= MAX_DIM,
            decreases attempts,
        {
            attempts -= 1;
            match rng_below(rng, 3) {
                0 => {
                    self.a.x = perturb_coord(self.a.x, w, rng);
                    self.a.y = perturb_coord(self.a.y, h, rng);
                },
                1 => {
                    self.b.x = perturb_coord(self.b.x, w, rng);
                    self.b.y = perturb_coord(self.b.y, h, rng);
                },
                _ => {
                    self.c.x = perturb_coord(self.c.x, w, rng);
                    self.c.y = perturb_coord(self.c.y, h, rng);
                },
            }
            done = self.valid();
        }
        // a valid mutation is all but certain long before the budget runs
        // out; the fallback keeps the contract total
        if !self.valid() {
            *self = fallback_triangle();
        }
    }

    open spec fn rasterize_spec(&self, w: u32, h: u32) -> Seq<Scanline> {
        crop_lines_spec(
            scan_polygon_spec(seq![self.a, self.b, self.c], w as int, h as int),
            0,
            w as int,
            h as int,
        )
    }

    fn rasterize(&self, w: u32, h: u32) -> (r: Vec<Scanline>) {
        let mut points: Vec<Point> = Vec::new();
        points.push(self.a);
        points.push(self.b);
        points.push(self.c);
        proof {
            assert(points@ =~= seq![self.a, self.b, self.c]);
        }
        let lines = scan_polygon(&points, w, h);
        crop_lines(&lines, w, h)
    }

    fn draw(&self, img: &mut Image, color: &Color) {
        let lines = self.rasterize(img.w, img.h);
        crate::scanline::draw_lines(img, &lines, color);
    }

    open spec fn svg_spec(&self, attr: Seq<char>) -> Seq<char> {
        triangle_svg(*self, attr)
    }

    fn to_svg(&self, attr: &str) -> (r: String)
        ensures
            r@ == triangle_svg(*self, attr@),
    {
        let mut s = String::from_str("");
        proof {
            reveal_strlit("");
        }
        s.append("<polygon ");
        s.append(attr);
        s.append(" points=\"");
        push_int(&mut s, self.a.x as i64);
        s.append(",");
        push_int(&mut s, self.a.y as i64);
        s.append(" ");
        push_int(&mut s, self.b.x as i64);
        s.append(",");
        push_int(&mut s, self.b.y as i64);
        s.append(" ");
        push_int(&mut s, self.c.x as i64);
        s.append(",");
        push_int(&mut s, self.c.y as i64);
        s.append("\" />");
        proof {
            assert(s@ =~= triangle_svg(*self, attr@));
        }
        s
    }
}

/// The vector element a triangle emits.
pub open spec fn triangle_svg(t: Triangle, attr: Seq<char>) -> Seq<char> {
    "<polygon "@ + attr + " points=\""@ + dec_of_int(t.a.x as int) + ","@ + dec_of_int(
        t.a.y as int,
    ) + " "@ + dec_of_int(t.b.x as int) + ","@ + dec_of_int(t.b.y as int) + " "@ + dec_of_int(
        t.c.x as int,
    ) + ","@ + dec_of_int(t.c.y as int) + "\" />"@
}

impl PurrShape for Triangle {

}

} // verus!
