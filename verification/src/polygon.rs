use vstd::prelude::*;

use crate::clamp_i32;
use crate::color::Color;
use crate::image::Image;
use crate::point::Point;
use crate::raster::{rasterize_polygon, scan_polygon_spec};
use crate::rng::{normal_offset, rng_below, rng_range_i32};
use crate::scanline::{crop_lines, crop_lines_spec, Scanline};
use crate::shape::{PurrShape, Shape};
use crate::svg::{dec_of_int, push_int};
use crate::MAX_DIM;

verus! {

/// A quadrilateral whose vertices are kept in clockwise order about
/// their centroid.
#[derive(Clone, Copy, Debug)]
pub struct Polygon {
    pub points: [Point; 4],
}

/// A vertex coordinate: inside the canvas up to the mutation margin.
pub open spec fn pcoord_ok(v: int, limit: int) -> bool {
    -36 <= v <= limit + 35
}

/// Division truncating toward zero, as the centroid computation uses.
pub open spec fn tdiv4(a: int) -> int {
    if a >= 0 {
        a / 4
    } else {
        -((-a) / 4)
    }
}

/// The centroid of the four vertices, channel-wise, truncated toward
/// zero.
pub open spec fn centroid_x(p: [Point; 4]) -> int {
    tdiv4(p[0].x + p[1].x + p[2].x + p[3].x)
}

pub open spec fn centroid_y(p: [Point; 4]) -> int {
    tdiv4(p[0].y + p[1].y + p[2].y + p[3].y)
}

/// The angular comparison about the centroid `(cx, cy)`: whether `a`
/// comes strictly after `b` in clockwise order.  Vertices right of the
/// centre precede those left of it; otherwise the cross product decides,
/// with distance from the centre as the tie break.
pub open spec fn cw_after(a: Point, b: Point, cx: int, cy: int) -> bool {
    let ax = a.x - cx;
    let ay = a.y - cy;
    let bx = b.x - cx;
    let by = b.y - cy;
    if ax >= 0 && bx < 0 {
        true
    } else if ax < 0 && bx >= 0 {
        false
    } else if ax == 0 && bx == 0 {
        if ay >= 0 || by >= 0 {
            a.y > b.y
        } else {
            b.y > a.y
        }
    } else {
        let det = ax * by - bx * ay;
        if det < 0 {
            true
        } else if det > 0 {
            false
        } else {
            ax * ax + ay * ay > bx * bx + by * by
        }
    }
}

fn cw_after_exec(a: Point, b: Point, cx: i64, cy: i64) -> (r: bool)
    requires
        -0x8000 < a.x < 0x8000,
        -0x8000 < a.y < 0x8000,
        -0x8000 < b.x < 0x8000,
        -0x8000 < b.y < 0x8000,
        -0x8000 < cx < 0x8000,
        -0x8000 < cy < 0x8000,
    ensures
        r == cw_after(a, b, cx as int, cy as int),
{
    let ax: i64 = a.x as i64 - cx;
    let ay: i64 = a.y as i64 - cy;
    let bx: i64 = b.x as i64 - cx;
    let by: i64 = b.y as i64 - cy;
    proof {
        lemma_pmul(ax as int, by as int);
        lemma_pmul(bx as int, ay as int);
        lemma_pmul(ax as int, ax as int);
        lemma_pmul(ay as int, ay as int);
        lemma_pmul(bx as int, bx as int);
        lemma_pmul(by as int, by as int);
    }
    if ax >= 0 && bx < 0 {
        true
    } else if ax < 0 && bx >= 0 {
        false
    } else if ax == 0 && bx == 0 {
        if ay >= 0 || by >= 0 {
            a.y > b.y
        } else {
            b.y > a.y
        }
    } else {
        let det: i64 = ax * by - bx * ay;
        if det < 0 {
            true
        } else if det > 0 {
            false
        } else {
            ax * ax + ay * ay > bx * bx + by * by
        }
    }
}

proof fn lemma_pmul(x: int, y: int)
    requires
        -0x10000 <= x <= 0x10000,
        -0x10000 <= y <= 0x10000,
    ensures
        -0x1_0000_0000 <= x * y <= 0x1_0000_0000,
{
    assert(-0x1_0000_0000 <= x * y <= 0x1_0000_0000) by (nonlinear_arith)
        requires
            -0x10000 <= x <= 0x10000 && -0x10000 <= y <= 0x10000,
    ;
}

/// The fixed clockwise quadrilateral the mutation falls back to when no
/// valid winding is reached within the attempt budget.
pub open spec fn fallback_points() -> Seq<Point> {
    seq![
        Point { x: 0, y: 12 },
        Point { x: 0, y: 0 },
        Point { x: 12, y: 0 },
        Point { x: 12, y: 12 },
    ]
}

impl Polygon {
    pub open spec fn bounds_spec(self, w: u32, h: u32) -> bool {
        forall|i: int|
            0 <= i < 4 ==> pcoord_ok((#[trigger] self.points@[i]).x as int, w as int)
                && pcoord_ok(self.points@[i].y as int, h as int)
    }

    /// Adjacent vertices are in clockwise order about the centroid.
    pub open spec fn valid_spec(self) -> bool {
        forall|i: int|
            0 <= i < 3 ==> !cw_after(
                #[trigger] self.points@[i],
                self.points@[i + 1],
                centroid_x(self.points),
                centroid_y(self.points),
            )
    }

    /// Whether adjacent vertices are in clockwise order about the
    /// centroid.
    pub fn check_valid(&self) -> (r: bool)
        requires
            exists|w: u32, h: u32|
                1 <= w <= MAX_DIM && 1 <= h <= MAX_DIM && #[trigger] self.bounds_spec(w, h),
        ensures
            r == self.valid_spec(),
    {
        let (cx, cy) = self.centroid();
        let ok01 = !cw_after_exec(self.points[0], self.points[1], cx, cy);
        let ok12 = !cw_after_exec(self.points[1], self.points[2], cx, cy);
        let ok23 = !cw_after_exec(self.points[2], self.points[3], cx, cy);
        let r = ok01 && ok12 && ok23;
        proof {
            assert(r == self.valid_spec()) by {
                assert(self.valid_spec() ==> !cw_after(
                    self.points@[0],
                    self.points@[1],
                    centroid_x(self.points),
                    centroid_y(self.points),
                ) && !cw_after(
                    self.points@[1],
                    self.points@[2],
                    centroid_x(self.points),
                    centroid_y(self.points),
                ) && !cw_after(
                    self.points@[2],
                    self.points@[3],
                    centroid_x(self.points),
                    centroid_y(self.points),
                ));
                if ok01 && ok12 && ok23 {
                    assert forall|i: int| 0 <= i < 3 implies !cw_after(
                        #[trigger] self.points@[i],
                        self.points@[i + 1],
                        centroid_x(self.points),
                        centroid_y(self.points),
                    ) by {
                        if i == 0 {
                        } else if i == 1 {
                        } else {
                        }
                    }
                }
            }
        }
        r
    }

    fn centroid(&self) -> (r: (i64, i64))
        requires
            exists|w: u32, h: u32|
                1 <= w <= MAX_DIM && 1 <= h <= MAX_DIM && #[trigger] self.bounds_spec(w, h),
        ensures
            r.0 == centroid_x(self.points),
            r.1 == centroid_y(self.points),
            -0x8000 < r.0 < 0x8000,
            -0x8000 < r.1 < 0x8000,
    {
        proof {
            let (w, h) = choose|w: u32, h: u32|
                1 <= w <= MAX_DIM && 1 <= h <= MAX_DIM && #[trigger] self.bounds_spec(w, h);
            assert(self.bounds_spec(w, h));
        }
        let sx: i64 = self.points[0].x as i64 + self.points[1].x as i64 + self.points[2].x as i64
            + self.points[3].x as i64;
        let sy: i64 = self.points[0].y as i64 + self.points[1].y as i64 + self.points[2].y as i64
            + self.points[3].y as i64;
        let cx: i64 = if sx >= 0 {
            sx / 4
        } else {
            -((-sx) / 4)
        };
        let cy: i64 = if sy >= 0 {
            sy / 4
        } else {
            -((-sy) / 4)
        };
        (cx, cy)
    }

    /// Sort the vertices clockwise about their centroid, by insertion
    /// over the angular comparison; the vertices themselves only change
    /// places.
    pub fn clockwise(&mut self, Ghost(w): Ghost<u32>, Ghost(h): Ghost<u32>)
        requires
            old(self).bounds_spec(w, h),
            1 <= w <= MAX_DIM,
            1 <= h <= MAX_DIM,
        ensures
            final(self).bounds_spec(w, h),
            final(self).points@.to_multiset() == old(self).points@.to_multiset(),
    {
        let (cx, cy) = self.centroid();
        let mut k: usize = 1;
        while k < 4
            invariant
                1 <= k <= 4,
                self.bounds_spec(w, h),
                self.points@.to_multiset() == old(self).points@.to_multiset(),
                1 <= w <= MAX_DIM,
                1 <= h <= MAX_DIM,
                -0x8000 < cx < 0x8000,
                -0x8000 < cy < 0x8000,
            decreases 4 - k,
        {
            let mut j: usize = k;
            while j > 0 && cw_after_exec(self.points[j - 1], self.points[j], cx, cy)
                invariant
                    j <= k < 4,
                    self.bounds_spec(w, h),
                    self.points@.to_multiset() == old(self).points@.to_multiset(),
                    1 <= w <= MAX_DIM,
                    1 <= h <= MAX_DIM,
                    -0x8000 < cx < 0x8000,
                    -0x8000 < cy < 0x8000,
                decreases j,
            {
                let pj = self.points[j];
                let pj1 = self.points[j - 1];
                let ghost before = self.points@;
                self.points.set(j, pj1);
                self.points.set(j - 1, pj);
                proof {
                    broadcast use vstd::seq_lib::group_to_multiset_ensures;

                    vstd::seq_lib::to_multiset_update(before, j as int, pj1);
                    vstd::seq_lib::to_multiset_update(
                        before.update(j as int, pj1),
                        j - 1,
                        pj,
                    );
                    assert(before.contains(pj)) by {
                        assert(before[j as int] == pj);
                    }
                    assert(before.to_multiset().count(pj) > 0);
                    assert(self.points@ =~= before.update(j as int, pj1).update(j - 1, pj));
                    assert(self.points@.to_multiset() =~= before.to_multiset());
                }
                j -= 1;
            }
            k += 1;
        }
    }
}

/// A quadrilateral that is clockwise about its centroid whatever the
/// canvas, used when a mutation fails to reach a valid winding within
/// its attempt budget.
fn fallback_polygon() -> (p: Polygon)
    ensures
        p.valid_spec(),
        forall|w: u32, h: u32| 1 <= w && 1 <= h ==> #[trigger] p.bounds_spec(w, h),
        p.points@ =~= fallback_points(),
{
    let p = Polygon {
        points: [
            Point { x: 0, y: 12 },
            Point { x: 0, y: 0 },
            Point { x: 12, y: 0 },
            Point { x: 12, y: 12 },
        ],
    };
    proof {
        assert(centroid_x(p.points) == 6 && centroid_y(p.points) == 6);
        assert((-6) * (-6) - (-6) * 6 == 72) by (nonlinear_arith);
        assert(6 * 6 - 6 * (-6) == 72) by (nonlinear_arith);
        assert(!cw_after(p.points@[0], p.points@[1], 6, 6));
        assert(!cw_after(p.points@[1], p.points@[2], 6, 6));
        assert(!cw_after(p.points@[2], p.points@[3], 6, 6));
        assert forall|i: int| 0 <= i < 3 implies !cw_after(
            #[trigger] p.points@[i],
            p.points@[i + 1],
            centroid_x(p.points),
            centroid_y(p.points),
        ) by {
        }
    }
    p
}

impl Shape for Polygon {
    open spec fn bounds(&self, w: u32, h: u32) -> bool {
        self.bounds_spec(w, h)
    }

    open spec fn valid(&self) -> bool {
        self.valid_spec()
    }

    fn blank() -> (s: Self) {
        let z = Point { x: 0, y: 0 };
        Polygon { points: [z, z, z, z] }
    }

    fn random(w: u32, h: u32, rng: &mut rand::rngs::SmallRng) -> (s: Self) {
        let x0 = rng_range_i32(rng, 0, w as i32);
        let y0 = rng_range_i32(rng, 0, h as i32);
        let mut poly = Polygon {
            points: [
                Point { x: x0, y: y0 },
                Point {
                    x: clamp_i32(x0 + rng_range_i32(rng, -20, 20), -36, w as i32 + 35),
                    y: clamp_i32(y0 + rng_range_i32(rng, -20, 20), -36, h as i32 + 35),
                },
                Point {
                    x: clamp_i32(x0 + rng_range_i32(rng, -20, 20), -36, w as i32 + 35),
                    y: clamp_i32(y0 + rng_range_i32(rng, -20, 20), -36, h as i32 + 35),
                },
                Point {
                    x: clamp_i32(x0 + rng_range_i32(rng, -20, 20), -36, w as i32 + 35),
                    y: clamp_i32(y0 + rng_range_i32(rng, -20, 20), -36, h as i32 + 35),
                },
            ],
        };
        poly.mutate(w, h, rng);
        poly
    }

    fn mutate(&mut self, w: u32, h: u32, rng: &mut rand::rngs::SmallRng)
        ensures
            final(self).points@.to_multiset() == old(self).points@.to_multiset() || (exists|
                i: int,
                p: Point,
            |
                0 <= i < 4 && final(self).points@.to_multiset() == #[trigger] old(
                    self,
                ).points@.to_multiset().remove(old(self).points@[i]).insert(p))
                || final(self).points@ =~= fallback_points(),
    {
        let which = rng_below(rng, 4);
        if which == 0 {
            let i = rng_below(rng, 4) as usize;
            let j = rng_below(rng, 4) as usize;
            if i != j {
                let pi = self.points[i];
                let pj = self.points[j];
                let ghost before = self.points@;
                self.points.set(i, pj);
                self.points.set(j, pi);
                proof {
                    broadcast use vstd::seq_lib::group_to_multiset_ensures;

                    vstd::seq_lib::to_multiset_update(before, i as int, pj);
                    vstd::seq_lib::to_multiset_update(before.update(i as int, pj), j as int, pi);
                    assert(before.contains(pj)) by {
                        assert(before[j as int] == pj);
                    }
                    assert(before.to_multiset().count(pj) > 0);
                    assert(self.points@ =~= before.update(i as int, pj).update(j as int, pi));
                    assert(self.points@.to_multiset() =~= before.to_multiset());
                }
            }
        } else {
            let i = rng_below(rng, 4) as usize;
            let p = self.points[i];
            let nx = clamp_i32(p.x + normal_offset(rng, 16), -16, w as i32 - 1 + 16);
            let ny = clamp_i32(p.y + normal_offset(rng, 16), -16, h as i32 - 1 + 16);
            let ghost before = self.points@;
            self.points.set(i, Point { x: nx, y: ny });
            proof {
                broadcast use vstd::seq_lib::group_to_multiset_ensures;

                vstd::seq_lib::to_multiset_update(before, i as int, Point { x: nx, y: ny });
                assert(before.contains(before[i as int]));
                assert(before.to_multiset().count(before[i as int]) > 0);
                assert(self.points@.to_multiset() == before.to_multiset().insert(
                    Point { x: nx, y: ny },
                ).remove(before[i as int]));
                assert(before.to_multiset().insert(Point { x: nx, y: ny }).remove(
                    before[i as int],
                ) =~= before.to_multiset().remove(before[i as int]).insert(
                    Point { x: nx, y: ny },
                ));
            }
        }
        self.clockwise(Ghost(w), Ghost(h));
        proof {
            assert(1 <= w <= MAX_DIM && 1 <= h <= MAX_DIM && self.bounds_spec(w, h));
        }
        // the angular insertion always yields a clockwise winding; the
        // fallback keeps the contract total
        if !self.check_valid() {
            *self = fallback_polygon();
        }
    }

    open spec fn rasterize_spec(&self, w: u32, h: u32) -> Seq<Scanline> {
        crop_lines_spec(
            scan_polygon_spec(
                seq![self.points@[0], self.points@[1], self.points@[2], self.points@[3]],
                w as int,
                h as int,
            ),
            0,
            w as int,
            h as int,
        )
    }

    fn rasterize(&self, w: u32, h: u32) -> (r: Vec<Scanline>) {
        let mut points: Vec<Point> = Vec::new();
        points.push(self.points[0]);
        points.push(self.points[1]);
        points.push(self.points[2]);
        points.push(self.points[3]);
        proof {
            assert(points@ =~= seq![
                self.points@[0],
                self.points@[1],
                self.points@[2],
                self.points@[3],
            ]);
        }
        let lines = rasterize_polygon(&points, w, h);
        crop_lines(&lines, w, h)
    }

    fn draw(&self, img: &mut Image, color: &Color) {
        let lines = self.rasterize(img.w, img.h);
        crate::scanline::draw_lines(img, &lines, color);
    }

    open spec fn svg_spec(&self, attr: Seq<char>) -> Seq<char> {
        polygon_svg(*self, attr)
    }

    fn to_svg(&self, attr: &str) -> (r: String)
        ensures
            r@ == polygon_svg(*self, attr@),
    {
        let mut s = String::from_str("");
        proof {
            reveal_strlit("");
        }
        s.append("<polygon ");
        s.append(attr);
        s.append(" points=\"");
        push_int(&mut s, self.points[0].x as i64);
        s.append(",");
        push_int(&mut s, self.points[0].y as i64);
        s.append(",");
        push_int(&mut s, self.points[1].x as i64);
        s.append(",");
        push_int(&mut s, self.points[1].y as i64);
        s.append(",");
        push_int(&mut s, self.points[2].x as i64);
        s.append(",");
        push_int(&mut s, self.points[2].y as i64);
        s.append(",");
        push_int(&mut s, self.points[3].x as i64);
        s.append(",");
        push_int(&mut s, self.points[3].y as i64);
        s.append("\"/>");
        proof {
            assert(s@ =~= polygon_svg(*self, attr@));
        }
        s
    }
}

/// The vector element a quadrilateral emits.
pub open spec fn polygon_svg(t: Polygon, attr: Seq<char>) -> Seq<char> {
    "<polygon "@ + attr + " points=\""@ + dec_of_int(t.points@[0].x as int) + ","@ + dec_of_int(
        t.points@[0].y as int,
    ) + ","@ + dec_of_int(t.points@[1].x as int) + ","@ + dec_of_int(t.points@[1].y as int) + ","@
        + dec_of_int(t.points@[2].x as int) + ","@ + dec_of_int(t.points@[2].y as int) + ","@
        + dec_of_int(t.points@[3].x as int) + ","@ + dec_of_int(t.points@[3].y as int) + "\"/>"@
}

impl PurrShape for Polygon {

}

} // verus!
