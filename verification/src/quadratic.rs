use vstd::prelude::*;

use crate::clamp_i32;
use crate::color::Color;
use crate::image::Image;
use crate::point::Point;
use crate::raster::{quad_spec, rasterize_quad_bezier};
use crate::rng::{normal_offset, rng_below, rng_range_i32};
use crate::scanline::{crop_lines, crop_lines_spec, line_ok, line_ok_cropped, Scanline};
use crate::shape::{PurrShape, Shape};
use crate::svg::{dec_of_int, push_int, replace_fill, replace_fill_spec};
use crate::MAX_DIM;

verus! {

/// A quadratic Bezier stroke with control points `p0`, `p1`, `p2`.
#[derive(Clone, Copy, Debug, PartialEq, Eq, Structural)]
pub struct Quadratic {
    pub p0: Point,
    pub p1: Point,
    pub p2: Point,
}

/// A control coordinate: inside the canvas up to the random margin.
pub open spec fn qcoord_ok(v: int, limit: int) -> bool {
    -32 <= v <= limit + 31
}

impl Quadratic {
    pub open spec fn bounds_spec(self, w: u32, h: u32) -> bool {
        &&& qcoord_ok(self.p0.x as int, w as int)
        &&& qcoord_ok(self.p0.y as int, h as int)
        &&& qcoord_ok(self.p1.x as int, w as int)
        &&& qcoord_ok(self.p1.y as int, h as int)
        &&& qcoord_ok(self.p2.x as int, w as int)
        &&& qcoord_ok(self.p2.y as int, h as int)
    }

    /// No backward cusp: the chord from `p0` to `p2` is strictly longer
    /// than either control arm.
    pub open spec fn valid_spec(self) -> bool {
        let d01 = sq(self.p0.x - self.p1.x) + sq(self.p0.y - self.p1.y);
        let d12 = sq(self.p1.x - self.p2.x) + sq(self.p1.y - self.p2.y);
        let d02 = sq(self.p0.x - self.p2.x) + sq(self.p0.y - self.p2.y);
        d02 > d01 && d02 > d12
    }

    /// Whether the stroke has no backward cusp.
    pub fn valid(&self) -> (r: bool)
        requires
            -0x2000 < self.p0.x < 0x2000,
            -0x2000 < self.p0.y < 0x2000,
            -0x2000 < self.p1.x < 0x2000,
            -0x2000 < self.p1.y < 0x2000,
            -0x2000 < self.p2.x < 0x2000,
            -0x2000 < self.p2.y < 0x2000,
        ensures
            r == self.valid_spec(),
    {
        let d01 = sq_exec(self.p0.x as i64 - self.p1.x as i64) + sq_exec(
            self.p0.y as i64 - self.p1.y as i64,
        );
        let d12 = sq_exec(self.p1.x as i64 - self.p2.x as i64) + sq_exec(
            self.p1.y as i64 - self.p2.y as i64,
        );
        let d02 = sq_exec(self.p0.x as i64 - self.p2.x as i64) + sq_exec(
            self.p0.y as i64 - self.p2.y as i64,
        );
        d02 > d01 && d02 > d12
    }
}

pub open spec fn sq(x: int) -> int {
    x * x
}

fn sq_exec(x: i64) -> (r: i64)
    requires
        -0x4000 <= x <= 0x4000,
    ensures
        r == sq(x as int),
        0 <= r <= 0x1000_0000,
{
    proof {
        assert(0 <= (x as int) * (x as int) <= 0x1000_0000) by (nonlinear_arith)
            requires
                -0x4000 <= x <= 0x4000,
        ;
    }
    x * x
}

/// A stroke that is valid on any canvas, used when random search fails to
/// find a valid mutation within its attempt budget.
fn fallback_quadratic() -> (q: Quadratic)
    ensures
        q.valid_spec(),
        forall|w: u32, h: u32| 1 <= w && 1 <= h ==> #[trigger] q.bounds_spec(w, h),
{
    let q = Quadratic {
        p0: Point { x: 0, y: 0 },
        p1: Point { x: 5, y: 0 },
        p2: Point { x: 12, y: 0 },
    };
    proof {
        assert(sq(0 - 5) == 25 && sq(5 - 12) == 49 && sq(0 - 12) == 144 && sq(0 - 0) == 0)
            by (nonlinear_arith);
        assert(q.valid_spec());
    }
    q
}

fn perturb_qcoord(v: i32, limit: u32, rng: &mut rand::rngs::SmallRng) -> (r: i32)
    requires
        1 <= limit <= MAX_DIM,
        -32 <= v <= limit + 31,
    ensures
        0 <= r <= limit - 1,
{
    let off = normal_offset(rng, 16);
    clamp_i32(v + off, 0, limit as i32 - 1)
}

impl Shape for Quadratic {
    open spec fn bounds(&self, w: u32, h: u32) -> bool {
        self.bounds_spec(w, h)
    }

    open spec fn valid(&self) -> bool {
        self.valid_spec()
    }

    fn blank() -> (s: Self) {
        Quadratic {
            p0: Point { x: 0, y: 0 },
            p1: Point { x: 0, y: 0 },
            p2: Point { x: 0, y: 0 },
        }
    }

    fn random(w: u32, h: u32, rng: &mut rand::rngs::SmallRng) -> (s: Self) {
        let px = rng_range_i32(rng, 0, w as i32);
        let py = rng_range_i32(rng, 0, h as i32);
        let p0 = Point { x: px, y: py };
        let p1 = Point {
            x: clamp_i32(px + rng_range_i32(rng, -20, 20), -32, w as i32 + 31),
            y: clamp_i32(py + rng_range_i32(rng, -20, 20), -32, h as i32 + 31),
        };
        let p2 = Point {
            x: clamp_i32(px + rng_range_i32(rng, -20, 20), -32, w as i32 + 31),
            y: clamp_i32(py + rng_range_i32(rng, -20, 20), -32, h as i32 + 31),
        };
        let mut q = Quadratic { p0, p1, p2 };
        q.mutate(w, h, rng);
        q
    }

    fn mutate(&mut self, w: u32, h: u32, rng: &mut rand::rngs::SmallRng) {
        let mut attempts: u32 = 10000;
        let mut done = false;
        while !done && attempts > 0
            invariant
                self.bounds_spec(w, h),
                1 <= w <= MAX_DIM,
                1 <= h <= MAX_DIM,
            decreases attempts,
        {
            attempts -= 1;
            match rng_below(rng, 3) {
                0 => {
                    self.p0.x = perturb_qcoord(self.p0.x, w, rng);
                    self.p0.y = perturb_qcoord(self.p0.y, h, rng);
                },
                1 => {
                    self.p1.x = perturb_qcoord(self.p1.x, w, rng);
                    self.p1.y = perturb_qcoord(self.p1.y, h, rng);
                },
                _ => {
                    self.p2.x = perturb_qcoord(self.p2.x, w, rng);
                    self.p2.y = perturb_qcoord(self.p2.y, h, rng);
                },
            }
            done = self.valid();
        }
        // a valid mutation is all but certain long before the budget runs
        // out; the fallback keeps the contract total
        if !self.valid() {
            *self = fallback_quadratic();
        }
    }

    open spec fn rasterize_spec(&self, w: u32, h: u32) -> Seq<Scanline> {
        crop_lines_spec(quadratic_lines_spec(*self, w as int, h as int), 0, w as int, h as int)
    }

    fn rasterize(&self, w: u32, h: u32) -> (r: Vec<Scanline>) {
        let lines = rasterize_quadratic(self, w, h);
        crop_lines(&lines, w, h)
    }

    fn draw(&self, img: &mut Image, color: &Color) {
        let lines = self.rasterize(img.w, img.h);
        crate::scanline::draw_lines(img, &lines, color);
    }

    open spec fn svg_spec(&self, attr: Seq<char>) -> Seq<char> {
        quadratic_svg(*self, attr)
    }

    fn to_svg(&self, attr: &str) -> (r: String)
        ensures
            r@ == quadratic_svg(*self, attr@),
    {
        let stroked = replace_fill(attr);
        let mut s = String::from_str("");
        proof {
            reveal_strlit("");
        }
        s.append("<path ");
        s.append(stroked.as_str());
        s.append(" fill=\"none\" d=\"M ");
        push_int(&mut s, self.p0.x as i64);
        s.append(" ");
        push_int(&mut s, self.p0.y as i64);
        s.append(" Q ");
        push_int(&mut s, self.p1.x as i64);
        s.append(" ");
        push_int(&mut s, self.p1.y as i64);
        s.append(", ");
        push_int(&mut s, self.p2.x as i64);
        s.append(" ");
        push_int(&mut s, self.p2.y as i64);
        s.append("\" stroke-width=\"1\" />");
        proof {
            assert(s@ =~= quadratic_svg(*self, attr@));
        }
        s
    }
}

/// The vector element a stroke emits: a one-pixel-wide path whose
/// attributes carry stroke rather than fill colors.
pub open spec fn quadratic_svg(t: Quadratic, attr: Seq<char>) -> Seq<char> {
    "<path "@ + replace_fill_spec(attr, 0) + " fill=\"none\" d=\"M "@ + dec_of_int(
        t.p0.x as int,
    ) + " "@ + dec_of_int(t.p0.y as int) + " Q "@ + dec_of_int(t.p1.x as int) + " "@
        + dec_of_int(t.p1.y as int) + ", "@ + dec_of_int(t.p2.x as int) + " "@ + dec_of_int(
        t.p2.y as int,
    ) + "\" stroke-width=\"1\" />"@
}

impl PurrShape for Quadratic {

}

/// The rows collected after the curve walk: one scanline per buffer row
/// the left buffer reached, clamped into the canvas.
pub open spec fn quad_collect(
    lhs: Seq<i32>,
    rhs: Seq<i32>,
    i: int,
    acc: Seq<crate::scanline::Scanline>,
    w: int,
    h: int,
    ymin: int,
) -> Seq<crate::scanline::Scanline>
    decreases lhs.len() - i,
{
    if i < 0 || i >= lhs.len() {
        acc
    } else {
        let y = i + ymin;
        let acc2 = if 0 <= y < h && i < rhs.len() && lhs[i] >= 0 {
            acc.push(
                crate::scanline::Scanline {
                    y: y as u32,
                    x1: crate::clamp_spec(lhs[i] as int, 0, w - 1) as u32,
                    x2: crate::clamp_spec(rhs[i] as int, 0, w - 1) as u32,
                },
            )
        } else {
            acc
        };
        quad_collect(lhs, rhs, i + 1, acc2, w, h, ymin)
    }
}

/// The stroke rasterization as a function: the curve walk's single-pixel
/// rows plus the rows its closing chords reached.
pub open spec fn quadratic_lines_spec(q: Quadratic, w: int, h: int) -> Seq<
    crate::scanline::Scanline,
> {
    let ymin1: int = if q.p1.y < q.p0.y {
        q.p1.y as int
    } else {
        q.p0.y as int
    };
    let ymin = if q.p2.y < ymin1 {
        q.p2.y as int
    } else {
        ymin1
    };
    let ymax1: int = if q.p1.y > q.p0.y {
        q.p1.y as int
    } else {
        q.p0.y as int
    };
    let ymax = if q.p2.y > ymax1 {
        q.p2.y as int
    } else {
        ymax1
    };
    let range = ymax - ymin;
    let lhs0 = Seq::new((range + 2) as nat, |k: int| i32::MAX);
    let rhs0 = Seq::new((range + 2) as nat, |k: int| i32::MIN);
    let walked = quad_spec(
        q.p0.x as int,
        q.p0.y as int,
        q.p1.x as int,
        q.p1.y as int,
        q.p2.x as int,
        q.p2.y as int,
        lhs0,
        rhs0,
        Seq::empty(),
        w,
        h,
        ymin,
    );
    quad_collect(walked.0, walked.1, 0, walked.2, w, h, ymin)
}

/// Rasterize the stroke: walk the curve, writing single-pixel rows and
/// edge columns, then collect the rows the left buffer reached.
pub fn rasterize_quadratic(q: &Quadratic, w: u32, h: u32) -> (r: Vec<Scanline>)
    requires
        q.bounds_spec(w, h),
        1 <= w <= MAX_DIM,
        1 <= h <= MAX_DIM,
    ensures
        r@.len() <= 0x400000,
        forall|j: int|
            0 <= j < r@.len() ==> (#[trigger] r@[j]).x1 < w && r@[j].x2 < w && r@[j].y < h,
        r@ == quadratic_lines_spec(*q, w as int, h as int),
{
    let mut ymin: i32 = q.p0.y;
    let mut ymax: i32 = q.p0.y;
    if q.p1.y < ymin {
        ymin = q.p1.y;
    }
    if q.p1.y > ymax {
        ymax = q.p1.y;
    }
    if q.p2.y < ymin {
        ymin = q.p2.y;
    }
    if q.p2.y > ymax {
        ymax = q.p2.y;
    }
    let range: usize = (ymax - ymin) as usize;
    let mut buf_lhs: Vec<i32> = Vec::new();
    let mut buf_rhs: Vec<i32> = Vec::new();
    let mut j: usize = 0;
    while j < range + 2
        invariant
            j <= range + 2,
            range <= 2 * MAX_DIM + 64,
            buf_lhs@.len() == j,
            buf_rhs@.len() == j,
            buf_lhs@ =~= Seq::new(j as nat, |k: int| i32::MAX),
            buf_rhs@ =~= Seq::new(j as nat, |k: int| i32::MIN),
        decreases range + 2 - j,
    {
        buf_lhs.push(i32::MAX);
        buf_rhs.push(i32::MIN);
        proof {
            assert(buf_lhs@ =~= Seq::new(j as nat + 1, |k: int| i32::MAX));
            assert(buf_rhs@ =~= Seq::new(j as nat + 1, |k: int| i32::MIN));
        }
        j += 1;
    }
    let mut scanlines: Vec<Scanline> = Vec::new();
    proof {
        assert(scanlines@ =~= Seq::<Scanline>::empty());
    }
    rasterize_quad_bezier(
        q.p0.x,
        q.p0.y,
        q.p1.x,
        q.p1.y,
        q.p2.x,
        q.p2.y,
        &mut buf_lhs,
        &mut buf_rhs,
        &mut scanlines,
        w,
        h,
        ymin,
    );
    let ghost qtarget = quad_collect(
        buf_lhs@,
        buf_rhs@,
        0,
        scanlines@,
        w as int,
        h as int,
        ymin as int,
    );
    proof {
        assert(qtarget == quadratic_lines_spec(*q, w as int, h as int));
    }
    let n = buf_lhs.len();
    let mut i: usize = 0;
    while i < n
        invariant
            i <= n == buf_lhs@.len() == buf_rhs@.len() <= 2 * MAX_DIM + 66,
            1 <= w <= MAX_DIM,
            1 <= h <= MAX_DIM,
            -0x8000 < ymin < 0x8000,
            scanlines@.len() <= 0x300004 + i,
            forall|j2: int|
                0 <= j2 < scanlines@.len() ==> (#[trigger] scanlines@[j2]).x1 < w
                    && scanlines@[j2].x2 < w && scanlines@[j2].y < h,
            quad_collect(buf_lhs@, buf_rhs@, i as int, scanlines@, w as int, h as int, ymin as int)
                == qtarget,
        decreases n - i,
    {
        let y: i64 = i as i64 + ymin as i64;
        if y >= 0 && y < h as i64 {
            if buf_lhs[i] >= 0 {
                let line = Scanline {
                    y: y as u32,
                    x1: crate::clamp_i64(buf_lhs[i] as i64, 0, w as i64 - 1) as u32,
                    x2: crate::clamp_i64(buf_rhs[i] as i64, 0, w as i64 - 1) as u32,
                };
                scanlines.push(line);
            }
        }
        i += 1;
    }
    scanlines
}

} // verus!
