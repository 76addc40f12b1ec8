use vstd::prelude::*;

use crate::clamp_i64;
use crate::point::{point_ok, points_ok, wide_point_ok, Point, COORD_LIMIT, WIDE_LIMIT};
use crate::scanline::{line_ok_cropped, Scanline};
use crate::MAX_DIM;

verus! {

/// Guard on the Bresenham error accumulators; reached by no input the
/// shapes can produce, it only makes the walkers' bounds obvious.
pub const WALK_LIMIT: i64 = 0x4000_0000_0000;

/// Both column buffers cover the same rows.
pub open spec fn bufs_wf(lhs: Seq<i32>, rhs: Seq<i32>) -> bool {
    lhs.len() == rhs.len()
}

/// One walker visit: record the clamped column on the visited row, per
/// the edge direction.
pub open spec fn walk_touch(
    x0: int,
    y0: int,
    rdir: bool,
    ldir: bool,
    lhs: Seq<i32>,
    rhs: Seq<i32>,
    w: int,
    h: int,
    ymin: int,
) -> (Seq<i32>, Seq<i32>) {
    let yrow = y0 - ymin;
    if 0 <= yrow < h && yrow < lhs.len() && x0 >= 0 {
        let x = crate::clamp_spec(x0, 0, w - 1) as i32;
        if rdir {
            (lhs, rhs.update(yrow, x))
        } else if ldir {
            (lhs.update(yrow, x), rhs)
        } else {
            (
                lhs.update(
                    yrow,
                    if x < lhs[yrow] {
                        x
                    } else {
                        lhs[yrow]
                    },
                ),
                rhs.update(
                    yrow,
                    if x > rhs[yrow] {
                        x
                    } else {
                        rhs[yrow]
                    },
                ),
            )
        }
    } else {
        (lhs, rhs)
    }
}

/// The walker equation, spelled once for the loop proofs.
pub proof fn lemma_line_walk_unfold(
    x0: int,
    y0: int,
    x1: int,
    y1: int,
    dx: int,
    dy: int,
    sx: int,
    sy: int,
    err: int,
    fuel: int,
    rdir: bool,
    ldir: bool,
    lhs: Seq<i32>,
    rhs: Seq<i32>,
    w: int,
    h: int,
    ymin: int,
)
    requires
        fuel > 0,
        -WALK_LIMIT <= err <= WALK_LIMIT,
    ensures
        line_walk(x0, y0, x1, y1, dx, dy, sx, sy, err, fuel, rdir, ldir, lhs, rhs, w, h, ymin)
            == ({
            let touched = walk_touch(x0, y0, rdir, ldir, lhs, rhs, w, h, ymin);
            let e2 = 2 * err;
            if e2 >= dy && x0 == x1 {
                touched
            } else {
                let xs = if e2 >= dy {
                    (x0 + sx, err + dy)
                } else {
                    (x0, err)
                };
                if e2 <= dx && y0 == y1 {
                    touched
                } else {
                    let ys = if e2 <= dx {
                        (y0 + sy, xs.1 + dx)
                    } else {
                        (y0, xs.1)
                    };
                    line_walk(
                        xs.0,
                        ys.0,
                        x1,
                        y1,
                        dx,
                        dy,
                        sx,
                        sy,
                        ys.1,
                        fuel - 1,
                        rdir,
                        ldir,
                        touched.0,
                        touched.1,
                        w,
                        h,
                        ymin,
                    )
                }
            }
        }),
{
}

/// One Bresenham walk of the segment, as a function: the buffers after
/// the remaining steps from the given walker state.
pub open spec fn line_walk(
    x0: int,
    y0: int,
    x1: int,
    y1: int,
    dx: int,
    dy: int,
    sx: int,
    sy: int,
    err: int,
    fuel: int,
    rdir: bool,
    ldir: bool,
    lhs: Seq<i32>,
    rhs: Seq<i32>,
    w: int,
    h: int,
    ymin: int,
) -> (Seq<i32>, Seq<i32>)
    decreases fuel,
{
    if fuel <= 0 {
        (lhs, rhs)
    } else if err > WALK_LIMIT || err < -WALK_LIMIT {
        (lhs, rhs)
    } else {
        let touched = walk_touch(x0, y0, rdir, ldir, lhs, rhs, w, h, ymin);
        let e2 = 2 * err;
        if e2 >= dy && x0 == x1 {
            touched
        } else {
            let xs = if e2 >= dy {
                (x0 + sx, err + dy)
            } else {
                (x0, err)
            };
            if e2 <= dx && y0 == y1 {
                touched
            } else {
                let ys = if e2 <= dx {
                    (y0 + sy, xs.1 + dx)
                } else {
                    (y0, xs.1)
                };
                line_walk(
                    xs.0,
                    ys.0,
                    x1,
                    y1,
                    dx,
                    dy,
                    sx,
                    sy,
                    ys.1,
                    fuel - 1,
                    rdir,
                    ldir,
                    touched.0,
                    touched.1,
                    w,
                    h,
                    ymin,
                )
            }
        }
    }
}

/// The buffers after Bresenham-walking `p0 -> p1`: descending edges fill
/// the right buffer, ascending the left, horizontal both.
pub open spec fn line_spec(
    p0: Point,
    p1: Point,
    lhs: Seq<i32>,
    rhs: Seq<i32>,
    w: int,
    h: int,
    ymin: int,
) -> (Seq<i32>, Seq<i32>) {
    let dx = if p1.x - p0.x >= 0 {
        p1.x - p0.x
    } else {
        p0.x - p1.x
    };
    let dy = if p1.y - p0.y >= 0 {
        p0.y - p1.y
    } else {
        p1.y - p0.y
    };
    let sx: int = if p0.x < p1.x {
        1
    } else {
        -1
    };
    let sy: int = if p0.y < p1.y {
        1
    } else {
        -1
    };
    line_walk(
        p0.x as int,
        p0.y as int,
        p1.x as int,
        p1.y as int,
        dx,
        dy,
        sx,
        sy,
        dx + dy,
        dx - dy + 2,
        p1.y > p0.y,
        p1.y < p0.y,
        lhs,
        rhs,
        w,
        h,
        ymin,
    )
}

/// Walk the segment `p0 -> p1` and record, for every visited row within
/// the buffers, the column reached: descending edges fill the right
/// buffer, ascending the left, horizontal both.  `ymin` is the row the
/// buffers start at.
#[verifier::rlimit(100)]
pub fn rasterize_line(
    p0: &Point,
    p1: &Point,
    buf_lhs: &mut Vec<i32>,
    buf_rhs: &mut Vec<i32>,
    w: u32,
    h: u32,
    ymin: i32,
)
    requires
        wide_point_ok(*p0),
        wide_point_ok(*p1),
        1 <= w <= MAX_DIM,
        1 <= h <= MAX_DIM,
        -WIDE_LIMIT < ymin < WIDE_LIMIT,
        bufs_wf(old(buf_lhs)@, old(buf_rhs)@),
    ensures
        final(buf_lhs)@.len() == old(buf_lhs)@.len(),
        final(buf_rhs)@.len() == old(buf_rhs)@.len(),
        (final(buf_lhs)@, final(buf_rhs)@) == line_spec(
            *p0,
            *p1,
            old(buf_lhs)@,
            old(buf_rhs)@,
            w as int,
            h as int,
            ymin as int,
        ),
{
    let ghost target = line_spec(*p0, *p1, old(buf_lhs)@, old(buf_rhs)@, w as int, h as int, ymin as int);
    let mut x0: i64 = p0.x as i64;
    let mut y0: i64 = p0.y as i64;
    let x1: i64 = p1.x as i64;
    let y1: i64 = p1.y as i64;
    let dx: i64 = if x1 - x0 >= 0 {
        x1 - x0
    } else {
        x0 - x1
    };
    let dy: i64 = if y1 - y0 >= 0 {
        y0 - y1
    } else {
        y1 - y0
    };
    let sx: i64 = if x0 < x1 {
        1
    } else {
        -1
    };
    let sy: i64 = if y0 < y1 {
        1
    } else {
        -1
    };
    let mut err: i64 = dx + dy;
    let rhs = p1.y - p0.y > 0;
    let lhs = p1.y - p0.y < 0;
    let mut fuel: i64 = dx - dy + 2;
    loop
        invariant_except_break
            line_walk(
                x0 as int,
                y0 as int,
                x1 as int,
                y1 as int,
                dx as int,
                dy as int,
                sx as int,
                sy as int,
                err as int,
                fuel as int,
                rhs,
                lhs,
                buf_lhs@,
                buf_rhs@,
                w as int,
                h as int,
                ymin as int,
            ) == target,
        invariant
            buf_lhs@.len() == old(buf_lhs)@.len(),
            buf_rhs@.len() == old(buf_rhs)@.len(),
            bufs_wf(buf_lhs@, buf_rhs@),
            1 <= w <= MAX_DIM,
            1 <= h <= MAX_DIM,
            -WIDE_LIMIT < ymin < WIDE_LIMIT,
            -WIDE_LIMIT - (4 * WIDE_LIMIT as i64 + 2 - fuel) <= x0 <= WIDE_LIMIT + (4
                * WIDE_LIMIT as i64 + 2 - fuel),
            -WIDE_LIMIT - (4 * WIDE_LIMIT as i64 + 2 - fuel) <= y0 <= WIDE_LIMIT + (4
                * WIDE_LIMIT as i64 + 2 - fuel),
            -WIDE_LIMIT < x1 < WIDE_LIMIT,
            -WIDE_LIMIT < y1 < WIDE_LIMIT,
            0 <= dx < 2 * WIDE_LIMIT,
            -2 * WIDE_LIMIT < dy <= 0,
            -2 * WALK_LIMIT <= err <= 2 * WALK_LIMIT,
            0 <= fuel <= 4 * WIDE_LIMIT + 2,
            sx == 1 || sx == -1,
            sy == 1 || sy == -1,
        ensures
            buf_lhs@.len() == old(buf_lhs)@.len(),
            buf_rhs@.len() == old(buf_rhs)@.len(),
            (buf_lhs@, buf_rhs@) == target,
        decreases fuel,
    {
        let ghost gx0 = x0 as int;
        let ghost gy0 = y0 as int;
        let ghost gerr = err as int;
        let ghost gfuel = fuel as int;
        let ghost glhs = buf_lhs@;
        let ghost grhs = buf_rhs@;
        if fuel == 0 {
            proof {
                assert((buf_lhs@, buf_rhs@) == target);
            }
            break;
        }
        fuel -= 1;
        if err > WALK_LIMIT || err < -WALK_LIMIT {
            proof {
                assert((buf_lhs@, buf_rhs@) == target);
            }
            break;
        }
        let yrow: i64 = y0 - ymin as i64;
        if yrow >= 0 && yrow < h as i64 && (yrow as usize) < buf_lhs.len() {
            if x0 >= 0 {
                let x: i32 = clamp_i64(x0, 0, w as i64 - 1) as i32;
                let idx: usize = yrow as usize;
                if rhs {
                    buf_rhs.set(idx, x);
                } else if lhs {
                    buf_lhs.set(idx, x);
                } else {
                    let lo = buf_lhs[idx];
                    let hi = buf_rhs[idx];
                    buf_lhs.set(idx, if x < lo {
                        x
                    } else {
                        lo
                    });
                    buf_rhs.set(idx, if x > hi {
                        x
                    } else {
                        hi
                    });
                }
            }
        }
        proof {
            lemma_line_walk_unfold(
                gx0,
                gy0,
                x1 as int,
                y1 as int,
                dx as int,
                dy as int,
                sx as int,
                sy as int,
                gerr,
                gfuel,
                rhs,
                lhs,
                glhs,
                grhs,
                w as int,
                h as int,
                ymin as int,
            );
            assert(buf_lhs@ == walk_touch(gx0, gy0, rhs, lhs, glhs, grhs, w as int, h as int, ymin as int).0);
            assert(buf_rhs@ == walk_touch(gx0, gy0, rhs, lhs, glhs, grhs, w as int, h as int, ymin as int).1);
        }
        let e2: i64 = 2 * err;
        if e2 >= dy {
            if x0 == x1 {
                proof {
                    assert((buf_lhs@, buf_rhs@) == target);
                }
                break;
            }
            err += dy;
            x0 += sx;
        }
        if e2 <= dx {
            if y0 == y1 {
                proof {
                    assert((buf_lhs@, buf_rhs@) == target);
                }
                break;
            }
            err += dx;
            y0 += sy;
        }
    }
}

/// The running row minimum / maximum of the vertices from index `i`.
pub open spec fn fold_ymin(points: Seq<Point>, i: int, cur: int) -> int
    decreases points.len() - i,
{
    if i < 0 || i >= points.len() {
        cur
    } else {
        fold_ymin(points, i + 1, if (points[i].y as int) < cur {
            points[i].y as int
        } else {
            cur
        })
    }
}

pub open spec fn fold_ymax(points: Seq<Point>, i: int, cur: int) -> int
    decreases points.len() - i,
{
    if i < 0 || i >= points.len() {
        cur
    } else {
        fold_ymax(points, i + 1, if (points[i].y as int) > cur {
            points[i].y as int
        } else {
            cur
        })
    }
}

/// The buffers after walking every polygon edge from index `i` on,
/// closing edge excluded.
pub open spec fn edges_walk(
    points: Seq<Point>,
    i: int,
    lhs: Seq<i32>,
    rhs: Seq<i32>,
    w: int,
    h: int,
    ymin: int,
) -> (Seq<i32>, Seq<i32>)
    decreases points.len() - i,
{
    if i < 0 || i + 1 >= points.len() {
        (lhs, rhs)
    } else {
        let b = line_spec(points[i], points[i + 1], lhs, rhs, w, h, ymin);
        edges_walk(points, i + 1, b.0, b.1, w, h, ymin)
    }
}

/// The scanlines collected from the buffers, one per reached row inside
/// the canvas, clamped columns.
pub open spec fn collect_walk(
    lhs: Seq<i32>,
    rhs: Seq<i32>,
    i: int,
    acc: Seq<Scanline>,
    w: int,
    h: int,
    ymin: int,
) -> Seq<Scanline>
    decreases lhs.len() - i,
{
    if i < 0 || i >= lhs.len() {
        acc
    } else {
        let y = i + ymin;
        let acc2 = if 0 <= y < h && i < rhs.len() && rhs[i] >= 0 {
            acc.push(
                Scanline {
                    y: y as u32,
                    x1: crate::clamp_spec(lhs[i] as int, 0, w - 1) as u32,
                    x2: crate::clamp_spec(rhs[i] as int, 0, w - 1) as u32,
                },
            )
        } else {
            acc
        };
        collect_walk(lhs, rhs, i + 1, acc2, w, h, ymin)
    }
}

/// The polygon scan as a function: Bresenham every edge into per-row
/// buffers sized by the vertex row range, then collect the reached rows.
pub open spec fn scan_polygon_spec(points: Seq<Point>, w: int, h: int) -> Seq<Scanline> {
    if points.len() < 3 {
        Seq::empty()
    } else {
        let ymin = fold_ymin(points, 0, i32::MAX as int);
        let ymax = fold_ymax(points, 0, i32::MIN as int);
        let range = ymax - ymin;
        let lhs0 = Seq::new((range + 1) as nat, |j: int| i32::MAX);
        let rhs0 = Seq::new((range + 1) as nat, |j: int| i32::MIN);
        let b = edges_walk(points, 0, lhs0, rhs0, w, h, ymin);
        let c = line_spec(points[points.len() - 1], points[0], b.0, b.1, w, h, ymin);
        collect_walk(c.0, c.1, 0, Seq::empty(), w, h, ymin)
    }
}

/// Collect one scanline per buffer row that some edge reached on its
/// right side, clamping each into the canvas.
fn collect_rows(
    buf_lhs: &Vec<i32>,
    buf_rhs: &Vec<i32>,
    w: u32,
    h: u32,
    ymin: i32,
) -> (r: Vec<Scanline>)
    requires
        1 <= w <= MAX_DIM,
        1 <= h <= MAX_DIM,
        -COORD_LIMIT < ymin < COORD_LIMIT,
        bufs_wf(buf_lhs@, buf_rhs@),
        buf_lhs@.len() <= 4 * COORD_LIMIT,
    ensures
        forall|j: int|
            0 <= j < r@.len() ==> line_ok_cropped(#[trigger] r@[j], w as int, h as int),
        r@.len() <= buf_lhs@.len(),
        r@ == collect_walk(buf_lhs@, buf_rhs@, 0, Seq::<Scanline>::empty(), w as int, h as int, ymin as int),
{
    let n = buf_lhs.len();
    let mut r: Vec<Scanline> = Vec::new();
    let mut i: usize = 0;
    proof {
        assert(r@ =~= Seq::<Scanline>::empty());
    }
    while i < n
        invariant
            i <= n == buf_lhs@.len() == buf_rhs@.len() <= 4 * COORD_LIMIT,
            1 <= w <= MAX_DIM,
            1 <= h <= MAX_DIM,
            -COORD_LIMIT < ymin < COORD_LIMIT,
            forall|j: int|
                0 <= j < r@.len() ==> line_ok_cropped(#[trigger] r@[j], w as int, h as int),
            r@.len() <= i,
            collect_walk(buf_lhs@, buf_rhs@, i as int, r@, w as int, h as int, ymin as int)
                == collect_walk(
                buf_lhs@,
                buf_rhs@,
                0,
                Seq::<Scanline>::empty(),
                w as int,
                h as int,
                ymin as int,
            ),
        decreases n - i,
    {
        let y: i64 = i as i64 + ymin as i64;
        if y >= 0 && y < h as i64 {
            if buf_rhs[i] >= 0 {
                let line = Scanline {
                    y: y as u32,
                    x1: clamp_i64(buf_lhs[i] as i64, 0, w as i64 - 1) as u32,
                    x2: clamp_i64(buf_rhs[i] as i64, 0, w as i64 - 1) as u32,
                };
                r.push(line);
            }
        }
        i += 1;
    }
    r
}

/// Scanline-rasterize a closed polygon given clockwise: Bresenham each
/// edge into per-row column buffers, then emit one clamped scanline per
/// reached row.  Fewer than three points yield nothing.
pub fn scan_polygon(points: &Vec<Point>, w: u32, h: u32) -> (r: Vec<Scanline>)
    requires
        points_ok(points@),
        points@.len() <= 16,
        1 <= w <= MAX_DIM,
        1 <= h <= MAX_DIM,
    ensures
        forall|j: int|
            0 <= j < r@.len() ==> line_ok_cropped(#[trigger] r@[j], w as int, h as int),
        points@.len() < 3 ==> r@.len() == 0,
        r@.len() <= 0x20001,
        r@ == scan_polygon_spec(points@, w as int, h as int),
{
    if points.len() < 3 {
        let r: Vec<Scanline> = Vec::new();
        proof {
            assert(r@ =~= scan_polygon_spec(points@, w as int, h as int));
        }
        return r;
    }
    let mut ymin: i32 = i32::MAX;
    let mut ymax: i32 = i32::MIN;
    let n = points.len();
    let mut i: usize = 0;
    while i < n
        invariant
            i <= n == points@.len(),
            points_ok(points@),
            i > 0 ==> -COORD_LIMIT < ymin < COORD_LIMIT,
            i > 0 ==> -COORD_LIMIT < ymax < COORD_LIMIT,
            i > 0 ==> ymin <= ymax,
            i == 0 ==> ymin == i32::MAX && ymax == i32::MIN,
            fold_ymin(points@, i as int, ymin as int) == fold_ymin(
                points@,
                0,
                i32::MAX as int,
            ),
            fold_ymax(points@, i as int, ymax as int) == fold_ymax(
                points@,
                0,
                i32::MIN as int,
            ),
        decreases n - i,
    {
        let p = points[i];
        if p.y < ymin {
            ymin = p.y;
        }
        if p.y > ymax {
            ymax = p.y;
        }
        i += 1;
    }
    proof {
        assert(ymin as int == fold_ymin(points@, 0, i32::MAX as int));
        assert(ymax as int == fold_ymax(points@, 0, i32::MIN as int));
    }
    let range: usize = (ymax - ymin) as usize;
    let mut buf_lhs: Vec<i32> = Vec::new();
    let mut buf_rhs: Vec<i32> = Vec::new();
    let mut j: usize = 0;
    while j < range + 1
        invariant
            j <= range + 1,
            range < 2 * COORD_LIMIT,
            buf_lhs@.len() == j,
            buf_rhs@.len() == j,
            buf_lhs@ =~= Seq::new(j as nat, |k: int| i32::MAX),
            buf_rhs@ =~= Seq::new(j as nat, |k: int| i32::MIN),
        decreases range + 1 - j,
    {
        buf_lhs.push(i32::MAX);
        buf_rhs.push(i32::MIN);
        proof {
            assert(buf_lhs@ =~= Seq::new(j as nat + 1, |k: int| i32::MAX));
            assert(buf_rhs@ =~= Seq::new(j as nat + 1, |k: int| i32::MIN));
        }
        j += 1;
    }
    let mut i: usize = 0;
    while i < n - 1
        invariant
            i <= n - 1,
            n == points@.len(),
            3 <= n <= 16,
            points_ok(points@),
            1 <= w <= MAX_DIM,
            1 <= h <= MAX_DIM,
            -COORD_LIMIT < ymin < COORD_LIMIT,
            bufs_wf(buf_lhs@, buf_rhs@),
            buf_lhs@.len() == range + 1,
            edges_walk(points@, i as int, buf_lhs@, buf_rhs@, w as int, h as int, ymin as int)
                == edges_walk(
                points@,
                0,
                Seq::new((range + 1) as nat, |k: int| i32::MAX),
                Seq::new((range + 1) as nat, |k: int| i32::MIN),
                w as int,
                h as int,
                ymin as int,
            ),
        decreases n - 1 - i,
    {
        let p0 = points[i];
        let p1 = points[i + 1];
        rasterize_line(&p0, &p1, &mut buf_lhs, &mut buf_rhs, w, h, ymin);
        i += 1;
    }
    let plast = points[n - 1];
    let pfirst = points[0];
    rasterize_line(&plast, &pfirst, &mut buf_lhs, &mut buf_rhs, w, h, ymin);
    let r = collect_rows(&buf_lhs, &buf_rhs, w, h, ymin);
    proof {
        assert(r@ == scan_polygon_spec(points@, w as int, h as int));
    }
    r
}

/// The same polygon scan under the name the shape code uses.
pub fn rasterize_polygon(points: &Vec<Point>, w: u32, h: u32) -> (r: Vec<Scanline>)
    requires
        points_ok(points@),
        points@.len() <= 16,
        1 <= w <= MAX_DIM,
        1 <= h <= MAX_DIM,
    ensures
        forall|j: int|
            0 <= j < r@.len() ==> line_ok_cropped(#[trigger] r@[j], w as int, h as int),
        points@.len() < 3 ==> r@.len() == 0,
        r@.len() <= 0x20001,
        r@ == scan_polygon_spec(points@, w as int, h as int),
{
    scan_polygon(points, w, h)
}

/// Clamp a coordinate at zero, in specification form.
pub open spec fn at_least0(n: int) -> u32 {
    if n >= 0 {
        n as u32
    } else {
        0
    }
}

/// The mirrored pair of scanlines the midpoint walker emits for offsets
/// `(x, y)` about the centre, rows below zero dropped.
pub open spec fn ellipse_emit(
    ox: int,
    oy: int,
    x: int,
    y: int,
    acc: Seq<Scanline>,
) -> Seq<Scanline> {
    let acc1 = if oy + y >= 0 {
        acc.push(
            Scanline { y: (oy + y) as u32, x1: at_least0(ox + x), x2: at_least0(ox - x) },
        )
    } else {
        acc
    };
    if y != 0 && oy - y >= 0 {
        acc1.push(Scanline { y: (oy - y) as u32, x1: at_least0(ox + x), x2: at_least0(ox - x) })
    } else {
        acc1
    }
}

/// The first midpoint phase: walk the quadrant arc, emitting a mirrored
/// row pair at each new row.  Returns the emitted lines and the row
/// offset reached.
pub open spec fn ellipse_walk(
    ox: int,
    oy: int,
    rxi: int,
    ryi: int,
    x: int,
    y: int,
    dx: int,
    dy: int,
    err: int,
    skip: bool,
    fuel: int,
    acc: Seq<Scanline>,
) -> (Seq<Scanline>, int)
    decreases fuel,
{
    if fuel <= 0 {
        (acc, y)
    } else if x > 0 {
        (acc, y)
    } else if err > WALK_LIMIT || err < -WALK_LIMIT || dx > WALK_LIMIT || dx < -WALK_LIMIT || dy
        > WALK_LIMIT || dy < -WALK_LIMIT {
        (acc, y)
    } else {
        let acc2 = if !skip {
            ellipse_emit(ox, oy, x, y, acc)
        } else {
            acc
        };
        let e2 = 2 * err;
        let xs = if e2 >= dx {
            (x + 1, dx + 2 * (ryi * ryi), true)
        } else {
            (x, dx, skip)
        };
        let errx = if e2 >= dx {
            err + xs.1
        } else {
            err
        };
        let ys = if e2 <= dy {
            (y + 1, dy + 2 * (rxi * rxi), false)
        } else {
            (y + 0, dy, xs.2)
        };
        let erry = if e2 <= dy {
            errx + ys.1
        } else {
            errx
        };
        ellipse_walk(ox, oy, rxi, ryi, xs.0, ys.0, xs.1, ys.1, erry, ys.2, fuel - 1, acc2)
    }
}

/// The second midpoint phase: the centre column down to the vertical
/// radius, one mirrored pair per row.
pub open spec fn ellipse_tail(
    ox: int,
    oy: int,
    ryi: int,
    y: int,
    fuel2: int,
    acc: Seq<Scanline>,
) -> Seq<Scanline>
    decreases fuel2,
{
    if y >= ryi || fuel2 <= 0 {
        acc
    } else {
        let acc1 = if oy + y >= 0 {
            acc.push(Scanline { y: (oy + y) as u32, x1: at_least0(ox), x2: at_least0(ox) })
        } else {
            acc
        };
        let acc2 = if oy - y >= 0 {
            acc1.push(Scanline { y: (oy - y) as u32, x1: at_least0(ox), x2: at_least0(ox) })
        } else {
            acc1
        };
        ellipse_tail(ox, oy, ryi, y + 1, fuel2 - 1, acc2)
    }
}

/// The midpoint ellipse rasterization as a function of centre and radii.
pub open spec fn ellipse_lines_spec(o: Point, rx: int, ry: int) -> Seq<Scanline> {
    let ox = o.x as int;
    let oy = o.y as int;
    let dx0 = (1 + 2 * (-rx)) * ry * ry;
    let dy0 = (-rx) * (-rx);
    let first = ellipse_walk(
        ox,
        oy,
        rx,
        ry,
        -rx,
        0,
        dx0,
        dy0,
        dx0 + dy0,
        false,
        2 * (rx + ry) + 4,
        Seq::empty(),
    );
    ellipse_tail(ox, oy, ry, first.1, ry, first.0)
}

/// Clamp a signed coordinate at zero, as the ellipse rasterizer does.
fn clamp_to_u32(n: i64) -> (r: u32)
    requires
        n < 0x8000_0000,
    ensures
        r == if n >= 0 {
            n
        } else {
            0
        },
{
    if n >= 0 {
        n as u32
    } else {
        0
    }
}

/// Midpoint-rasterize an axis-aligned ellipse centred at `o`.  The raw
/// scanlines may extend past the canvas; every one has `x1 <= x2`, and
/// callers crop them.
pub fn rasterize_ellipse(o: &Point, rx: u32, ry: u32) -> (r: Vec<Scanline>)
    requires
        point_ok(*o),
        1 <= rx <= MAX_DIM,
        1 <= ry <= MAX_DIM,
    ensures
        forall|j: int| 0 <= j < r@.len() ==> (#[trigger] r@[j]).x1 <= r@[j].x2,
        r@.len() <= 0x10000,
        r@ == ellipse_lines_spec(*o, rx as int, ry as int),
{
    let mut lines: Vec<Scanline> = Vec::new();
    let ox: i64 = o.x as i64;
    let oy: i64 = o.y as i64;
    let rxi: i64 = rx as i64;
    let ryi: i64 = ry as i64;
    let mut x: i64 = -rxi;
    let mut y: i64 = 0;
    let mut e2: i64 = ryi;
    proof {
        lemma_mul_abs((1 + 2 * x) as int, (e2) as int, 0x2001, 0x1000);
        lemma_mul_abs(((1 + 2 * x) * e2) as int, (e2) as int, 0x2001000, 0x1000);
        lemma_mul_abs((x) as int, (x) as int, 0x1000, 0x1000);
    }
    let mut dx: i64 = (1 + 2 * x) * e2 * e2;
    let mut dy: i64 = x * x;
    let mut err: i64 = dx + dy;
    let mut skip = false;
    let mut fuel: i64 = 2 * (rxi + ryi) + 4;
    let ghost phase1 = ellipse_walk(
        ox as int,
        oy as int,
        rxi as int,
        ryi as int,
        x as int,
        y as int,
        dx as int,
        dy as int,
        err as int,
        skip,
        fuel as int,
        lines@,
    );
    proof {
        assert(lines@ =~= Seq::<Scanline>::empty());
    }
    loop
        invariant_except_break
            ellipse_walk(
                ox as int,
                oy as int,
                rxi as int,
                ryi as int,
                x as int,
                y as int,
                dx as int,
                dy as int,
                err as int,
                skip,
                fuel as int,
                lines@,
            ) == phase1,
        invariant
            point_ok(*o),
            ox == o.x,
            oy == o.y,
            1 <= rxi <= MAX_DIM,
            1 <= ryi <= MAX_DIM,
            -COORD_LIMIT <= x <= COORD_LIMIT,
            0 <= y,
            y <= 2 * (rxi + ryi) + 4 - fuel,
            -4 * WALK_LIMIT <= dx <= 4 * WALK_LIMIT,
            -4 * WALK_LIMIT <= dy <= 4 * WALK_LIMIT,
            -4 * WALK_LIMIT <= err <= 4 * WALK_LIMIT,
            0 <= fuel <= 2 * (rxi + ryi) + 4,
            lines@.len() <= 2 * (2 * (rxi + ryi) + 4 - fuel),
            forall|j: int| 0 <= j < lines@.len() ==> (#[trigger] lines@[j]).x1 <= lines@[j].x2,
        ensures
            0 <= y,
            lines@.len() <= 2 * (2 * (rxi + ryi) + 4),
            forall|j: int| 0 <= j < lines@.len() ==> (#[trigger] lines@[j]).x1 <= lines@[j].x2,
            (lines@, y as int) == phase1,
        decreases fuel,
    {
        if fuel == 0 {
            proof {
                assert((lines@, y as int) == phase1);
            }
            break;
        }
        fuel -= 1;
        if x > 0 {
            proof {
                assert((lines@, y as int) == phase1);
            }
            break;
        }
        if err > WALK_LIMIT || err < -WALK_LIMIT || dx > WALK_LIMIT || dx < -WALK_LIMIT || dy
            > WALK_LIMIT || dy < -WALK_LIMIT {
            proof {
                assert((lines@, y as int) == phase1);
            }
            break;
        }
        if !skip {
            if oy + y >= 0 {
                let l1 = Scanline {
                    y: (oy + y) as u32,
                    x1: clamp_to_u32(ox + x),
                    x2: clamp_to_u32(ox - x),
                };
                lines.push(l1);
            }
            if y != 0 && oy - y >= 0 {
                let l2 = Scanline {
                    y: (oy - y) as u32,
                    x1: clamp_to_u32(ox + x),
                    x2: clamp_to_u32(ox - x),
                };
                lines.push(l2);
            }
        }
        e2 = 2 * err;
        proof {
            lemma_mul_abs((ryi) as int, (ryi) as int, 0x1000, 0x1000);
            lemma_mul_abs((rxi) as int, (rxi) as int, 0x1000, 0x1000);
        }
        if e2 >= dx {
            x += 1;
            dx += 2 * (ryi * ryi);
            err += dx;
            skip = true;
        }
        if e2 <= dy {
            y += 1;
            dy += 2 * (rxi * rxi);
            err += dy;
            skip = false;
        }
    }
    let ghost phase2 = ellipse_tail(
        ox as int,
        oy as int,
        ryi as int,
        y as int,
        ryi as int,
        lines@,
    );
    proof {
        assert(phase2 == ellipse_lines_spec(*o, rx as int, ry as int));
    }
    let mut fuel2: i64 = ryi;
    while y < ryi && fuel2 > 0
        invariant
            point_ok(*o),
            ox == o.x,
            oy == o.y,
            1 <= ryi <= MAX_DIM,
            0 <= y,
            0 <= fuel2 <= ryi,
            lines@.len() <= 2 * (2 * (rxi + ryi) + 4) + 2 * (ryi - fuel2),
            1 <= rxi <= MAX_DIM,
            forall|j: int| 0 <= j < lines@.len() ==> (#[trigger] lines@[j]).x1 <= lines@[j].x2,
            ellipse_tail(ox as int, oy as int, ryi as int, y as int, fuel2 as int, lines@)
                == phase2,
        decreases fuel2,
    {
        if oy + y >= 0 {
            let l1 = Scanline { y: (oy + y) as u32, x1: clamp_to_u32(ox), x2: clamp_to_u32(ox) };
            lines.push(l1);
        }
        if oy - y >= 0 {
            let l2 = Scanline { y: (oy - y) as u32, x1: clamp_to_u32(ox), x2: clamp_to_u32(ox) };
            lines.push(l2);
        }
        y += 1;
        fuel2 -= 1;
    }
    lines
}

/// Guard for the curve walkers' second-degree accumulators.
pub const CURVE_LIMIT: i128 = 0x1_0000_0000_0000_0000;

proof fn lemma_mul_abs(a: int, b: int, m: int, n: int)
    requires
        -m <= a <= m,
        -n <= b <= n,
        0 <= m,
        0 <= n,
    ensures
        -(m * n) <= a * b <= m * n,
{
    assert(-(m * n) <= a * b <= m * n) by (nonlinear_arith)
        requires
            -m <= a <= m && -n <= b <= n && 0 <= m && 0 <= n,
    ;
}

/// Floor division, exact also for negative operands.
pub open spec fn fdiv(a: int, b: int) -> int {
    if b >= 0 {
        a / b
    } else {
        (-a) / (-b)
    }
}

fn fdiv_i128(a: i128, b: i128) -> (r: i128)
    requires
        b != 0,
        -0x1_0000_0000_0000_0000 < a < 0x1_0000_0000_0000_0000,
        -0x1_0000_0000_0000_0000 < b < 0x1_0000_0000_0000_0000,
    ensures
        r == fdiv(a as int, b as int),
        -0x4_0000_0000_0000_0000 < r < 0x4_0000_0000_0000_0000,
{
    let (aa, bb): (i128, i128) = if b < 0 {
        (-a, -b)
    } else {
        (a, b)
    };
    if aa >= 0 {
        proof {
            vstd::arithmetic::div_mod::lemma_div_pos_is_pos(aa as int, bb as int);
            vstd::arithmetic::div_mod::lemma_div_nonincreasing(aa as int, bb as int);
        }
        aa / bb
    } else {
        let neg: i128 = -aa;
        let num: i128 = neg + bb - 1;
        let qn: i128 = num / bb;
        proof {
            let ai = aa as int;
            let bi = bb as int;
            let q1 = ai / bi;
            let rm = ai % bi;
            vstd::arithmetic::div_mod::lemma_fundamental_div_mod(ai, bi);
            vstd::arithmetic::div_mod::lemma_mod_bound(ai, bi);
            assert(bi * (-q1) == -(bi * q1)) by (nonlinear_arith);
            assert(num as int == bi * (-q1) + (bi - 1 - rm));
            vstd::arithmetic::div_mod::lemma_div_multiples_vanish_fancy(-q1, bi - 1 - rm, bi);
            vstd::arithmetic::div_mod::lemma_div_pos_is_pos(num as int, bi);
            vstd::arithmetic::div_mod::lemma_div_nonincreasing(num as int, bi);
        }
        -qn
    }
}

/// Clamp a subdivision point into the walker's coordinate range.
fn clamp_cut(v: i128) -> (r: i32)
    ensures
        -0x8000 < r < 0x8000,
        r == clamp_cut_spec(v as int),
{
    if v < -0x7ff0 {
        -0x7ff0
    } else if v > 0x7ff0 {
        0x7ff0
    } else {
        v as i32
    }
}

/// A control coordinate the curve functions accept.
pub open spec fn coord_ok(c: i32) -> bool {
    -0x8000 < c < 0x8000
}

/// The walker state after the second-degree setup, before the first
/// step.
pub struct SegState {
    pub x0: int,
    pub y0: int,
    pub x2: int,
    pub y2: int,
    pub sx: int,
    pub sy: int,
    pub xx: int,
    pub yy: int,
    pub xy: int,
    pub dx: int,
    pub dy: int,
    pub err: int,
}

/// The second-degree difference setup of the segment walker, for a
/// curving segment (`cur != 0`) with endpoints already swapped.
pub open spec fn seg_setup(
    x0b: int,
    y0b: int,
    x1a: int,
    y1a: int,
    x2b: int,
    y2b: int,
    sx0: int,
    sy0: int,
    xx0: int,
    yy0: int,
    curb: int,
) -> SegState {
    let xx1 = xx0 + sx0;
    let sx1: int = if x0b < x2b {
        1
    } else {
        -1
    };
    let xx2 = xx1 * sx1;
    let yy1 = yy0 + sy0;
    let sy1: int = if y0b < y2b {
        1
    } else {
        -1
    };
    let yy2 = yy1 * sy1;
    let xy0 = 2 * (xx2 * yy2);
    let xx3 = xx2 * xx2;
    let yy3 = yy2 * yy2;
    let neg = curb * sx1 * sy1 < 0;
    let xx4 = if neg {
        -xx3
    } else {
        xx3
    };
    let yy4 = if neg {
        -yy3
    } else {
        yy3
    };
    let xy1 = if neg {
        -xy0
    } else {
        xy0
    };
    let cur2 = if neg {
        -curb
    } else {
        curb
    };
    let dx0 = 4 * sy1 * cur2 * (x1a - x0b) + xx4 - xy1;
    let dy0 = 4 * sx1 * cur2 * (y0b - y1a) + yy4 - xy1;
    SegState {
        x0: x0b,
        y0: y0b,
        x2: x2b,
        y2: y2b,
        sx: sx1,
        sy: sy1,
        xx: xx4 + xx4,
        yy: yy4 + yy4,
        xy: xy1,
        dx: dx0,
        dy: dy0,
        err: dx0 + dy0 + xy1,
    }
}

/// The single-pixel column the walker plots, clamped at the right edge.
pub open spec fn bez_col(x0: int, w: int) -> u32 {
    if x0 > w - 1 {
        (w - 1) as u32
    } else {
        x0 as u32
    }
}

/// The curve walk: the plotted single-pixel scanlines, the final walker
/// position, and whether the endpoint was reached (in which case no
/// closing chord is drawn).
pub open spec fn seg_walk(
    st: SegState,
    fuel: int,
    acc: Seq<Scanline>,
    w: int,
    h: int,
) -> (Seq<Scanline>, int, int, bool)
    decreases fuel,
{
    if fuel <= 0 {
        (acc, st.x0, st.y0, false)
    } else if st.dx > CURVE_LIMIT || st.dx < -CURVE_LIMIT || st.dy > CURVE_LIMIT || st.dy
        < -CURVE_LIMIT || st.err > CURVE_LIMIT || st.err < -CURVE_LIMIT {
        (acc, st.x0, st.y0, false)
    } else {
        let acc2 = if 0 <= st.y0 < h && st.x0 >= 0 {
            acc.push(
                Scanline { y: st.y0 as u32, x1: bez_col(st.x0, w), x2: bez_col(st.x0, w) },
            )
        } else {
            acc
        };
        if st.x0 == st.x2 && st.y0 == st.y2 {
            (acc2, st.x0, st.y0, true)
        } else {
            let fy = 2 * st.err < st.dx;
            let xstep = 2 * st.err > st.dy;
            let x0n = if xstep {
                st.x0 + st.sx
            } else {
                st.x0
            };
            let dxn = if xstep {
                st.dx - st.xy
            } else {
                st.dx
            };
            let dyn0 = if xstep {
                st.dy + st.yy
            } else {
                st.dy
            };
            let errn = if xstep {
                st.err + dyn0
            } else {
                st.err
            };
            let y0n = if fy {
                st.y0 + st.sy
            } else {
                st.y0
            };
            let dyn1 = if fy {
                dyn0 - st.xy
            } else {
                dyn0
            };
            let dxn1 = if fy {
                dxn + st.xx
            } else {
                dxn
            };
            let errn1 = if fy {
                errn + dxn1
            } else {
                errn
            };
            if !(dyn1 < dxn1) {
                (acc2, x0n, y0n, false)
            } else {
                seg_walk(
                    SegState {
                        x0: x0n,
                        y0: y0n,
                        x2: st.x2,
                        y2: st.y2,
                        sx: st.sx,
                        sy: st.sy,
                        xx: st.xx,
                        yy: st.yy,
                        xy: st.xy,
                        dx: dxn1,
                        dy: dyn1,
                        err: errn1,
                    },
                    fuel - 1,
                    acc2,
                    w,
                    h,
                )
            }
        }
    }
}

/// The walkers' coordinate clamp, in specification form.
pub open spec fn clamp_cut_spec(v: int) -> int {
    if v < -0x7ff0 {
        -0x7ff0
    } else if v > 0x7ff0 {
        0x7ff0
    } else {
        v
    }
}

/// Whether the control point violates the walker's gradient assumption,
/// in which case only the chord is plotted.
pub open spec fn seg_violates(x0a: int, y0a: int, x1a: int, y1a: int, x2a: int, y2a: int) -> bool {
    (x0a - x1a) * (x2a - x1a) > 0 || (y0a - y1a) * (y2a - y1a) > 0
}

/// The endpoints after the begin-with-longer-part swap, and the signed
/// curvature: (x0, y0, x2, y2, cur).
pub open spec fn seg_swapped(x0a: int, y0a: int, x1a: int, y1a: int, x2a: int, y2a: int) -> (
    int,
    int,
    int,
    int,
    int,
) {
    let sx0 = x2a - x1a;
    let sy0 = y2a - y1a;
    let xx0 = x0a - x1a;
    let yy0 = y0a - y1a;
    let cur0 = xx0 * sy0 - yy0 * sx0;
    if sx0 * sx0 + sy0 * sy0 > xx0 * xx0 + yy0 * yy0 {
        (sx0 + x1a, sy0 + y1a, x0a, y0a, -cur0)
    } else {
        (x0a, y0a, x2a, y2a, cur0)
    }
}

/// The whole monotone-segment plot as a function: buffers, then plotted
/// stroke pixels.
#[verifier::opaque]
pub open spec fn seg_spec(
    x0a: int,
    y0a: int,
    x1a: int,
    y1a: int,
    x2a: int,
    y2a: int,
    lhs: Seq<i32>,
    rhs: Seq<i32>,
    acc: Seq<Scanline>,
    w: int,
    h: int,
    ymin: int,
) -> (Seq<i32>, Seq<i32>, Seq<Scanline>) {
    if seg_violates(x0a, y0a, x1a, y1a, x2a, y2a) {
        let b = line_spec(
            Point { x: x0a as i32, y: y0a as i32 },
            Point { x: x2a as i32, y: y2a as i32 },
            lhs,
            rhs,
            w,
            h,
            ymin,
        );
        (b.0, b.1, acc)
    } else {
        let sp = seg_swapped(x0a, y0a, x1a, y1a, x2a, y2a);
        if sp.4 != 0 {
            let st = seg_setup(
                sp.0,
                sp.1,
                x1a,
                y1a,
                sp.2,
                sp.3,
                x2a - x1a,
                y2a - y1a,
                x0a - x1a,
                y0a - y1a,
                sp.4,
            );
            let wk = seg_walk(st, 0x100000, acc, w, h);
            if wk.3 {
                (lhs, rhs, wk.0)
            } else {
                let b = line_spec(
                    Point { x: clamp_cut_spec(wk.1) as i32, y: clamp_cut_spec(wk.2) as i32 },
                    Point { x: clamp_cut_spec(sp.2) as i32, y: clamp_cut_spec(sp.3) as i32 },
                    lhs,
                    rhs,
                    w,
                    h,
                    ymin,
                );
                (b.0, b.1, wk.0)
            }
        } else {
            let b = line_spec(
                Point { x: clamp_cut_spec(sp.0) as i32, y: clamp_cut_spec(sp.1) as i32 },
                Point { x: clamp_cut_spec(sp.2) as i32, y: clamp_cut_spec(sp.3) as i32 },
                lhs,
                rhs,
                w,
                h,
                ymin,
            );
            (b.0, b.1, acc)
        }
    }
}

/// Walk one quadratic Bezier segment whose gradient keeps its sign,
/// plotting single-pixel scanlines for rows inside the canvas and
/// recording columns in the buffers for the closing chord.  A call whose
/// control point violates the gradient assumption falls back to the
/// chord, where the reference walker would abort.
#[verifier::rlimit(100)]
#[verifier::spinoff_prover]
pub fn rasterize_quad_bezier_seg(
    x0a: i32,
    y0a: i32,
    x1a: i32,
    y1a: i32,
    x2a: i32,
    y2a: i32,
    buf_lhs: &mut Vec<i32>,
    buf_rhs: &mut Vec<i32>,
    scanlines: &mut Vec<Scanline>,
    w: u32,
    h: u32,
    ymin: i32,
)
    requires
        coord_ok(x0a),
        coord_ok(y0a),
        coord_ok(x1a),
        coord_ok(y1a),
        coord_ok(x2a),
        coord_ok(y2a),
        1 <= w <= MAX_DIM,
        1 <= h <= MAX_DIM,
        -0x8000 < ymin < 0x8000,
        bufs_wf(old(buf_lhs)@, old(buf_rhs)@),
    ensures
        final(buf_lhs)@.len() == old(buf_lhs)@.len(),
        final(buf_rhs)@.len() == old(buf_rhs)@.len(),
        old(scanlines)@.len() <= final(scanlines)@.len() <= old(scanlines)@.len() + 0x100001,
        forall|j: int|
            0 <= j < old(scanlines)@.len() ==> final(scanlines)@[j] == old(scanlines)@[j],
        forall|j: int|
            old(scanlines)@.len() <= j < final(scanlines)@.len() ==> crate::scanline::line_ok(
                #[trigger] final(scanlines)@[j],
                w as int,
                h as int,
            ),
        (final(buf_lhs)@, final(buf_rhs)@, final(scanlines)@) == seg_spec(
            x0a as int,
            y0a as int,
            x1a as int,
            y1a as int,
            x2a as int,
            y2a as int,
            old(buf_lhs)@,
            old(buf_rhs)@,
            old(scanlines)@,
            w as int,
            h as int,
            ymin as int,
        ),
{
    let ghost starget = seg_spec(
        x0a as int,
        y0a as int,
        x1a as int,
        y1a as int,
        x2a as int,
        y2a as int,
        old(buf_lhs)@,
        old(buf_rhs)@,
        old(scanlines)@,
        w as int,
        h as int,
        ymin as int,
    );
    let mut x0: i128 = x0a as i128;
    let mut y0: i128 = y0a as i128;
    let x1: i128 = x1a as i128;
    let y1: i128 = y1a as i128;
    let mut x2: i128 = x2a as i128;
    let mut y2: i128 = y2a as i128;
    let mut sx: i128 = x2 - x1;
    let mut sy: i128 = y2 - y1;
    let mut xx: i128 = x0 - x1;
    let mut yy: i128 = y0 - y1;
    proof {
        lemma_mul_abs((xx) as int, (sy) as int, 0x10000, 0x10000);
        lemma_mul_abs((yy) as int, (sx) as int, 0x10000, 0x10000);
        lemma_mul_abs((xx) as int, (sx) as int, 0x10000, 0x10000);
        lemma_mul_abs((yy) as int, (sy) as int, 0x10000, 0x10000);
    }
    let mut cur: i128 = xx * sy - yy * sx;
    let ghost gsx0 = sx as int;
    let ghost gsy0 = sy as int;
    let ghost gxx0 = xx as int;
    let ghost gyy0 = yy as int;
    if xx * sx > 0 || yy * sy > 0 {
        let p0 = Point { x: x0a, y: y0a };
        let p2 = Point { x: x2a, y: y2a };
        rasterize_line(&p0, &p2, buf_lhs, buf_rhs, w, h, ymin);
        proof {
            reveal(seg_spec);
            assert((buf_lhs@, buf_rhs@, scanlines@) == starget);
        }
        return ;
    }
    proof {
        lemma_mul_abs((sx) as int, (sx) as int, 0x10000, 0x10000);
        lemma_mul_abs((sy) as int, (sy) as int, 0x10000, 0x10000);
        lemma_mul_abs((xx) as int, (xx) as int, 0x10000, 0x10000);
        lemma_mul_abs((yy) as int, (yy) as int, 0x10000, 0x10000);
    }
    if sx * sx + sy * sy > xx * xx + yy * yy {
        x2 = x0;
        x0 = sx + x1;
        y2 = y0;
        y0 = sy + y1;
        cur = -cur;
    }
    let ghost gx0b = x0 as int;
    let ghost gy0b = y0 as int;
    let ghost gx2b = x2 as int;
    let ghost gy2b = y2 as int;
    let ghost gcurb = cur as int;
    proof {
        reveal(seg_spec);
        assert(!seg_violates(x0a as int, y0a as int, x1a as int, y1a as int, x2a as int, y2a as int));
        assert(seg_swapped(x0a as int, y0a as int, x1a as int, y1a as int, x2a as int, y2a as int)
            == (gx0b, gy0b, gx2b, gy2b, gcurb));
    }
    if cur != 0 {
        xx += sx;
        sx = if x0 < x2 {
            1
        } else {
            -1
        };
        proof {
            assert(-0x40000 <= xx * sx <= 0x40000) by (nonlinear_arith)
                requires
                    -0x20000 <= xx <= 0x20000 && -1 <= sx <= 1,
            ;
        }
        xx *= sx;
        yy += sy;
        sy = if y0 < y2 {
            1
        } else {
            -1
        };
        proof {
            assert(-0x40000 <= yy * sy <= 0x40000) by (nonlinear_arith)
                requires
                    -0x20000 <= yy <= 0x20000 && -1 <= sy <= 1,
            ;
        }
        yy *= sy;
        proof {
            lemma_mul_abs((xx) as int, (yy) as int, 0x40000, 0x40000);
            lemma_mul_abs((xx) as int, (xx) as int, 0x40000, 0x40000);
            lemma_mul_abs((yy) as int, (yy) as int, 0x40000, 0x40000);
            lemma_mul_abs((cur) as int, (sx) as int, 0x2_0000_0000, 1);
            lemma_mul_abs(((cur) * (sx)) as int, (sy) as int, 0x2_0000_0000, 1);
        }
        let mut xy: i128 = 2 * (xx * yy);
        xx *= xx;
        yy *= yy;
        if cur * sx * sy < 0 {
            xx = -xx;
            yy = -yy;
            xy = -xy;
            cur = -cur;
        }
        proof {
            lemma_mul_abs((4 * sy) as int, (cur) as int, 4, 0x2_0000_0000);
            lemma_mul_abs((4 * sy * cur) as int, (x1 - x0) as int, 0x8_0000_0000, 0x40000);
            lemma_mul_abs((4 * sx) as int, (cur) as int, 4, 0x2_0000_0000);
            lemma_mul_abs((4 * sx * cur) as int, (y0 - y1) as int, 0x8_0000_0000, 0x40000);
        }
        let mut dx: i128 = 4 * sy * cur * (x1 - x0) + xx - xy;
        let mut dy: i128 = 4 * sx * cur * (y0 - y1) + yy - xy;
        xx += xx;
        yy += yy;
        let mut err: i128 = dx + dy + xy;
        proof {
            let st = seg_setup(
                gx0b,
                gy0b,
                x1a as int,
                y1a as int,
                gx2b,
                gy2b,
                gsx0,
                gsy0,
                gxx0,
                gyy0,
                gcurb,
            );
            assert(st == SegState {
                x0: x0 as int,
                y0: y0 as int,
                x2: x2 as int,
                y2: y2 as int,
                sx: sx as int,
                sy: sy as int,
                xx: xx as int,
                yy: yy as int,
                xy: xy as int,
                dx: dx as int,
                dy: dy as int,
                err: err as int,
            });
        }
        let mut fuel: i64 = 0x100000;
        let ghost wtarget = seg_walk(
            SegState {
                x0: x0 as int,
                y0: y0 as int,
                x2: x2 as int,
                y2: y2 as int,
                sx: sx as int,
                sy: sy as int,
                xx: xx as int,
                yy: yy as int,
                xy: xy as int,
                dx: dx as int,
                dy: dy as int,
                err: err as int,
            },
            0x100000,
            scanlines@,
            w as int,
            h as int,
        );
        let ghost st0 = SegState {
            x0: x0 as int,
            y0: y0 as int,
            x2: x2 as int,
            y2: y2 as int,
            sx: sx as int,
            sy: sy as int,
            xx: xx as int,
            yy: yy as int,
            xy: xy as int,
            dx: dx as int,
            dy: dy as int,
            err: err as int,
        };
        loop
            invariant_except_break
                seg_walk(
                    SegState {
                        x0: x0 as int,
                        y0: y0 as int,
                        x2: x2 as int,
                        y2: y2 as int,
                        sx: sx as int,
                        sy: sy as int,
                        xx: xx as int,
                        yy: yy as int,
                        xy: xy as int,
                        dx: dx as int,
                        dy: dy as int,
                        err: err as int,
                    },
                    fuel as int,
                    scanlines@,
                    w as int,
                    h as int,
                ) == wtarget,
            invariant
                buf_lhs@.len() == old(buf_lhs)@.len(),
                buf_rhs@.len() == old(buf_rhs)@.len(),
                buf_lhs@ == old(buf_lhs)@,
                buf_rhs@ == old(buf_rhs)@,
                bufs_wf(buf_lhs@, buf_rhs@),
                old(scanlines)@.len() <= scanlines@.len() <= old(scanlines)@.len() + (0x100000
                    - fuel),
                forall|j: int|
                    0 <= j < old(scanlines)@.len() ==> scanlines@[j] == old(scanlines)@[j],
                forall|j: int|
                    old(scanlines)@.len() <= j < scanlines@.len() ==> crate::scanline::line_ok(
                        #[trigger] scanlines@[j],
                        w as int,
                        h as int,
                    ),
                1 <= w <= MAX_DIM,
                1 <= h <= MAX_DIM,
                -0x8000 < ymin < 0x8000,
                sx == 1 || sx == -1,
                sy == 1 || sy == -1,
                -0x40000 - (0x100000 - fuel) <= x0 <= 0x40000 + (0x100000 - fuel),
                -0x40000 - (0x100000 - fuel) <= y0 <= 0x40000 + (0x100000 - fuel),
                -0x40000 <= x2 <= 0x40000,
                -0x40000 <= y2 <= 0x40000,
                -0x40_0000_0000 <= xx <= 0x40_0000_0000,
                -0x40_0000_0000 <= yy <= 0x40_0000_0000,
                -0x40_0000_0000 <= xy <= 0x40_0000_0000,
                -4 * CURVE_LIMIT <= dx <= 4 * CURVE_LIMIT,
                -4 * CURVE_LIMIT <= dy <= 4 * CURVE_LIMIT,
                -4 * CURVE_LIMIT <= err <= 4 * CURVE_LIMIT,
                0 <= fuel <= 0x100000,
                !seg_violates(x0a as int, y0a as int, x1a as int, y1a as int, x2a as int,
                    y2a as int),
                gcurb != 0,
                seg_swapped(x0a as int, y0a as int, x1a as int, y1a as int, x2a as int,
                    y2a as int) == (gx0b, gy0b, gx2b, gy2b, gcurb),
                gsx0 == x2a - x1a,
                gsy0 == y2a - y1a,
                gxx0 == x0a - x1a,
                gyy0 == y0a - y1a,
                seg_setup(gx0b, gy0b, x1a as int, y1a as int, gx2b, gy2b, gsx0, gsy0, gxx0,
                    gyy0, gcurb) == st0,
                wtarget == seg_walk(st0, 0x100000, old(scanlines)@, w as int, h as int),
                starget == seg_spec(
                    x0a as int,
                    y0a as int,
                    x1a as int,
                    y1a as int,
                    x2a as int,
                    y2a as int,
                    old(buf_lhs)@,
                    old(buf_rhs)@,
                    old(scanlines)@,
                    w as int,
                    h as int,
                    ymin as int,
                ),
            ensures
                buf_lhs@.len() == old(buf_lhs)@.len(),
                buf_rhs@.len() == old(buf_rhs)@.len(),
                bufs_wf(buf_lhs@, buf_rhs@),
                old(scanlines)@.len() <= scanlines@.len() <= old(scanlines)@.len() + 0x100000,
                forall|j: int|
                    0 <= j < old(scanlines)@.len() ==> scanlines@[j] == old(scanlines)@[j],
                forall|j: int|
                    old(scanlines)@.len() <= j < scanlines@.len() ==> crate::scanline::line_ok(
                        #[trigger] scanlines@[j],
                        w as int,
                        h as int,
                    ),
                -0x200000 <= x0 <= 0x200000,
                -0x200000 <= y0 <= 0x200000,
                -0x40000 <= x2 <= 0x40000,
                -0x40000 <= y2 <= 0x40000,
                (scanlines@, x0 as int, y0 as int, false) == wtarget,
            decreases fuel,
        {
            if fuel == 0 {
                proof {
                    assert((scanlines@, x0 as int, y0 as int, false) == wtarget);
                }
                break;
            }
            fuel -= 1;
            if dx > CURVE_LIMIT || dx < -CURVE_LIMIT || dy > CURVE_LIMIT || dy < -CURVE_LIMIT
                || err > CURVE_LIMIT || err < -CURVE_LIMIT {
                proof {
                    assert((scanlines@, x0 as int, y0 as int, false) == wtarget);
                }
                break;
            }
            if y0 >= 0 && y0 < h as i128 {
                if x0 >= 0 {
                    let xc: u32 = if x0 > w as i128 - 1 {
                        w - 1
                    } else {
                        x0 as u32
                    };
                    scanlines.push(Scanline { y: y0 as u32, x1: xc, x2: xc });
                }
            }
            if x0 == x2 && y0 == y2 {
                proof {
                    assert((scanlines@, x0 as int, y0 as int, true) == wtarget);
                    let sp = seg_swapped(
                        x0a as int,
                        y0a as int,
                        x1a as int,
                        y1a as int,
                        x2a as int,
                        y2a as int,
                    );
                    assert(sp == (gx0b, gy0b, gx2b, gy2b, gcurb));
                    let st = seg_setup(
                        sp.0,
                        sp.1,
                        x1a as int,
                        y1a as int,
                        sp.2,
                        sp.3,
                        x2a as int - x1a as int,
                        y2a as int - y1a as int,
                        x0a as int - x1a as int,
                        y0a as int - y1a as int,
                        sp.4,
                    );
                    assert(st == seg_setup(
                        gx0b,
                        gy0b,
                        x1a as int,
                        y1a as int,
                        gx2b,
                        gy2b,
                        gsx0,
                        gsy0,
                        gxx0,
                        gyy0,
                        gcurb,
                    ));
                    assert(wtarget == seg_walk(st, 0x100000, old(scanlines)@, w as int, h as int));
                    reveal(seg_spec);
                    assert((buf_lhs@, buf_rhs@, scanlines@) == starget);
                }
                return ;
            }
            let fy = 2 * err < dx;
            if 2 * err > dy {
                x0 += sx;
                dx -= xy;
                dy += yy;
                err += dy;
            }
            if fy {
                y0 += sy;
                dy -= xy;
                dx += xx;
                err += dx;
            }
            if !(dy < dx) {
                proof {
                    assert((scanlines@, x0 as int, y0 as int, false) == wtarget);
                }
                break;
            }
        }
        let p0 = Point { x: clamp_cut(x0), y: clamp_cut(y0) };
        let p2 = Point { x: clamp_cut(x2), y: clamp_cut(y2) };
        rasterize_line(&p0, &p2, buf_lhs, buf_rhs, w, h, ymin);
        proof {
            reveal(seg_spec);
            assert((buf_lhs@, buf_rhs@, scanlines@) == starget);
        }
        return ;
    }
    let p0 = Point { x: clamp_cut(x0), y: clamp_cut(y0) };
    let p2 = Point { x: clamp_cut(x2), y: clamp_cut(y2) };
    rasterize_line(&p0, &p2, buf_lhs, buf_rhs, w, h, ymin);
    proof {
        reveal(seg_spec);
        assert((buf_lhs@, buf_rhs@, scanlines@) == starget);
    }
}


/// The subdivision state: current control points and output buffers.
pub struct QuadState {
    pub x0: int,
    pub y0: int,
    pub x1: int,
    pub y1: int,
    pub x2: int,
    pub y2: int,
    pub lhs: Seq<i32>,
    pub rhs: Seq<i32>,
    pub acc: Seq<Scanline>,
}

/// The horizontal-cut phase: if the gradient changes sign in x, swap so
/// the farther cut comes first, split at the x-stationary point, and walk
/// the first part.
pub open spec fn quad_hphase(st: QuadState, w: int, h: int, ymin: int) -> QuadState {
    let px = st.x0 - st.x1;
    let py = st.y0 - st.y1;
    if px * (st.x2 - st.x1) > 0 {
        let dyy = st.y0 - 2 * st.y1 + st.y2;
        let dxx = st.x0 - 2 * st.x1 + st.x2;
        let lm = if dyy * px >= 0 {
            dyy * px
        } else {
            -(dyy * px)
        };
        let rm = if py * dxx >= 0 {
            py * dxx
        } else {
            -(py * dxx)
        };
        let sw = py * (st.y2 - st.y1) > 0 && lm > rm;
        let x0b = if sw {
            st.x2
        } else {
            st.x0
        };
        let x2b = if sw {
            clamp_cut_spec(px + st.x1)
        } else {
            st.x2
        };
        let y0b = if sw {
            st.y2
        } else {
            st.y0
        };
        let y2b = if sw {
            clamp_cut_spec(py + st.y1)
        } else {
            st.y2
        };
        let d = x0b - 2 * st.x1 + x2b;
        if d != 0 {
            let p = x0b - st.x1;
            let dmp = d - p;
            let rnum = dmp * (dmp * y0b + 2 * (p * st.y1)) + (p * p) * y2b;
            let ycut = clamp_cut_spec(fdiv(2 * rnum + d * d, 2 * (d * d)));
            let xcut = clamp_cut_spec(fdiv(2 * (x0b * x2b - st.x1 * st.x1) + d, 2 * d));
            let r1 = clamp_cut_spec(fdiv(2 * ((st.y1 - y0b) * p) + 2 * (y0b * d) + d, 2 * d));
            let sg = seg_spec(x0b, y0b, xcut, r1, xcut, ycut, st.lhs, st.rhs, st.acc, w, h, ymin);
            let q = st.x1 - x2b;
            let r2 = clamp_cut_spec(fdiv(-2 * ((st.y1 - y2b) * q) + 2 * (y2b * d) + d, 2 * d));
            QuadState {
                x0: xcut,
                y0: ycut,
                x1: xcut,
                y1: r2,
                x2: x2b,
                y2: y2b,
                lhs: sg.0,
                rhs: sg.1,
                acc: sg.2,
            }
        } else {
            QuadState { x0: x0b, y0: y0b, x1: st.x1, y1: st.y1, x2: x2b, y2: y2b, ..st }
        }
    } else {
        st
    }
}

/// The vertical-cut phase: split the remaining part at the y-stationary
/// point and walk the first half.
pub open spec fn quad_vphase(st: QuadState, w: int, h: int, ymin: int) -> QuadState {
    if (st.y0 - st.y1) * (st.y2 - st.y1) > 0 {
        let dd = st.y0 - 2 * st.y1 + st.y2;
        if dd != 0 {
            let p = st.y0 - st.y1;
            let dmp = dd - p;
            let rnum = dmp * (dmp * st.x0 + 2 * (p * st.x1)) + (p * p) * st.x2;
            let xcut = clamp_cut_spec(fdiv(2 * rnum + dd * dd, 2 * (dd * dd)));
            let ycut = clamp_cut_spec(fdiv(2 * (st.y0 * st.y2 - st.y1 * st.y1) + dd, 2 * dd));
            let r1 = clamp_cut_spec(fdiv(2 * ((st.x1 - st.x0) * p) + 2 * (st.x0 * dd) + dd, 2 * dd));
            let sg = seg_spec(st.x0, st.y0, r1, ycut, xcut, ycut, st.lhs, st.rhs, st.acc, w, h, ymin);
            let q = st.y1 - st.y2;
            let r2 = clamp_cut_spec(fdiv(-2 * ((st.x1 - st.x2) * q) + 2 * (st.x2 * dd) + dd, 2 * dd));
            QuadState {
                x0: xcut,
                y0: ycut,
                x1: r2,
                y1: ycut,
                x2: st.x2,
                y2: st.y2,
                lhs: sg.0,
                rhs: sg.1,
                acc: sg.2,
            }
        } else {
            st
        }
    } else {
        st
    }
}

/// The whole curve plot as a function: both cuts, then the final
/// monotone segment.
pub open spec fn quad_spec(
    x0a: int,
    y0a: int,
    x1a: int,
    y1a: int,
    x2a: int,
    y2a: int,
    lhs: Seq<i32>,
    rhs: Seq<i32>,
    acc: Seq<Scanline>,
    w: int,
    h: int,
    ymin: int,
) -> (Seq<i32>, Seq<i32>, Seq<Scanline>) {
    let s1 = quad_hphase(
        QuadState { x0: x0a, y0: y0a, x1: x1a, y1: y1a, x2: x2a, y2: y2a, lhs, rhs, acc },
        w,
        h,
        ymin,
    );
    let s2 = quad_vphase(s1, w, h, ymin);
    seg_spec(s2.x0, s2.y0, s2.x1, s2.y1, s2.x2, s2.y2, s2.lhs, s2.rhs, s2.acc, w, h, ymin)
}

/// Plot any quadratic Bezier curve: cut it at the horizontal and vertical
/// gradient sign changes, then walk each monotone segment.  The cut
/// points are found with exact integer arithmetic; each is clamped into
/// the walkers' coordinate range, which no curve of canvas-sized control
/// points reaches.
#[verifier::rlimit(100)]
pub fn rasterize_quad_bezier(
    x0a: i32,
    y0a: i32,
    x1a: i32,
    y1a: i32,
    x2a: i32,
    y2a: i32,
    buf_lhs: &mut Vec<i32>,
    buf_rhs: &mut Vec<i32>,
    scanlines: &mut Vec<Scanline>,
    w: u32,
    h: u32,
    ymin: i32,
)
    requires
        coord_ok(x0a),
        coord_ok(y0a),
        coord_ok(x1a),
        coord_ok(y1a),
        coord_ok(x2a),
        coord_ok(y2a),
        1 <= w <= MAX_DIM,
        1 <= h <= MAX_DIM,
        -0x8000 < ymin < 0x8000,
        bufs_wf(old(buf_lhs)@, old(buf_rhs)@),
    ensures
        final(buf_lhs)@.len() == old(buf_lhs)@.len(),
        final(buf_rhs)@.len() == old(buf_rhs)@.len(),
        old(scanlines)@.len() <= final(scanlines)@.len() <= old(scanlines)@.len() + 0x300003,
        forall|j: int|
            0 <= j < old(scanlines)@.len() ==> final(scanlines)@[j] == old(scanlines)@[j],
        forall|j: int|
            old(scanlines)@.len() <= j < final(scanlines)@.len() ==> crate::scanline::line_ok(
                #[trigger] final(scanlines)@[j],
                w as int,
                h as int,
            ),
        (final(buf_lhs)@, final(buf_rhs)@, final(scanlines)@) == quad_spec(
            x0a as int,
            y0a as int,
            x1a as int,
            y1a as int,
            x2a as int,
            y2a as int,
            old(buf_lhs)@,
            old(buf_rhs)@,
            old(scanlines)@,
            w as int,
            h as int,
            ymin as int,
        ),
{
    let ghost qinit = QuadState {
        x0: x0a as int,
        y0: y0a as int,
        x1: x1a as int,
        y1: y1a as int,
        x2: x2a as int,
        y2: y2a as int,
        lhs: old(buf_lhs)@,
        rhs: old(buf_rhs)@,
        acc: old(scanlines)@,
    };
    let ghost hstate = quad_hphase(qinit, w as int, h as int, ymin as int);
    let mut x0: i32 = x0a;
    let mut y0: i32 = y0a;
    let mut x1: i32 = x1a;
    let mut y1: i32 = y1a;
    let mut x2: i32 = x2a;
    let mut y2: i32 = y2a;
    // horizontal gradient sign change between P0 and P2?
    let px: i128 = x0 as i128 - x1 as i128;
    let py: i128 = y0 as i128 - y1 as i128;
    proof {
        lemma_mul_abs((px) as int, (x2 as i128 - x1 as i128) as int, 0x20000, 0x20000);
        lemma_mul_abs((py) as int, (y2 as i128 - y1 as i128) as int, 0x20000, 0x20000);
    }
    if px * (x2 as i128 - x1 as i128) > 0 {
        if py * (y2 as i128 - y1 as i128) > 0 {
            // both change sign; take the farther cut first
            let dyy: i128 = y0 as i128 - 2 * y1 as i128 + y2 as i128;
            let dxx: i128 = x0 as i128 - 2 * x1 as i128 + x2 as i128;
            proof {
                lemma_mul_abs((dyy) as int, (px) as int, 0x40000, 0x40000);
                lemma_mul_abs((py) as int, (dxx) as int, 0x40000, 0x40000);
            }
            let lhs_mag: i128 = if dyy * px >= 0 {
                dyy * px
            } else {
                -(dyy * px)
            };
            let rhs_mag: i128 = if py * dxx >= 0 {
                py * dxx
            } else {
                -(py * dxx)
            };
            if lhs_mag > rhs_mag {
                x0 = x2;
                x2 = clamp_cut(px + x1 as i128);
                y0 = y2;
                y2 = clamp_cut(py + y1 as i128);
            }
        }
        let d: i128 = x0 as i128 - 2 * x1 as i128 + x2 as i128;
        if d != 0 {
            let p: i128 = x0 as i128 - x1 as i128;
            let dmp: i128 = d - p;
            proof {
                lemma_mul_abs((dmp) as int, (y0 as i128) as int, 0x40000, 0x10000);
                lemma_mul_abs((p) as int, (y1 as i128) as int, 0x40000, 0x10000);
                lemma_mul_abs((dmp) as int, dmp * y0 as i128 + 2 * (p * y1 as i128), 0x40000,
                    0x10_0000_0000);
                lemma_mul_abs((p) as int, (p) as int, 0x40000, 0x40000);
                lemma_mul_abs((p * p) as int, (y2 as i128) as int, 0x10_0000_0000, 0x10000);
                lemma_mul_abs((d) as int, (d) as int, 0x40000, 0x40000);
                lemma_mul_abs((x0 as i128) as int, (x2 as i128) as int, 0x10000, 0x10000);
                lemma_mul_abs((x1 as i128) as int, (x1 as i128) as int, 0x10000, 0x10000);
                lemma_mul_abs((y1 as i128 - y0 as i128) as int, (p) as int, 0x20000, 0x40000);
                lemma_mul_abs((y0 as i128) as int, (d) as int, 0x10000, 0x40000);
                lemma_mul_abs((y2 as i128) as int, (d) as int, 0x10000, 0x40000);
                lemma_mul_abs((y1 as i128 - y2 as i128) as int, (x1 as i128 - x2 as i128) as int, 0x20000, 0x20000);
            }
            proof {
                assert(d * d >= 1) by (nonlinear_arith)
                    requires
                        d != 0,
                ;
            }
            let rnum: i128 = dmp * (dmp * y0 as i128 + 2 * (p * y1 as i128)) + (p * p)
                * y2 as i128;
            let ycut: i32 = clamp_cut(fdiv_i128(2 * rnum + d * d, 2 * (d * d)));
            let xcut: i32 = clamp_cut(
                fdiv_i128(2 * (x0 as i128 * x2 as i128 - x1 as i128 * x1 as i128) + d, 2 * d),
            );
            let r1: i32 = clamp_cut(
                fdiv_i128(2 * ((y1 as i128 - y0 as i128) * p) + 2 * (y0 as i128 * d) + d, 2 * d),
            );
            rasterize_quad_bezier_seg(
                x0,
                y0,
                xcut,
                r1,
                xcut,
                ycut,
                buf_lhs,
                buf_rhs,
                scanlines,
                w,
                h,
                ymin,
            );
            let q: i128 = x1 as i128 - x2 as i128;
            proof {
                lemma_mul_abs((y1 as i128 - y2 as i128) as int, (q) as int, 0x20000, 0x20000);
            }
            let r2: i32 = clamp_cut(
                fdiv_i128(
                    -2 * ((y1 as i128 - y2 as i128) * q) + 2 * (y2 as i128 * d) + d,
                    2 * d,
                ),
            );
            proof {
                assert(hstate == QuadState {
                    x0: xcut as int,
                    y0: ycut as int,
                    x1: xcut as int,
                    y1: r2 as int,
                    x2: x2 as int,
                    y2: y2 as int,
                    lhs: buf_lhs@,
                    rhs: buf_rhs@,
                    acc: scanlines@,
                });
            }
            x0 = xcut;
            x1 = xcut;
            y0 = ycut;
            y1 = r2;
        }
    }
    proof {
        assert(hstate == QuadState {
            x0: x0 as int,
            y0: y0 as int,
            x1: x1 as int,
            y1: y1 as int,
            x2: x2 as int,
            y2: y2 as int,
            lhs: buf_lhs@,
            rhs: buf_rhs@,
            acc: scanlines@,
        });
    }
    let ghost vstate = quad_vphase(hstate, w as int, h as int, ymin as int);
    // vertical gradient sign change on the remaining part?
    proof {
        lemma_mul_abs((y0 as i128 - y1 as i128) as int, (y2 as i128 - y1 as i128) as int,
            0x20000, 0x20000);
    }
    if (y0 as i128 - y1 as i128) * (y2 as i128 - y1 as i128) > 0 {
        let dd: i128 = y0 as i128 - 2 * y1 as i128 + y2 as i128;
        if dd != 0 {
            let p: i128 = y0 as i128 - y1 as i128;
            let dmp: i128 = dd - p;
            proof {
                lemma_mul_abs((y0 as i128 - y1 as i128) as int, (y2 as i128 - y1 as i128) as int, 0x20000, 0x20000);
                lemma_mul_abs((dmp) as int, (x0 as i128) as int, 0x40000, 0x10000);
                lemma_mul_abs((p) as int, (x1 as i128) as int, 0x40000, 0x10000);
                lemma_mul_abs((dmp) as int, dmp * x0 as i128 + 2 * (p * x1 as i128), 0x40000,
                    0x10_0000_0000);
                lemma_mul_abs((p) as int, (p) as int, 0x40000, 0x40000);
                lemma_mul_abs((p * p) as int, (x2 as i128) as int, 0x10_0000_0000, 0x10000);
                lemma_mul_abs((dd) as int, (dd) as int, 0x40000, 0x40000);
                lemma_mul_abs((y0 as i128) as int, (y2 as i128) as int, 0x10000, 0x10000);
                lemma_mul_abs((y1 as i128) as int, (y1 as i128) as int, 0x10000, 0x10000);
                lemma_mul_abs((x1 as i128 - x0 as i128) as int, (p) as int, 0x20000, 0x40000);
                lemma_mul_abs((x0 as i128) as int, (dd) as int, 0x10000, 0x40000);
                lemma_mul_abs((x2 as i128) as int, (dd) as int, 0x10000, 0x40000);
                lemma_mul_abs((x1 as i128 - x2 as i128) as int, (y1 as i128 - y2 as i128) as int, 0x20000, 0x20000);
            }
            proof {
                assert(dd * dd >= 1) by (nonlinear_arith)
                    requires
                        dd != 0,
                ;
            }
            let rnum: i128 = dmp * (dmp * x0 as i128 + 2 * (p * x1 as i128)) + (p * p)
                * x2 as i128;
            let xcut: i32 = clamp_cut(fdiv_i128(2 * rnum + dd * dd, 2 * (dd * dd)));
            let ycut: i32 = clamp_cut(
                fdiv_i128(2 * (y0 as i128 * y2 as i128 - y1 as i128 * y1 as i128) + dd, 2 * dd),
            );
            let r1: i32 = clamp_cut(
                fdiv_i128(2 * ((x1 as i128 - x0 as i128) * p) + 2 * (x0 as i128 * dd) + dd, 2 * dd),
            );
            rasterize_quad_bezier_seg(
                x0,
                y0,
                r1,
                ycut,
                xcut,
                ycut,
                buf_lhs,
                buf_rhs,
                scanlines,
                w,
                h,
                ymin,
            );
            let q: i128 = y1 as i128 - y2 as i128;
            proof {
                lemma_mul_abs((x1 as i128 - x2 as i128) as int, (q) as int, 0x20000, 0x20000);
                lemma_mul_abs((x2 as i128) as int, (dd) as int, 0x10000, 0x40000);
            }
            let r2: i32 = clamp_cut(
                fdiv_i128(
                    -2 * ((x1 as i128 - x2 as i128) * q) + 2 * (x2 as i128 * dd) + dd,
                    2 * dd,
                ),
            );
            proof {
                assert(vstate == QuadState {
                    x0: xcut as int,
                    y0: ycut as int,
                    x1: r2 as int,
                    y1: ycut as int,
                    x2: x2 as int,
                    y2: y2 as int,
                    lhs: buf_lhs@,
                    rhs: buf_rhs@,
                    acc: scanlines@,
                });
            }
            x0 = xcut;
            x1 = r2;
            y0 = ycut;
            y1 = ycut;
        }
    }
    proof {
        assert(vstate == QuadState {
            x0: x0 as int,
            y0: y0 as int,
            x1: x1 as int,
            y1: y1 as int,
            x2: x2 as int,
            y2: y2 as int,
            lhs: buf_lhs@,
            rhs: buf_rhs@,
            acc: scanlines@,
        });
    }
    rasterize_quad_bezier_seg(x0, y0, x1, y1, x2, y2, buf_lhs, buf_rhs, scanlines, w, h, ymin);
}


/// Floor of the square root.
pub open spec fn is_isqrt(n: int, r: int) -> bool {
    &&& 0 <= r
    &&& r * r <= n
    &&& n < (r + 1) * (r + 1)
}

/// The integer square root, by bisection.
pub fn isqrt_u128(n: u128) -> (r: u128)
    requires
        n < 0x4000_0000_0000_0000_0000_0000_0000_0000,
    ensures
        is_isqrt(n as int, r as int),
        r <= 0x8000_0000_0000_0000,
{
    if n == 0 {
        proof {
            assert(is_isqrt(0, 0)) by (nonlinear_arith);
        }
        return 0;
    }
    let mut lo: u128 = 0;
    let mut hi: u128 = 0x8000_0000_0000_0000;
    proof {
        assert((0x8000_0000_0000_0000 as int) * (0x8000_0000_0000_0000 as int) > n)
            by (nonlinear_arith)
            requires
                n < 0x4000_0000_0000_0000_0000_0000_0000_0000,
        ;
    }
    while lo + 1 < hi
        invariant
            0 <= lo < hi <= 0x8000_0000_0000_0000,
            lo * lo <= n,
            hi * hi > n,
        decreases hi - lo,
    {
        let mid: u128 = lo + (hi - lo) / 2;
        proof {
            assert(mid * mid < 0x8000_0000_0000_0000 * 0x8000_0000_0000_0000)
                by (nonlinear_arith)
                requires
                    0 <= mid < 0x8000_0000_0000_0000,
            ;
        }
        if mid * mid <= n {
            lo = mid;
        } else {
            hi = mid;
        }
    }
    lo
}

/// Bhaskara's rational approximation of the sine, for a degree argument
/// in [0, 180], scaled by 1024.
pub open spec fn bhaskara1024(d: int) -> int {
    4 * d * (180 - d) * 1024 / (40500 - d * (180 - d))
}

/// The sine of `deg` degrees, scaled by 1024, by Bhaskara's
/// approximation (within a fraction of a percent of the real sine).
pub open spec fn sin1024_spec(deg: int) -> int {
    if deg <= 180 {
        bhaskara1024(deg)
    } else {
        -bhaskara1024(deg - 180)
    }
}

pub fn sin1024(deg: u32) -> (s: i32)
    requires
        deg < 360,
    ensures
        s == sin1024_spec(deg as int),
        -1024 <= s <= 1024,
{
    let d: i64 = if deg <= 180 {
        deg as i64
    } else {
        deg as i64 - 180
    };
    proof {
        assert(0 <= (d as int) * (180 - d as int) <= 8100) by (nonlinear_arith)
            requires
                0 <= d <= 180,
        ;
    }
    let u: i64 = d * (180 - d);
    proof {
        assert(0 <= 4 * ((d as int) * (180 - d as int)) * 1024 <= 1024 * (40500 - (d as int) * (
        180 - d as int))) by (nonlinear_arith)
            requires
                0 <= (d as int) * (180 - d as int) <= 8100,
        ;
        let numi: int = 4 * ((d as int) * (180 - d as int)) * 1024;
        let deni: int = 40500 - (d as int) * (180 - d as int);
        vstd::arithmetic::div_mod::lemma_div_pos_is_pos(numi, deni);
        vstd::arithmetic::div_mod::lemma_div_is_ordered(numi, 1024 * deni, deni);
        vstd::arithmetic::div_mod::lemma_div_multiples_vanish(1024, deni);
        assert(numi <= 1024 * deni);
        assert(deni * 1024 == 1024 * deni) by (nonlinear_arith);
        assert(4 * ((d as int) * (180 - d as int)) * 1024 == 4 * (d as int) * (180 - d as int)
            * 1024) by (nonlinear_arith);
    }
    let num: i64 = 4 * u * 1024;
    let den: i64 = 40500 - u;
    let v: i64 = num / den;
    let vi: i32 = v as i32;
    if deg <= 180 {
        vi
    } else {
        -vi
    }
}

/// The cosine of `deg` degrees, scaled by 1024.
pub fn cos1024(deg: u32) -> (c: i32)
    requires
        deg < 360,
    ensures
        c == sin1024_spec(((deg + 90) % 360) as int),
        -1024 <= c <= 1024,
{
    sin1024((deg + 90) % 360)
}

/// The cosine of `deg` degrees, scaled by 1024, in specification form.
pub open spec fn cos1024_spec(deg: int) -> int {
    sin1024_spec((deg + 90) % 360)
}

/// Fixed-point rotation of `p` about `c` by `degree` degrees, truncating
/// the 1/1024 fraction toward zero.
pub open spec fn rotate_point_spec(c: Point, p: Point, degree: int) -> Point {
    let cosv = cos1024_spec(degree);
    let sinv = sin1024_spec(degree);
    let dx = p.x - c.x;
    let dy = p.y - c.y;
    let numx = cosv * dx - sinv * dy;
    let numy = sinv * dx + cosv * dy;
    Point {
        x: (crate::algo::tdiv(numx, 1024) + c.x) as i32,
        y: (crate::algo::tdiv(numy, 1024) + c.y) as i32,
    }
}

/// Rotate `p` about `c` by `degree` degrees, in fixed-point arithmetic.
pub fn rotate_point(c: &Point, p: &Point, degree: u32) -> (r: Point)
    requires
        degree < 360,
        -0x3000 <= c.x <= 0x3000,
        -0x3000 <= c.y <= 0x3000,
        -0x2000 <= p.x - c.x <= 0x2000,
        -0x2000 <= p.y - c.y <= 0x2000,
    ensures
        point_ok(r),
        r == rotate_point_spec(*c, *p, degree as int),
{
    let cosv: i64 = cos1024(degree) as i64;
    let sinv: i64 = sin1024(degree) as i64;
    let dx: i64 = p.x as i64 - c.x as i64;
    let dy: i64 = p.y as i64 - c.y as i64;
    proof {
        assert(-0x2000 * 1024 <= cosv * dx <= 0x2000 * 1024) by (nonlinear_arith)
            requires
                -1024 <= cosv <= 1024 && -0x2000 <= dx <= 0x2000,
        ;
        assert(-0x2000 * 1024 <= sinv * dy <= 0x2000 * 1024) by (nonlinear_arith)
            requires
                -1024 <= sinv <= 1024 && -0x2000 <= dy <= 0x2000,
        ;
        assert(-0x2000 * 1024 <= sinv * dx <= 0x2000 * 1024) by (nonlinear_arith)
            requires
                -1024 <= sinv <= 1024 && -0x2000 <= dx <= 0x2000,
        ;
        assert(-0x2000 * 1024 <= cosv * dy <= 0x2000 * 1024) by (nonlinear_arith)
            requires
                -1024 <= cosv <= 1024 && -0x2000 <= dy <= 0x2000,
        ;
    }
    let numx: i64 = cosv * dx - sinv * dy;
    let numy: i64 = sinv * dx + cosv * dy;
    let qx: i64 = if numx >= 0 {
        numx / 1024
    } else {
        -((-numx) / 1024)
    };
    let qy: i64 = if numy >= 0 {
        numy / 1024
    } else {
        -((-numy) / 1024)
    };
    proof {
        assert(forall|a: int| 0 <= a <= 0x4000 * 1024 ==> 0 <= #[trigger] (a / 1024) <= 0x4000)
            by (nonlinear_arith);
    }
    let nx: i64 = qx + c.x as i64;
    let ny: i64 = qy + c.y as i64;
    Point { x: nx as i32, y: ny as i32 }
}

/// The integer square root, as a specification value.
pub open spec fn sqrt_floor(n: int) -> int {
    choose|r: int| is_isqrt(n, r)
}

/// The floor square root is unique.
pub proof fn lemma_isqrt_unique(n: int, a: int, b: int)
    requires
        is_isqrt(n, a),
        is_isqrt(n, b),
    ensures
        a == b,
{
    assert(a == b) by (nonlinear_arith)
        requires
            0 <= a && a * a <= n && n < (a + 1) * (a + 1) && 0 <= b && b * b <= n && n < (b + 1)
                * (b + 1),
    ;
}

/// The coordinate clamp the rotated-ellipse scan applies to its column
/// offsets.
pub open spec fn span_clamp(v: int) -> int {
    if v < -0x8000 {
        -0x8000
    } else if v > 0x8000 {
        0x8000
    } else {
        v
    }
}

/// One row of the rotated-ellipse scan: solve the ellipse's quadratic for
/// the covered column interval and emit it when it is real, nonempty and
/// on a nonnegative row.
pub open spec fn rot_row(
    o: Point,
    aq: int,
    bq: int,
    cq: int,
    fq: int,
    dy: int,
    acc: Seq<Scanline>,
) -> Seq<Scanline> {
    let c0 = cq * (dy * dy) - fq;
    let bd = bq * dy;
    let disc = bd * bd - aq * c0;
    if disc >= 0 {
        let root = sqrt_floor(disc);
        let lo = -fdiv(bd + root, aq);
        let hi = fdiv(-bd + root, aq);
        if lo <= hi && o.y + dy >= 0 {
            acc.push(
                Scanline {
                    y: (o.y + dy) as u32,
                    x1: at_least0(o.x + span_clamp(lo)),
                    x2: at_least0(o.x + span_clamp(hi)),
                },
            )
        } else {
            acc
        }
    } else {
        acc
    }
}

/// The rotated-ellipse scan over rows `dy..=b`.
pub open spec fn rot_walk(
    o: Point,
    aq: int,
    bq: int,
    cq: int,
    fq: int,
    dy: int,
    b: int,
    acc: Seq<Scanline>,
) -> Seq<Scanline>
    decreases b + 1 - dy,
{
    if dy > b {
        acc
    } else {
        rot_walk(o, aq, bq, cq, fq, dy + 1, b, rot_row(o, aq, bq, cq, fq, dy, acc))
    }
}

/// The rotated-ellipse rasterization as a function: the quadratic's
/// coefficients from the fixed-point rotation, then one row interval per
/// scan row.
pub open spec fn rotated_ellipse_lines_spec(o: Point, rx: int, ry: int, degree: int) -> Seq<
    Scanline,
> {
    let cosv = cos1024_spec(degree);
    let sinv = sin1024_spec(degree);
    let rx2 = rx * rx;
    let ry2 = ry * ry;
    let aq = (cosv * cosv) * ry2 + (sinv * sinv) * rx2;
    let bq = (cosv * sinv) * (ry2 - rx2);
    let cq = (sinv * sinv) * ry2 + (cosv * cosv) * rx2;
    let fq = 1024 * 1024 * (rx2 * ry2);
    if aq <= 0 || cq < 0 || fq < 0 {
        Seq::empty()
    } else {
        let b = (if rx > ry {
            rx
        } else {
            ry
        }) + 1;
        rot_walk(o, aq, bq, cq, fq, -b, b, Seq::empty())
    }
}

/// Scanline-rasterize an ellipse of radii `rx`, `ry` centred at `o` and
/// rotated by `degree`: for each row, the covered column interval is
/// found by solving the ellipse's quadratic with an integer square root.
/// Raw lines may extend past the canvas; every one has `x1 <= x2`.
pub fn rasterize_rotated_ellipse(
    o: &Point,
    rx: u32,
    ry: u32,
    degree: u32,
    w: u32,
    h: u32,
) -> (r: Vec<Scanline>)
    requires
        point_ok(*o),
        1 <= rx <= MAX_DIM,
        1 <= ry <= MAX_DIM,
        degree < 360,
        1 <= w <= MAX_DIM,
        1 <= h <= MAX_DIM,
    ensures
        forall|j: int| 0 <= j < r@.len() ==> (#[trigger] r@[j]).x1 <= r@[j].x2,
        r@.len() <= 0x4000,
        r@ == rotated_ellipse_lines_spec(*o, rx as int, ry as int, degree as int),
{
    let mut lines: Vec<Scanline> = Vec::new();
    let cosv: i128 = cos1024(degree) as i128;
    let sinv: i128 = sin1024(degree) as i128;
    proof {
        lemma_mul_abs((rx as i128) as int, (rx as i128) as int, 0x1000, 0x1000);
        lemma_mul_abs((ry as i128) as int, (ry as i128) as int, 0x1000, 0x1000);
    }
    let rx2: i128 = (rx as i128) * (rx as i128);
    let ry2: i128 = (ry as i128) * (ry as i128);
    proof {
        lemma_mul_abs((cosv) as int, (cosv) as int, 1024, 1024);
        lemma_mul_abs((sinv) as int, (sinv) as int, 1024, 1024);
        lemma_mul_abs((cosv * cosv) as int, (ry2) as int, 0x100000, 0x1000000);
        lemma_mul_abs((sinv * sinv) as int, (rx2) as int, 0x100000, 0x1000000);
        lemma_mul_abs((cosv * cosv) as int, (rx2) as int, 0x100000, 0x1000000);
        lemma_mul_abs((sinv * sinv) as int, (ry2) as int, 0x100000, 0x1000000);
        lemma_mul_abs((cosv) as int, (sinv) as int, 1024, 1024);
        lemma_mul_abs((cosv * sinv) as int, (ry2 - rx2) as int, 0x100000, 0x1000000);
        lemma_mul_abs((rx2) as int, (ry2) as int, 0x1000000, 0x1000000);
    }
    proof {
        lemma_mul_abs((1024 * 1024) as int, ((rx2) * (ry2)) as int, 0x100000,
            0x1_0000_0000_0000);
    }
    let aq: i128 = (cosv * cosv) * ry2 + (sinv * sinv) * rx2;
    let bq: i128 = (cosv * sinv) * (ry2 - rx2);
    let cq: i128 = (sinv * sinv) * ry2 + (cosv * cosv) * rx2;
    let fq: i128 = 1024 * 1024 * (rx2 * ry2);
    if aq <= 0 || cq < 0 || fq < 0 {
        proof {
            assert(lines@ =~= Seq::<Scanline>::empty());
        }
        return lines;
    }
    let b: i64 = if rx > ry {
        rx as i64
    } else {
        ry as i64
    } + 1;
    let mut dy: i64 = -b;
    let ghost rtarget = rot_walk(
        *o,
        aq as int,
        bq as int,
        cq as int,
        fq as int,
        -(b as int),
        b as int,
        Seq::empty(),
    );
    proof {
        assert(lines@ =~= Seq::<Scanline>::empty());
        assert(rtarget == rotated_ellipse_lines_spec(*o, rx as int, ry as int, degree as int));
    }
    while dy <= b
        invariant
            point_ok(*o),
            1 <= b <= 0x1001,
            -b <= dy <= b + 1,
            1 <= aq <= 0x4000_0000_0000,
            -0x4000_0000_0000 <= bq <= 0x4000_0000_0000,
            0 <= cq <= 0x4000_0000_0000,
            0 <= fq <= 0x20_0000_0000_0000_0000,
            lines@.len() <= dy + b + 1,
            point_ok(*o),
            forall|j: int| 0 <= j < lines@.len() ==> (#[trigger] lines@[j]).x1 <= lines@[j].x2,
            rot_walk(*o, aq as int, bq as int, cq as int, fq as int, dy as int, b as int, lines@)
                == rtarget,
        decreases b + 1 - dy,
    {
        let dyi: i128 = dy as i128;
        proof {
            lemma_mul_abs((dyi) as int, (dyi) as int, 0x2000, 0x2000);
            lemma_mul_abs((cq) as int, (dyi * dyi) as int, 0x4000_0000_0000, 0x4000000);
            lemma_mul_abs((bq) as int, (dyi) as int, 0x4000_0000_0000, 0x2000);
            lemma_mul_abs((bq * dyi) as int, (bq * dyi) as int, 0x800_0000_0000_0000,
                0x800_0000_0000_0000);
        }
        let c0: i128 = cq * (dyi * dyi) - fq;
        let bd: i128 = bq * dyi;
        proof {
            lemma_mul_abs((aq) as int, (c0) as int, 0x4000_0000_0000, 0x200_0000_0000_0000_0000);
        }
        let disc: i128 = bd * bd - aq * c0;
        if disc >= 0 {
            let root: i128 = isqrt_u128(disc as u128) as i128;
            proof {
                assert(0 <= root < 0x2000_0000_0000_0000) by (nonlinear_arith)
                    requires
                        0 <= root,
                        (root as int) * (root as int) <= disc,
                        disc < 0x200_0000_0000_0000_0000_0000_0000_0000,
                ;
                assert(is_isqrt(disc as int, sqrt_floor(disc as int))) by {
                    assert(is_isqrt(disc as int, root as int));
                }
                lemma_isqrt_unique(disc as int, root as int, sqrt_floor(disc as int));
            }
            let lo: i128 = -fdiv_i128(bd + root, aq);
            let hi: i128 = fdiv_i128(-bd + root, aq);
            if lo <= hi && o.y as i64 + dy >= 0 {
                let lo_c: i64 = if lo < -0x8000 {
                    -0x8000
                } else if lo > 0x8000 {
                    0x8000
                } else {
                    lo as i64
                };
                let hi_c: i64 = if hi < -0x8000 {
                    -0x8000
                } else if hi > 0x8000 {
                    0x8000
                } else {
                    hi as i64
                };
                let x1v: i64 = o.x as i64 + lo_c;
                let x2v: i64 = o.x as i64 + hi_c;
                let yv: i64 = o.y as i64 + dy;
                let line = Scanline {
                    y: yv as u32,
                    x1: clamp_to_u32(x1v),
                    x2: clamp_to_u32(x2v),
                };
                lines.push(line);
            }
        }
        dy += 1;
    }
    lines
}

} // verus!
