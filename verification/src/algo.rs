use vstd::prelude::*;

use crate::clamp_spec;
use crate::MAX_DIM;
use crate::color::{compose_spec, Color};
use crate::image::{chan, Image};
use crate::scanline::{line_ok, lines_ok, lines_ok_from, Scanline};

verus! {

/// Cap on how many scanlines one shape may produce; keeps every pixel sum
/// inside a 64-bit accumulator.
pub const MAX_LINES: usize = 0x100_0000;

/// Cap on a committed score: the largest sum of squared channel
/// differences a well-formed canvas pair can reach is
/// `4 * 255^2 * MAX_DIM^2`, which is below this.
pub const MAX_SCORE: u64 = 0x400_0000_0000;

// ---------------------------------------------------------------------------
// Optimal color
// ---------------------------------------------------------------------------
/// One summand of the optimal-color computation for channel `k`:
/// the target/canvas difference amplified by the alpha factor `af`,
/// plus the canvas value scaled by 257.
pub open spec fn cc_term(t: Color, c: Color, af: int, k: int) -> int {
    (chan(t, k) - chan(c, k)) * af + chan(c, k) * 257
}

/// Sum of `cc_term` over columns `x..=x2` of row `y`.
pub open spec fn cc_row(t: Image, c: Image, y: int, x: int, x2: int, af: int, k: int) -> int
    decreases x2 + 1 - x,
{
    if x > x2 {
        0
    } else {
        cc_term(t.pix(x, y), c.pix(x, y), af, k) + cc_row(t, c, y, x + 1, x2, af, k)
    }
}

/// Sum of `cc_row` over the full spans of `lines[i..]`.
pub open spec fn cc_lines_from(
    t: Image,
    c: Image,
    lines: Seq<Scanline>,
    i: int,
    af: int,
    k: int,
) -> int
    decreases lines.len() - i,
{
    if i < 0 || i >= lines.len() {
        0
    } else {
        cc_row(t, c, lines[i].y as int, lines[i].x1 as int, lines[i].x2 as int, af, k)
            + cc_lines_from(t, c, lines, i + 1, af, k)
    }
}

/// The number of pixels covered by `lines[i..]`, spans counted with
/// multiplicity.
pub open spec fn count_from(lines: Seq<Scanline>, i: int) -> int
    decreases lines.len() - i,
{
    if i < 0 || i >= lines.len() {
        0
    } else {
        (lines[i].x2 - lines[i].x1 + 1) + count_from(lines, i + 1)
    }
}

/// Division truncating toward zero, as Rust's `/` on signed integers.
pub open spec fn tdiv(a: int, b: int) -> int {
    if a >= 0 {
        a / b
    } else {
        -((-a) / b)
    }
}

/// The alpha factor: 257 * 255 / alpha, truncated.
pub open spec fn alpha_factor(alpha: int) -> int {
    (257 * 255) as int / alpha
}

/// The closed-form optimal color for blending with alpha `alpha` over the
/// covered pixels: per channel, the mean of `cc_term`, shifted right by
/// eight bits and clamped to a byte.
pub open spec fn compute_color_spec(
    t: Image,
    c: Image,
    lines: Seq<Scanline>,
    alpha: u8,
) -> Color {
    let af = alpha_factor(alpha as int);
    let n = count_from(lines, 0);
    Color {
        r: clamp_spec(tdiv(cc_lines_from(t, c, lines, 0, af, 0), n) / 256, 0, 255) as u8,
        g: clamp_spec(tdiv(cc_lines_from(t, c, lines, 0, af, 1), n) / 256, 0, 255) as u8,
        b: clamp_spec(tdiv(cc_lines_from(t, c, lines, 0, af, 2), n) / 256, 0, 255) as u8,
        a: alpha,
    }
}

proof fn lemma_cc_term_bound(t: Color, c: Color, af: int, k: int)
    requires
        0 <= af <= 0x10000,
    ensures
        -0x2000000 <= cc_term(t, c, af, k) <= 0x2000000,
{
    assert(-0x2000000 <= (chan(t, k) - chan(c, k)) * af + chan(c, k) * 257 <= 0x2000000)
        by (nonlinear_arith)
        requires
            0 <= af <= 0x10000,
            0 <= chan(t, k) <= 255,
            0 <= chan(c, k) <= 255,
    ;
}

proof fn lemma_cc_row_bound(t: Image, c: Image, y: int, x: int, x2: int, af: int, k: int)
    requires
        0 <= af <= 0x10000,
    ensures
        -0x2000000 * (if x > x2 {
            0int
        } else {
            x2 + 1 - x
        }) <= cc_row(t, c, y, x, x2, af, k) <= 0x2000000 * (if x > x2 {
            0int
        } else {
            x2 + 1 - x
        }),
    decreases x2 + 1 - x,
{
    if x <= x2 {
        lemma_cc_term_bound(t.pix(x, y), c.pix(x, y), af, k);
        lemma_cc_row_bound(t, c, y, x + 1, x2, af, k);
        assert(0x2000000 * (x2 + 1 - x) == 0x2000000 + 0x2000000 * (x2 - x)) by (nonlinear_arith);
    }
}

proof fn lemma_count_nonneg(lines: Seq<Scanline>, i: int, w: int, h: int)
    requires
        lines_ok(lines, w, h),
    ensures
        count_from(lines, i) >= 0,
        i < lines.len() ==> count_from(lines, i) >= if i >= 0 {
            lines[i].x2 - lines[i].x1 + 1
        } else {
            0int
        },
    decreases lines.len() - i,
{
    if i < lines.len() {
        lemma_count_nonneg(lines, i + 1, w, h);
    }
}

/// Division truncating toward zero on 64-bit values.
fn tdiv_i64(a: i64, b: i64) -> (r: i64)
    requires
        b >= 1,
        a > i64::MIN,
    ensures
        r == tdiv(a as int, b as int),
        a >= 0 ==> 0 <= r <= a,
{
    if a >= 0 {
        proof {
            assert(0 <= a as int / b as int <= a) by (nonlinear_arith)
                requires
                    a >= 0 && b >= 1,
            ;
        }
        a / b
    } else {
        let neg: i64 = -a;
        proof {
            assert(0 <= neg as int / b as int <= neg) by (nonlinear_arith)
                requires
                    neg >= 0 && b >= 1,
            ;
        }
        -(neg / b)
    }
}

/// Floor division by 256, as an arithmetic right shift by eight would do.
fn shr8_i64(a: i64) -> (r: i64)
    requires
        -0x4000_0000 <= a <= 0x4000_0000,
    ensures
        r == a as int / 256,
{
    if a >= 0 {
        a / 256
    } else {
        let r = -((-a + 255) / 256);
        proof {
            let ai = a as int;
            assert(-((-ai + 255) / 256) == ai / 256) by (nonlinear_arith)
                requires
                    -0x4000_0000 <= ai < 0,
            ;
        }
        r
    }
}

/// The color that best matches the target over the covered pixels when
/// blended with alpha `alpha` over the current canvas, in least squares
/// per channel.
pub fn compute_color(
    origin_img: &Image,
    current_img: &Image,
    lines: &Vec<Scanline>,
    alpha: u8,
) -> (r: Color)
    requires
        origin_img.wf(),
        current_img.wf(),
        origin_img.w == current_img.w,
        origin_img.h == current_img.h,
        lines_ok(lines@, origin_img.w as int, origin_img.h as int),
        lines@.len() >= 1,
        lines@.len() <= MAX_LINES,
        alpha >= 1,
    ensures
        r == compute_color_spec(*origin_img, *current_img, lines@, alpha),
{
    let ghost t = *origin_img;
    let ghost c = *current_img;
    let af64: i64 = 257 * 255 / (alpha as i64);
    let ghost af = alpha_factor(alpha as int);
    proof {
        assert(0 <= (257 * 255) as int / (alpha as int) <= 0x10000) by (nonlinear_arith)
            requires
                alpha >= 1,
        ;
    }
    let mut rsum: i64 = 0;
    let mut gsum: i64 = 0;
    let mut bsum: i64 = 0;
    let mut cnt: i64 = 0;
    let n = lines.len();
    let ghost total = count_from(lines@, 0);
    proof {
        assert forall|j: int| 0 <= j < lines@.len() implies (#[trigger] lines@[j]).x2
            - lines@[j].x1 + 1 <= 0x1000 && lines@[j].x1 <= lines@[j].x2 by {
            assert(line_ok(lines@[j], t.w as int, t.h as int));
        }
        lemma_count_count_le(lines@, 0);
        lemma_count_nonneg(lines@, 0, t.w as int, t.h as int);
    }
    let mut i: usize = 0;
    while i < n
        invariant
            i <= n == lines@.len() <= MAX_LINES,
            t.wf(),
            c.wf(),
            t == *origin_img,
            c == *current_img,
            t.w == c.w,
            t.h == c.h,
            lines_ok(lines@, t.w as int, t.h as int),
            0 <= af <= 0x10000,
            af == af64,
            total == count_from(lines@, 0),
            0 <= total <= 0x10_0000_0000,
            cnt == total - count_from(lines@, i as int),
            0 <= cnt <= total,
            -0x2000000 * cnt <= rsum <= 0x2000000 * cnt,
            -0x2000000 * cnt <= gsum <= 0x2000000 * cnt,
            -0x2000000 * cnt <= bsum <= 0x2000000 * cnt,
            rsum + cc_lines_from(t, c, lines@, i as int, af, 0) == cc_lines_from(
                t,
                c,
                lines@,
                0,
                af,
                0,
            ),
            gsum + cc_lines_from(t, c, lines@, i as int, af, 1) == cc_lines_from(
                t,
                c,
                lines@,
                0,
                af,
                1,
            ),
            bsum + cc_lines_from(t, c, lines@, i as int, af, 2) == cc_lines_from(
                t,
                c,
                lines@,
                0,
                af,
                2,
            ),
        decreases n - i,
    {
        let line = lines[i];
        let mut x: u32 = line.x1;
        let ghost cnt0 = cnt as int;
        let ghost rsum0 = rsum as int;
        let ghost gsum0 = gsum as int;
        let ghost bsum0 = bsum as int;
        proof {
            lemma_count_nonneg(lines@, i as int, t.w as int, t.h as int);
            lemma_count_nonneg(lines@, i + 1, t.w as int, t.h as int);
            lemma_count_count_le(lines@, i as int);
        }
        while x <= line.x2
            invariant
                t.wf(),
                c.wf(),
                t == *origin_img,
                c == *current_img,
                t.w == c.w,
                t.h == c.h,
                line_ok(line, t.w as int, t.h as int),
                line.x1 <= x <= line.x2 + 1,
                0 <= af <= 0x10000,
                af == af64,
                cnt == cnt0 + (x - line.x1),
                cnt0 + (line.x2 - line.x1 + 1) <= total,
                0 <= cnt0 <= cnt <= total <= 0x10_0000_0000,
                -0x2000000 * cnt <= rsum <= 0x2000000 * cnt,
                -0x2000000 * cnt <= gsum <= 0x2000000 * cnt,
                -0x2000000 * cnt <= bsum <= 0x2000000 * cnt,
                rsum == rsum0 + cc_row(t, c, line.y as int, line.x1 as int, x - 1, af, 0),
                gsum == gsum0 + cc_row(t, c, line.y as int, line.x1 as int, x - 1, af, 1),
                bsum == bsum0 + cc_row(t, c, line.y as int, line.x1 as int, x - 1, af, 2),
            decreases line.x2 + 1 - x,
        {
            let tp = origin_img.get_pixel(x, line.y);
            let cp = current_img.get_pixel(x, line.y);
            let tr = tp.r as i64;
            let tg = tp.g as i64;
            let tb = tp.b as i64;
            let cr = cp.r as i64;
            let cg = cp.g as i64;
            let cb = cp.b as i64;
            proof {
                lemma_cc_term_bound(tp, cp, af, 0);
                lemma_cc_term_bound(tp, cp, af, 1);
                lemma_cc_term_bound(tp, cp, af, 2);
                lemma_cc_row_snoc(t, c, line.y as int, line.x1 as int, x as int, af, 0);
                lemma_cc_row_snoc(t, c, line.y as int, line.x1 as int, x as int, af, 1);
                lemma_cc_row_snoc(t, c, line.y as int, line.x1 as int, x as int, af, 2);
            }
            rsum += (tr - cr) * af64 + cr * 257;
            gsum += (tg - cg) * af64 + cg * 257;
            bsum += (tb - cb) * af64 + cb * 257;
            cnt += 1;
            x += 1;
        }
        proof {
            lemma_cc_lines_step(t, c, lines@, i as int, af, 0);
            lemma_cc_lines_step(t, c, lines@, i as int, af, 1);
            lemma_cc_lines_step(t, c, lines@, i as int, af, 2);
        }
        i += 1;
    }
    proof {
        lemma_count_nonneg(lines@, 0, t.w as int, t.h as int);
        assert(count_from(lines@, 0) >= lines@[0].x2 - lines@[0].x1 + 1 >= 1);
    }
    let rq = tdiv_i64(rsum, cnt);
    let gq = tdiv_i64(gsum, cnt);
    let bq = tdiv_i64(bsum, cnt);
    proof {
        lemma_tdiv_bound(rsum as int, cnt as int);
        lemma_tdiv_bound(gsum as int, cnt as int);
        lemma_tdiv_bound(bsum as int, cnt as int);
    }
    let rv = crate::clamp_i64(shr8_i64(rq), 0, 255);
    let gv = crate::clamp_i64(shr8_i64(gq), 0, 255);
    let bv = crate::clamp_i64(shr8_i64(bq), 0, 255);
    Color { r: rv as u8, g: gv as u8, b: bv as u8, a: alpha }
}

proof fn lemma_tdiv_bound(s: int, n: int)
    requires
        n >= 1,
        -0x2000000 * n <= s <= 0x2000000 * n,
    ensures
        -0x2000000 <= tdiv(s, n) <= 0x2000000,
{
    if s >= 0 {
        assert(s / n <= 0x2000000) by (nonlinear_arith)
            requires
                n >= 1 && 0 <= s <= 0x2000000 * n,
        ;
    } else {
        assert((-s) / n <= 0x2000000) by (nonlinear_arith)
            requires
                n >= 1 && 0 <= -s <= 0x2000000 * n,
        ;
    }
}

proof fn lemma_count_count_le(lines: Seq<Scanline>, i: int)
    requires
        forall|j: int| 0 <= j < lines.len() ==> (#[trigger] lines[j]).x2 - lines[j].x1 + 1 <= 0x1000,
        lines.len() <= MAX_LINES,
        forall|j: int| 0 <= j < lines.len() ==> (#[trigger] lines[j]).x1 <= lines[j].x2,
        0 <= i <= lines.len(),
    ensures
        count_from(lines, i) <= 0x1000 * (lines.len() - i),
    decreases lines.len() - i,
{
    if i < lines.len() {
        lemma_count_count_le(lines, i + 1);
    }
}

/// Extending a row sum by its next column.
proof fn lemma_cc_row_snoc(t: Image, c: Image, y: int, x1: int, x: int, af: int, k: int)
    requires
        x1 <= x,
    ensures
        cc_row(t, c, y, x1, x, af, k) == cc_row(t, c, y, x1, x - 1, af, k) + cc_term(
            t.pix(x, y),
            c.pix(x, y),
            af,
            k,
        ),
    decreases x - x1,
{
    if x1 < x {
        lemma_cc_row_snoc(t, c, y, x1 + 1, x, af, k);
        assert(cc_row(t, c, y, x1, x - 1, af, k) == cc_term(t.pix(x1, y), c.pix(x1, y), af, k)
            + cc_row(t, c, y, x1 + 1, x - 1, af, k));
    } else {
        assert(cc_row(t, c, y, x + 1, x, af, k) == 0);
    }
}

proof fn lemma_cc_lines_step(t: Image, c: Image, lines: Seq<Scanline>, i: int, af: int, k: int)
    requires
        0 <= i < lines.len(),
    ensures
        cc_lines_from(t, c, lines, i, af, k) == cc_row(
            t,
            c,
            lines[i].y as int,
            lines[i].x1 as int,
            lines[i].x2 as int,
            af,
            k,
        ) + cc_lines_from(t, c, lines, i + 1, af, k),
{
}

// ---------------------------------------------------------------------------
// Image distance
// ---------------------------------------------------------------------------
/// Squared distance between two colors, summed over all four channels.
pub open spec fn d2(t: Color, c: Color) -> int {
    let dr = t.r - c.r;
    let dg = t.g - c.g;
    let db = t.b - c.b;
    let da = t.a - c.a;
    dr * dr + dg * dg + db * db + da * da
}

proof fn lemma_d2_bounds(t: Color, c: Color)
    ensures
        0 <= d2(t, c) <= 0x40000,
{
    assert(0 <= (t.r - c.r) * (t.r - c.r) <= 65025) by (nonlinear_arith);
    assert(0 <= (t.g - c.g) * (t.g - c.g) <= 65025) by (nonlinear_arith);
    assert(0 <= (t.b - c.b) * (t.b - c.b) <= 65025) by (nonlinear_arith);
    assert(0 <= (t.a - c.a) * (t.a - c.a) <= 65025) by (nonlinear_arith);
}

/// Sum of a per-pixel quantity over columns `x..=x2` of row `y`, the
/// quantity being a function of the two images' pixels there.
pub open spec fn pxsum_row(
    f: spec_fn(Color, Color) -> int,
    t: Image,
    c: Image,
    y: int,
    x: int,
    x2: int,
) -> int
    decreases x2 + 1 - x,
{
    if x > x2 {
        0
    } else {
        f(t.pix(x, y), c.pix(x, y)) + pxsum_row(f, t, c, y, x + 1, x2)
    }
}

/// Sum of a per-pixel quantity over the spans of `lines[i..]`.
pub open spec fn pxsum_lines_from(
    f: spec_fn(Color, Color) -> int,
    t: Image,
    c: Image,
    lines: Seq<Scanline>,
    i: int,
) -> int
    decreases lines.len() - i,
{
    if i < 0 || i >= lines.len() {
        0
    } else {
        pxsum_row(f, t, c, lines[i].y as int, lines[i].x1 as int, lines[i].x2 as int)
            + pxsum_lines_from(f, t, c, lines, i + 1)
    }
}

/// Sum of a per-pixel quantity over all rows `y..` of the whole canvas.
pub open spec fn pxsum_rows_from(
    f: spec_fn(Color, Color) -> int,
    t: Image,
    c: Image,
    y: int,
) -> int
    decreases t.h - y,
{
    if y < 0 || y >= t.h {
        0
    } else {
        pxsum_row(f, t, c, y, 0, t.w - 1) + pxsum_rows_from(f, t, c, y + 1)
    }
}

/// The squared-difference summand used by every distance function.
pub open spec fn d2_fn() -> spec_fn(Color, Color) -> int {
    |tp: Color, cp: Color| d2(tp, cp)
}

/// The squared difference after blending `color` over the canvas pixel.
pub open spec fn d2_blend_fn(color: Color) -> spec_fn(Color, Color) -> int {
    |tp: Color, cp: Color| d2(tp, compose_spec(cp, color))
}

/// The full distance between target and canvas: the sum of squared
/// channel differences over every pixel.  The root-mean-square form the
/// caller may want is `sqrt(sse / (4 * w * h)) / 255`, a monotone function
/// of this sum.
pub open spec fn sse_full(t: Image, c: Image) -> int {
    pxsum_rows_from(d2_fn(), t, c, 0)
}

proof fn lemma_pxsum_row_bounds(
    f: spec_fn(Color, Color) -> int,
    t: Image,
    c: Image,
    y: int,
    x: int,
    x2: int,
)
    requires
        forall|a: Color, b: Color| 0 <= #[trigger] f(a, b) <= 0x40000,
    ensures
        0 <= pxsum_row(f, t, c, y, x, x2) <= 0x40000 * (if x > x2 {
            0int
        } else {
            x2 + 1 - x
        }),
    decreases x2 + 1 - x,
{
    if x <= x2 {
        lemma_pxsum_row_bounds(f, t, c, y, x + 1, x2);
        assert(0x40000 * (x2 + 1 - x) == 0x40000 + 0x40000 * (x2 - x)) by (nonlinear_arith);
    }
}

proof fn lemma_pxsum_lines_bounds(
    f: spec_fn(Color, Color) -> int,
    t: Image,
    c: Image,
    lines: Seq<Scanline>,
    i: int,
)
    requires
        forall|a: Color, b: Color| 0 <= #[trigger] f(a, b) <= 0x40000,
        lines_ok(lines, t.w as int, t.h as int),
    ensures
        0 <= pxsum_lines_from(f, t, c, lines, i) <= 0x40000 * count_from(lines, i),
    decreases lines.len() - i,
{
    lemma_count_nonneg(lines, i, t.w as int, t.h as int);
    if 0 <= i < lines.len() {
        let span = lines[i].x2 - lines[i].x1 + 1;
        lemma_pxsum_row_bounds(f, t, c, lines[i].y as int, lines[i].x1 as int, lines[i].x2 as int);
        lemma_pxsum_lines_bounds(f, t, c, lines, i + 1);
        lemma_count_nonneg(lines, i + 1, t.w as int, t.h as int);
        assert(0x40000 * (span + count_from(lines, i + 1)) == 0x40000 * span + 0x40000
            * count_from(lines, i + 1)) by (nonlinear_arith);
    }
}

/// Extending a row sum by its next column.
proof fn lemma_pxsum_row_snoc(
    f: spec_fn(Color, Color) -> int,
    t: Image,
    c: Image,
    y: int,
    x1: int,
    x: int,
)
    requires
        x1 <= x,
    ensures
        pxsum_row(f, t, c, y, x1, x) == pxsum_row(f, t, c, y, x1, x - 1) + f(
            t.pix(x, y),
            c.pix(x, y),
        ),
    decreases x - x1,
{
    if x1 < x {
        lemma_pxsum_row_snoc(f, t, c, y, x1 + 1, x);
        assert(pxsum_row(f, t, c, y, x1, x - 1) == f(t.pix(x1, y), c.pix(x1, y)) + pxsum_row(
            f,
            t,
            c,
            y,
            x1 + 1,
            x - 1,
        ));
    } else {
        assert(pxsum_row(f, t, c, y, x + 1, x) == 0);
    }
}

/// Sum a per-pixel quantity over the spans of `lines`, where the exec
/// closure `g` computes exactly `f` on each pixel pair.
fn pxsum_lines_exec<F: Fn(Color, Color) -> u32>(
    t_img: &Image,
    c_img: &Image,
    lines: &Vec<Scanline>,
    g: F,
    Ghost(f): Ghost<spec_fn(Color, Color) -> int>,
) -> (r: u64)
    requires
        t_img.wf(),
        c_img.wf(),
        t_img.w == c_img.w,
        t_img.h == c_img.h,
        lines_ok(lines@, t_img.w as int, t_img.h as int),
        lines@.len() <= MAX_LINES,
        forall|a: Color, b: Color| 0 <= #[trigger] f(a, b) <= 0x40000,
        forall|a: Color, b: Color| #[trigger] g.requires((a, b)),
        forall|a: Color, b: Color, o: u32| #[trigger] g.ensures((a, b), o) ==> o == f(a, b),
    ensures
        r == pxsum_lines_from(f, *t_img, *c_img, lines@, 0),
{
    let ghost t = *t_img;
    let ghost c = *c_img;
    let mut sum: u64 = 0;
    let ghost total = count_from(lines@, 0);
    proof {
        assert forall|j: int| 0 <= j < lines@.len() implies (#[trigger] lines@[j]).x2
            - lines@[j].x1 + 1 <= 0x1000 && lines@[j].x1 <= lines@[j].x2 by {
            assert(line_ok(lines@[j], t.w as int, t.h as int));
        }
        lemma_count_count_le(lines@, 0);
        lemma_count_nonneg(lines@, 0, t.w as int, t.h as int);
    }
    let n = lines.len();
    let mut i: usize = 0;
    while i < n
        invariant
            i <= n == lines@.len() <= MAX_LINES,
            t.wf(),
            c.wf(),
            t == *t_img,
            c == *c_img,
            t.w == c.w,
            t.h == c.h,
            lines_ok(lines@, t.w as int, t.h as int),
            forall|a: Color, b: Color| 0 <= #[trigger] f(a, b) <= 0x40000,
            forall|a: Color, b: Color| #[trigger] g.requires((a, b)),
            forall|a: Color, b: Color, o: u32| #[trigger] g.ensures((a, b), o) ==> o == f(a, b),
            total == count_from(lines@, 0),
            0 <= total <= 0x10_0000_0000,
            0 <= sum <= 0x40000 * (total - count_from(lines@, i as int)),
            sum + pxsum_lines_from(f, t, c, lines@, i as int) == pxsum_lines_from(
                f,
                t,
                c,
                lines@,
                0,
            ),
            count_from(lines@, i as int) >= 0,
        decreases n - i,
    {
        let line = lines[i];
        let mut x: u32 = line.x1;
        let ghost sum0 = sum as int;
        let ghost cnt_i = count_from(lines@, i as int);
        let ghost cnt_i1 = count_from(lines@, i + 1);
        proof {
            lemma_count_nonneg(lines@, i + 1, t.w as int, t.h as int);
            assert(cnt_i == (line.x2 - line.x1 + 1) + cnt_i1);
        }
        while x <= line.x2
            invariant
                t.wf(),
                c.wf(),
                t == *t_img,
                c == *c_img,
                t.w == c.w,
                t.h == c.h,
                line_ok(line, t.w as int, t.h as int),
                line.x1 <= x <= line.x2 + 1,
                forall|a: Color, b: Color| 0 <= #[trigger] f(a, b) <= 0x40000,
                forall|a: Color, b: Color| #[trigger] g.requires((a, b)),
                forall|a: Color, b: Color, o: u32| #[trigger] g.ensures((a, b), o) ==> o == f(
                    a,
                    b,
                ),
                0 <= total <= 0x10_0000_0000,
                0 <= sum0,
                sum0 + 0x40000 * (cnt_i - cnt_i1) <= 0x40000 * total,
                0 <= cnt_i1 <= cnt_i,
                cnt_i - cnt_i1 == line.x2 - line.x1 + 1,
                sum == sum0 + pxsum_row(f, t, c, line.y as int, line.x1 as int, x - 1),
                sum <= sum0 + 0x40000 * (x - line.x1),
            decreases line.x2 + 1 - x,
        {
            let tp = t_img.get_pixel(x, line.y);
            let cp = c_img.get_pixel(x, line.y);
            let v = g(tp, cp);
            proof {
                lemma_pxsum_row_snoc(f, t, c, line.y as int, line.x1 as int, x as int);
            }
            sum += v as u64;
            x += 1;
        }
        proof {
            assert(pxsum_lines_from(f, t, c, lines@, i as int) == pxsum_row(
                f,
                t,
                c,
                line.y as int,
                line.x1 as int,
                line.x2 as int,
            ) + pxsum_lines_from(f, t, c, lines@, i + 1));
            assert(count_from(lines@, i as int) == (line.x2 - line.x1 + 1) + count_from(
                lines@,
                i + 1,
            ));
        }
        i += 1;
    }
    sum
}

fn d2_exec(a: Color, b: Color) -> (o: u32)
    ensures
        o == d2(a, b),
{
    let dr: i32 = a.r as i32 - b.r as i32;
    let dg: i32 = a.g as i32 - b.g as i32;
    let db: i32 = a.b as i32 - b.b as i32;
    let da: i32 = a.a as i32 - b.a as i32;
    proof {
        lemma_d2_bounds(a, b);
        assert(0 <= dr * dr <= 65025) by (nonlinear_arith)
            requires
                -255 <= dr <= 255,
        ;
        assert(0 <= dg * dg <= 65025) by (nonlinear_arith)
            requires
                -255 <= dg <= 255,
        ;
        assert(0 <= db * db <= 65025) by (nonlinear_arith)
            requires
                -255 <= db <= 255,
        ;
        assert(0 <= da * da <= 65025) by (nonlinear_arith)
            requires
                -255 <= da <= 255,
        ;
    }
    (dr * dr + dg * dg + db * db + da * da) as u32
}

/// The full distance between target and canvas as the sum of squared
/// channel differences over every pixel; the root-mean-square score is
/// `sqrt(r / (4 * w * h)) / 255`.
pub fn diff_full(origin_img: &Image, current_img: &Image) -> (r: u64)
    requires
        origin_img.wf(),
        current_img.wf(),
        origin_img.w == current_img.w,
        origin_img.h == current_img.h,
    ensures
        r == sse_full(*origin_img, *current_img),
        r <= MAX_SCORE,
{
    let ghost t = *origin_img;
    let ghost c = *current_img;
    let mut sum: u64 = 0;
    let h = origin_img.h;
    let w = origin_img.w;
    let mut y: u32 = 0;
    while y < h
        invariant
            y <= h,
            t.wf(),
            c.wf(),
            t == *origin_img,
            c == *current_img,
            w == t.w == c.w,
            h == t.h == c.h,
            0 <= sum <= 0x40000 * (y * w),
            sum + pxsum_rows_from(d2_fn(), t, c, y as int) == sse_full(t, c),
        decreases h - y,
    {
        let ghost row0 = sum as int;
        let mut x: u32 = 0;
        while x < w
            invariant
                x <= w,
                t.wf(),
                c.wf(),
                t == *origin_img,
                c == *current_img,
                w == t.w == c.w,
                h == t.h == c.h,
                y < h,
                0 <= row0 <= 0x40000 * (y * w),
                sum == row0 + pxsum_row(d2_fn(), t, c, y as int, 0, x - 1),
                sum <= row0 + 0x40000 * x,
            decreases w - x,
        {
            let tp = origin_img.get_pixel(x, y);
            let cp = current_img.get_pixel(x, y);
            let v = d2_exec(tp, cp);
            proof {
                lemma_d2_bounds(tp, cp);
                lemma_pxsum_row_snoc(d2_fn(), t, c, y as int, 0, x as int);
                assert(d2_fn()(tp, cp) == d2(tp, cp));
                assert(0 <= y * w <= (MAX_DIM - 1) * MAX_DIM) by (nonlinear_arith)
                    requires
                        0 <= y <= MAX_DIM - 1,
                        1 <= w <= MAX_DIM,
                ;
            }
            sum += v as u64;
            x += 1;
        }
        proof {
            assert(pxsum_rows_from(d2_fn(), t, c, y as int) == pxsum_row(
                d2_fn(),
                t,
                c,
                y as int,
                0,
                t.w - 1,
            ) + pxsum_rows_from(d2_fn(), t, c, y + 1));
            assert((y + 1) * w == y * w + w) by (nonlinear_arith);
        }
        y += 1;
    }
    proof {
        assert(0x40000 * (h * w) <= MAX_SCORE) by (nonlinear_arith)
            requires
                0 <= h <= MAX_DIM,
                0 <= w <= MAX_DIM,
        ;
        assert(sum <= 0x40000 * (h * w)) by (nonlinear_arith)
            requires
                sum <= 0x40000 * (h as int * w as int),
        ;
    }
    sum
}

proof fn lemma_lines_count_bound(lines: Seq<Scanline>, w: int, h: int)
    requires
        lines_ok(lines, w, h),
        w <= MAX_DIM as int,
        lines.len() <= MAX_LINES,
    ensures
        0 <= count_from(lines, 0) <= 0x10_0000_0000,
{
    assert forall|j: int| 0 <= j < lines.len() implies (#[trigger] lines[j]).x2 - lines[j].x1
        + 1 <= 0x1000 && lines[j].x1 <= lines[j].x2 by {
        assert(line_ok(lines[j], w, h));
    }
    lemma_count_count_le(lines, 0);
    lemma_count_nonneg(lines, 0, w, h);
}

/// The sum `score + added - removed`, floored at zero: the incremental
/// update of a squared-difference score when the covered pixels change.
pub open spec fn adjusted_score(score: int, added: int, removed: int) -> int {
    if score + added - removed >= 0 {
        score + added - removed
    } else {
        0
    }
}

/// The incremental distance after replacing the covered pixels of
/// `before_img` by those of `after_img`: the prior score, minus the old
/// contribution of the covered pixels, plus the new one.
pub fn diff_partial(
    origin_img: &Image,
    before_img: &Image,
    after_img: &Image,
    lines: &Vec<Scanline>,
    score: u64,
) -> (r: u64)
    requires
        origin_img.wf(),
        before_img.wf(),
        after_img.wf(),
        origin_img.w == before_img.w == after_img.w,
        origin_img.h == before_img.h == after_img.h,
        lines_ok(lines@, origin_img.w as int, origin_img.h as int),
        lines@.len() <= MAX_LINES,
        score <= MAX_SCORE,
    ensures
        r == adjusted_score(
            score as int,
            pxsum_lines_from(d2_fn(), *origin_img, *after_img, lines@, 0),
            pxsum_lines_from(d2_fn(), *origin_img, *before_img, lines@, 0),
        ),
{
    proof {
        assert forall|a: Color, b: Color| 0 <= #[trigger] d2_fn()(a, b) <= 0x40000 by {
            lemma_d2_bounds(a, b);
        }
    }
    let added = pxsum_lines_exec(origin_img, after_img, lines, d2_exec, Ghost(d2_fn()));
    let removed = pxsum_lines_exec(origin_img, before_img, lines, d2_exec, Ghost(d2_fn()));
    proof {
        lemma_pxsum_lines_bounds(d2_fn(), *origin_img, *after_img, lines@, 0);
        lemma_pxsum_lines_bounds(d2_fn(), *origin_img, *before_img, lines@, 0);
        lemma_lines_count_bound(lines@, origin_img.w as int, origin_img.h as int);
    }
    if score + added >= removed {
        score + added - removed
    } else {
        0
    }
}

/// The incremental distance if `color` were blended over the covered
/// pixels of `before_img`: the prior score, minus the old contribution of
/// those pixels, plus the contribution of the blended result.
pub fn diff_partial_with_color(
    origin_img: &Image,
    before_img: &Image,
    lines: &Vec<Scanline>,
    score: u64,
    color: Color,
) -> (r: u64)
    requires
        origin_img.wf(),
        before_img.wf(),
        origin_img.w == before_img.w,
        origin_img.h == before_img.h,
        lines_ok(lines@, origin_img.w as int, origin_img.h as int),
        lines@.len() <= MAX_LINES,
        score <= MAX_SCORE,
    ensures
        r == adjusted_score(
            score as int,
            pxsum_lines_from(d2_blend_fn(color), *origin_img, *before_img, lines@, 0),
            pxsum_lines_from(d2_fn(), *origin_img, *before_img, lines@, 0),
        ),
{
    proof {
        assert forall|a: Color, b: Color| 0 <= #[trigger] d2_fn()(a, b) <= 0x40000 by {
            lemma_d2_bounds(a, b);
        }
        assert forall|a: Color, b: Color| 0 <= #[trigger] d2_blend_fn(color)(a, b)
            <= 0x40000 by {
            lemma_d2_bounds(a, compose_spec(b, color));
        }
    }
    let blend = |a: Color, b: Color| -> (o: u32)
        ensures
            o == d2_blend_fn(color)(a, b),
        {
            let composed = crate::color::alpha_compose(&b, &color);
            d2_exec(a, composed)
        };
    let added = pxsum_lines_exec(origin_img, before_img, lines, blend, Ghost(d2_blend_fn(color)));
    let removed = pxsum_lines_exec(origin_img, before_img, lines, d2_exec, Ghost(d2_fn()));
    proof {
        lemma_pxsum_lines_bounds(d2_blend_fn(color), *origin_img, *before_img, lines@, 0);
        lemma_pxsum_lines_bounds(d2_fn(), *origin_img, *before_img, lines@, 0);
        lemma_lines_count_bound(lines@, origin_img.w as int, origin_img.h as int);
    }
    if score + added >= removed {
        score + added - removed
    } else {
        0
    }
}

/// The full distance between any image and itself is zero.
pub proof fn lemma_self_distance_zero(img: Image)
    requires
        img.wf(),
    ensures
        sse_full(img, img) == 0,
{
    lemma_self_rows_zero(img, 0);
}

proof fn lemma_self_rows_zero(img: Image, y: int)
    ensures
        pxsum_rows_from(d2_fn(), img, img, y) == 0,
    decreases img.h - y,
{
    if 0 <= y < img.h {
        lemma_self_row_zero(img, y, 0, img.w as int - 1);
        lemma_self_rows_zero(img, y + 1);
    }
}

proof fn lemma_self_row_zero(img: Image, y: int, x: int, x2: int)
    ensures
        pxsum_row(d2_fn(), img, img, y, x, x2) == 0,
    decreases x2 + 1 - x,
{
    if x <= x2 {
        let p = img.pix(x, y);
        assert((p.r - p.r) * (p.r - p.r) == 0) by (nonlinear_arith);
        lemma_self_row_zero(img, y, x + 1, x2);
    }
}


// ---------------------------------------------------------------------------
// Commit consistency
// ---------------------------------------------------------------------------
/// No two scanlines share a row.
pub open spec fn rows_distinct(lines: Seq<Scanline>) -> bool {
    forall|i: int, j: int|
        0 <= i < lines.len() && 0 <= j < lines.len() && i != j ==> (#[trigger] lines[i]).y != (
        #[trigger] lines[j]).y
}

/// Whether flat pixel index `p` lies on the span of `l`.
pub open spec fn covers(l: Scanline, w: int, p: int) -> bool {
    crate::scanline::flat_lo(l, w) <= p <= crate::scanline::flat_hi(l, w)
}

/// Rows are horizontally separate: a flat index in one row's span cannot
/// lie in another row's span.
proof fn lemma_row_sep(l1: Scanline, l2: Scanline, w: int, p: int)
    requires
        line_ok(l1, w, 0x10000),
        line_ok(l2, w, 0x10000),
        l1.y != l2.y,
        covers(l1, w, p),
    ensures
        !covers(l2, w, p),
{
    if l1.y < l2.y {
        assert((l1.y + 1) * w <= l2.y * w && l1.y * w + w == (l1.y + 1) * w) by (nonlinear_arith)
            requires
                l1.y + 1 <= l2.y && w >= 1,
        ;
    } else {
        assert((l2.y + 1) * w <= l1.y * w && l2.y * w + w == (l2.y + 1) * w) by (nonlinear_arith)
            requires
                l2.y + 1 <= l1.y && w >= 1,
        ;
    }
}

/// A row's flat span lies within the row: an index on the span of `l`
/// determines the row coordinates.
proof fn lemma_span_in_row(l: Scanline, w: int, x: int)
    requires
        line_ok(l, w, 0x10000),
        l.x1 <= x <= l.x2,
    ensures
        covers(l, w, l.y * w + x),
{
}

/// Sum of a per-pixel quantity over columns `x..=x2` of row `y`, the
/// canvas given as a raw pixel sequence of width `w`.
pub open spec fn pxsum_row_s(
    f: spec_fn(Color, Color) -> int,
    t: Image,
    cs: Seq<Color>,
    w: int,
    y: int,
    x: int,
    x2: int,
) -> int
    decreases x2 + 1 - x,
{
    if x > x2 {
        0
    } else {
        f(t.pix(x, y), cs[y * w + x]) + pxsum_row_s(f, t, cs, w, y, x + 1, x2)
    }
}

/// Sum of a per-pixel quantity over all rows `y..` of a raw canvas.
pub open spec fn pxsum_rows_s(
    f: spec_fn(Color, Color) -> int,
    t: Image,
    cs: Seq<Color>,
    w: int,
    h: int,
    y: int,
) -> int
    decreases h - y,
{
    if y < 0 || y >= h {
        0
    } else {
        pxsum_row_s(f, t, cs, w, y, 0, w - 1) + pxsum_rows_s(f, t, cs, w, h, y + 1)
    }
}

/// Sum of a per-pixel quantity over the spans of `lines[i..]` of a raw
/// canvas.
pub open spec fn pxsum_lines_s(
    f: spec_fn(Color, Color) -> int,
    t: Image,
    cs: Seq<Color>,
    w: int,
    lines: Seq<Scanline>,
    i: int,
) -> int
    decreases lines.len() - i,
{
    if i < 0 || i >= lines.len() {
        0
    } else {
        pxsum_row_s(f, t, cs, w, lines[i].y as int, lines[i].x1 as int, lines[i].x2 as int)
            + pxsum_lines_s(f, t, cs, w, lines, i + 1)
    }
}

/// The raw-canvas sums agree with the image sums.
proof fn lemma_row_s_bridge(
    f: spec_fn(Color, Color) -> int,
    t: Image,
    c: Image,
    y: int,
    x: int,
    x2: int,
)
    ensures
        pxsum_row_s(f, t, c.pixels@, c.w as int, y, x, x2) == pxsum_row(f, t, c, y, x, x2),
    decreases x2 + 1 - x,
{
    if x <= x2 {
        lemma_row_s_bridge(f, t, c, y, x + 1, x2);
    }
}

proof fn lemma_rows_s_bridge(f: spec_fn(Color, Color) -> int, t: Image, c: Image, y: int)
    requires
        c.w == t.w,
        c.h == t.h,
    ensures
        pxsum_rows_s(f, t, c.pixels@, c.w as int, c.h as int, y) == pxsum_rows_from(f, t, c, y),
    decreases c.h - y,
{
    if 0 <= y < c.h {
        lemma_row_s_bridge(f, t, c, y, 0, c.w - 1);
        lemma_rows_s_bridge(f, t, c, y + 1);
    }
}

proof fn lemma_lines_s_bridge(
    f: spec_fn(Color, Color) -> int,
    t: Image,
    c: Image,
    lines: Seq<Scanline>,
    i: int,
)
    ensures
        pxsum_lines_s(f, t, c.pixels@, c.w as int, lines, i) == pxsum_lines_from(
            f,
            t,
            c,
            lines,
            i,
        ),
    decreases lines.len() - i,
{
    if 0 <= i < lines.len() {
        lemma_row_s_bridge(f, t, c, lines[i].y as int, lines[i].x1 as int, lines[i].x2 as int);
        lemma_lines_s_bridge(f, t, c, lines, i + 1);
    }
}

/// Split a raw row sum at a column.
proof fn lemma_row_s_split(
    f: spec_fn(Color, Color) -> int,
    t: Image,
    cs: Seq<Color>,
    w: int,
    y: int,
    x1: int,
    xm: int,
    x2: int,
)
    requires
        x1 <= xm <= x2 + 1,
    ensures
        pxsum_row_s(f, t, cs, w, y, x1, x2) == pxsum_row_s(f, t, cs, w, y, x1, xm - 1)
            + pxsum_row_s(f, t, cs, w, y, xm, x2),
    decreases xm - x1,
{
    if x1 < xm {
        lemma_row_s_split(f, t, cs, w, y, x1 + 1, xm, x2);
    } else {
        assert(pxsum_row_s(f, t, cs, w, y, x1, x1 - 1) == 0);
    }
}

/// Raw canvases that agree on a row's columns give the same row sum.
proof fn lemma_row_s_congruence(
    f: spec_fn(Color, Color) -> int,
    t: Image,
    cs1: Seq<Color>,
    cs2: Seq<Color>,
    w: int,
    y: int,
    x1: int,
    x2: int,
)
    requires
        forall|x: int| x1 <= x <= x2 ==> #[trigger] cs1[y * w + x] == cs2[y * w + x],
    ensures
        pxsum_row_s(f, t, cs1, w, y, x1, x2) == pxsum_row_s(f, t, cs2, w, y, x1, x2),
    decreases x2 + 1 - x1,
{
    if x1 <= x2 {
        lemma_row_s_congruence(f, t, cs1, cs2, w, y, x1 + 1, x2);
    }
}

/// Drawing one scanline changes the full sum by exactly that row span's
/// change.
proof fn lemma_draw_one_line(
    f: spec_fn(Color, Color) -> int,
    t: Image,
    cs: Seq<Color>,
    w: int,
    h: int,
    l: Scanline,
    c: Color,
    y: int,
)
    requires
        1 <= w <= 0x10000,
        line_ok(l, w, h),
        h <= 0x10000,
        cs.len() == w * h,
        0 <= y,
    ensures
        pxsum_rows_s(f, t, crate::scanline::drawn_line(cs, w, l, c), w, h, y) - pxsum_rows_s(
            f,
            t,
            cs,
            w,
            h,
            y,
        ) == if y <= l.y {
            pxsum_row_s(
                f,
                t,
                crate::scanline::drawn_line(cs, w, l, c),
                w,
                l.y as int,
                l.x1 as int,
                l.x2 as int,
            ) - pxsum_row_s(f, t, cs, w, l.y as int, l.x1 as int, l.x2 as int)
        } else {
            0
        },
    decreases h - y,
{
    let bs = crate::scanline::drawn_line(cs, w, l, c);
    if y < h {
        lemma_draw_one_line(f, t, cs, w, h, l, c, y + 1);
        assert forall|x: int, yy: int|
            0 <= x < w && 0 <= yy < h && !(yy == l.y && l.x1 <= x <= l.x2) implies #[trigger] bs[
        yy * w + x] == cs[yy * w + x] by {
            lemma_flat_index_range(w, h, x, yy);
            if yy == l.y {
                assert(yy * w == l.y * w);
                assert(crate::scanline::flat_lo(l, w) == l.y * w + l.x1);
                assert(crate::scanline::flat_hi(l, w) == l.y * w + l.x2);
                assert(x < l.x1 || x > l.x2);
                assert(!(crate::scanline::flat_lo(l, w) <= yy * w + x <= crate::scanline::flat_hi(
                    l,
                    w,
                )));
            } else {
                let lp = Scanline { y: yy as u32, x1: x as u32, x2: x as u32 };
                assert(lp.y as int == yy && lp.x1 as int == x && lp.x2 as int == x);
                assert(line_ok(lp, w, 0x10000));
                assert(covers(lp, w, yy * w + x));
                lemma_row_sep(lp, l, w, yy * w + x);
            }
        }
        if y == l.y {
            lemma_row_s_split(f, t, cs, w, y, 0, l.x1 as int, w - 1);
            lemma_row_s_split(f, t, bs, w, y, 0, l.x1 as int, w - 1);
            lemma_row_s_split(f, t, cs, w, y, l.x1 as int, l.x2 + 1, w - 1);
            lemma_row_s_split(f, t, bs, w, y, l.x1 as int, l.x2 + 1, w - 1);
            lemma_row_s_congruence(f, t, cs, bs, w, y, 0, l.x1 - 1);
            lemma_row_s_congruence(f, t, cs, bs, w, y, l.x2 + 1, w - 1);
        } else {
            lemma_row_s_congruence(f, t, cs, bs, w, y, 0, w - 1);
        }
    }
}

/// A pixel of a bounded row has a flat index inside the canvas.
proof fn lemma_flat_index_range(w: int, h: int, x: int, y: int)
    requires
        1 <= w,
        0 <= x < w,
        0 <= y < h,
    ensures
        0 <= y * w + x < w * h,
{
    assert(0 <= y * w && (y + 1) * w <= h * w && y * w + w == (y + 1) * w && h * w == w * h)
        by (nonlinear_arith)
        requires
            0 <= y < h && 1 <= w,
    ;
}

/// On a span whose pixels were blended once, the squared difference of
/// the result equals the blended squared difference of the original.
proof fn lemma_row_s_blend(
    t: Image,
    cs: Seq<Color>,
    bs: Seq<Color>,
    c: Color,
    w: int,
    y: int,
    x1: int,
    x2: int,
)
    requires
        forall|x: int| x1 <= x <= x2 ==> #[trigger] bs[y * w + x] == compose_spec(cs[y * w + x], c),
    ensures
        pxsum_row_s(d2_fn(), t, bs, w, y, x1, x2) == pxsum_row_s(
            d2_blend_fn(c),
            t,
            cs,
            w,
            y,
            x1,
            x2,
        ),
    decreases x2 + 1 - x1,
{
    if x1 <= x2 {
        lemma_row_s_blend(t, cs, bs, c, w, y, x1 + 1, x2);
    }
}

/// Drawing the scanlines `lines[i..]`, whose rows are pairwise distinct,
/// changes the full squared-difference sum by exactly the blended
/// contribution of the covered pixels minus their old contribution.
proof fn lemma_commit_rec(
    t: Image,
    cs: Seq<Color>,
    w: int,
    h: int,
    lines: Seq<Scanline>,
    i: int,
    c: Color,
)
    requires
        1 <= w <= 0x10000,
        1 <= h <= 0x10000,
        cs.len() == w * h,
        0 <= i,
        forall|j: int| 0 <= j < lines.len() ==> line_ok(#[trigger] lines[j], w, h),
        rows_distinct(lines),
    ensures
        pxsum_rows_s(
            d2_fn(),
            t,
            crate::scanline::drawn_lines_from(cs, w, lines, i, c),
            w,
            h,
            0,
        ) == pxsum_rows_s(d2_fn(), t, cs, w, h, 0) + pxsum_lines_s(
            d2_blend_fn(c),
            t,
            cs,
            w,
            lines,
            i,
        ) - pxsum_lines_s(d2_fn(), t, cs, w, lines, i),
    decreases lines.len() - i,
{
    if i >= lines.len() {
    } else {
        let l = lines[i];
        let cs1 = crate::scanline::drawn_line(cs, w, l, c);
        assert(cs1.len() == cs.len());
        lemma_commit_rec(t, cs1, w, h, lines, i + 1, c);
        lemma_draw_one_line(d2_fn(), t, cs, w, h, l, c, 0);
        // the blended span of the one-line draw
        assert forall|x: int| l.x1 <= x <= l.x2 implies #[trigger] cs1[l.y * w + x]
            == compose_spec(cs[l.y * w + x], c) by {
            lemma_flat_index_range(w, h, x, l.y as int);
            lemma_span_in_row(l, w, x);
        }
        lemma_row_s_blend(t, cs, cs1, c, w, l.y as int, l.x1 as int, l.x2 as int);
        // later lines read the same pixels on cs1 as on cs
        lemma_lines_same_after_draw(t, cs, cs1, w, h, lines, i + 1, l, c);
    }
}

/// Later lines, on rows the drawn line did not touch, sum the same on
/// both canvases, under either per-pixel quantity.
proof fn lemma_lines_same_after_draw(
    t: Image,
    cs: Seq<Color>,
    cs1: Seq<Color>,
    w: int,
    h: int,
    lines: Seq<Scanline>,
    j: int,
    l: Scanline,
    c: Color,
)
    requires
        1 <= w <= 0x10000,
        1 <= h <= 0x10000,
        cs.len() == w * h,
        cs1 == crate::scanline::drawn_line(cs, w, l, c),
        line_ok(l, w, h),
        forall|k: int| 0 <= k < lines.len() ==> line_ok(#[trigger] lines[k], w, h),
        forall|k: int|
            j <= k < lines.len() ==> (#[trigger] lines[k]).y != l.y,
        0 <= j,
    ensures
        pxsum_lines_s(d2_fn(), t, cs1, w, lines, j) == pxsum_lines_s(d2_fn(), t, cs, w, lines, j),
        pxsum_lines_s(d2_blend_fn(c), t, cs1, w, lines, j) == pxsum_lines_s(
            d2_blend_fn(c),
            t,
            cs,
            w,
            lines,
            j,
        ),
    decreases lines.len() - j,
{
    if 0 <= j < lines.len() {
        let lj = lines[j];
        assert forall|x: int| lj.x1 <= x <= lj.x2 implies #[trigger] cs1[lj.y * w + x] == cs[
        lj.y * w + x] by {
            lemma_flat_index_range(w, h, x, lj.y as int);
            lemma_span_in_row(lj, w, x);
            lemma_row_sep(lj, l, w, lj.y * w + x);
        }
        lemma_row_s_congruence(d2_fn(), t, cs, cs1, w, lj.y as int, lj.x1 as int, lj.x2 as int);
        lemma_row_s_congruence(
            d2_blend_fn(c),
            t,
            cs,
            cs1,
            w,
            lj.y as int,
            lj.x1 as int,
            lj.x2 as int,
        );
        lemma_lines_same_after_draw(t, cs, cs1, w, h, lines, j + 1, l, c);
    }
}

/// Committing a candidate is consistent with its incremental score: when
/// no two scanlines share a row, the incremental distance computed from
/// the canvas before the draw equals the full distance after it.  (With
/// a repeated row the blend would apply twice and the equality can
/// fail; shapes built from one scanline per row satisfy the premise.)
pub proof fn lemma_commit_matches_full(
    t: Image,
    before: Image,
    after: Image,
    lines: Seq<Scanline>,
    color: Color,
)
    requires
        t.wf(),
        before.wf(),
        after.wf(),
        t.w == before.w == after.w,
        t.h == before.h == after.h,
        lines_ok(lines, t.w as int, t.h as int),
        rows_distinct(lines),
        after.pixels@ == crate::scanline::drawn_lines(
            before.pixels@,
            before.w as int,
            lines,
            color,
        ),
    ensures
        adjusted_score(
            sse_full(t, before),
            pxsum_lines_from(d2_blend_fn(color), t, before, lines, 0),
            pxsum_lines_from(d2_fn(), t, before, lines, 0),
        ) == sse_full(t, after),
{
    let w = t.w as int;
    let h = t.h as int;
    assert forall|j: int| 0 <= j < lines.len() implies line_ok(#[trigger] lines[j], w, h) by {
        assert(line_ok(lines[j], w, h));
    }
    assert(before.pixels@.len() == w * h) by (nonlinear_arith)
        requires
            before.pixels@.len() == before.w * before.h,
            w == before.w,
            h == before.h,
    ;
    lemma_commit_rec(t, before.pixels@, w, h, lines, 0, color);
    lemma_rows_s_bridge(d2_fn(), t, before, 0);
    lemma_rows_s_bridge(d2_fn(), t, after, 0);
    assert(pxsum_rows_s(
        d2_fn(),
        t,
        crate::scanline::drawn_lines_from(before.pixels@, w, lines, 0, color),
        w,
        h,
        0,
    ) == pxsum_rows_s(d2_fn(), t, after.pixels@, w, h, 0));
    lemma_lines_s_bridge(d2_fn(), t, before, lines, 0);
    lemma_lines_s_bridge(d2_blend_fn(color), t, before, lines, 0);
    lemma_sse_nonneg(t, after, 0);
    lemma_sse_nonneg(t, before, 0);
}

/// The distance to a uniform canvas is the summed squared per-channel
/// difference against that single color; the root-mean-square form
/// divides by the channel count and by 255 outside this sum.
pub open spec fn sse_vs_color(t: Image, c: Color) -> int {
    pxsum_rows_from(d2_vs_fn(c), t, t, 0)
}

/// The squared difference between a target pixel and a fixed color; the
/// canvas argument is ignored.
pub open spec fn d2_vs_fn(c: Color) -> spec_fn(Color, Color) -> int {
    |tp: Color, cp: Color| d2(tp, c)
}

/// The full distance between an image and a uniform canvas equals the
/// summed squared per-channel difference against the canvas color.
pub proof fn lemma_uniform_canvas_distance(t: Image, u: Image, c: Color)
    requires
        t.wf(),
        u.wf(),
        t.w == u.w,
        t.h == u.h,
        forall|x: int, y: int| 0 <= x < u.w && 0 <= y < u.h ==> #[trigger] u.pix(x, y) == c,
    ensures
        sse_full(t, u) == sse_vs_color(t, c),
{
    lemma_uniform_rows(t, u, c, 0);
}

proof fn lemma_uniform_rows(t: Image, u: Image, c: Color, y: int)
    requires
        t.w == u.w,
        t.h == u.h,
        forall|x: int, yy: int| 0 <= x < u.w && 0 <= yy < u.h ==> #[trigger] u.pix(x, yy) == c,
    ensures
        pxsum_rows_from(d2_fn(), t, u, y) == pxsum_rows_from(d2_vs_fn(c), t, t, y),
    decreases t.h - y,
{
    if 0 <= y < t.h {
        lemma_uniform_row(t, u, c, y, 0, t.w - 1);
        lemma_uniform_rows(t, u, c, y + 1);
    }
}

proof fn lemma_uniform_row(t: Image, u: Image, c: Color, y: int, x: int, x2: int)
    requires
        t.w == u.w,
        t.h == u.h,
        forall|xx: int, yy: int| 0 <= xx < u.w && 0 <= yy < u.h ==> #[trigger] u.pix(xx, yy)
            == c,
        0 <= y < t.h,
        0 <= x,
        x2 < t.w,
    ensures
        pxsum_row(d2_fn(), t, u, y, x, x2) == pxsum_row(d2_vs_fn(c), t, t, y, x, x2),
    decreases x2 + 1 - x,
{
    if x <= x2 {
        assert(u.pix(x, y) == c);
        lemma_uniform_row(t, u, c, y, x + 1, x2);
    }
}

/// A full squared-difference sum always fits under the score cap.
pub proof fn lemma_sse_bounded(t: Image, c: Image)
    requires
        t.wf(),
    ensures
        0 <= sse_full(t, c) <= MAX_SCORE,
{
    lemma_sse_rows_bounded(t, c, 0);
    assert(0x40000 * ((t.h as int) * (t.w as int)) <= MAX_SCORE) by (nonlinear_arith)
        requires
            0 <= t.h <= MAX_DIM && 0 <= t.w <= MAX_DIM,
    ;
}

proof fn lemma_sse_rows_bounded(t: Image, c: Image, y: int)
    requires
        t.w >= 1,
    ensures
        0 <= pxsum_rows_from(d2_fn(), t, c, y) <= 0x40000 * ((if y < 0 {
            t.h as int
        } else if y > t.h {
            0int
        } else {
            t.h - y
        }) * t.w as int),
    decreases t.h - y,
{
    assert forall|a: Color, b: Color| 0 <= #[trigger] d2_fn()(a, b) <= 0x40000 by {
        lemma_d2_bounds(a, b);
    }
    if y < 0 {
        lemma_sse_rows_bounded(t, c, 0);
    } else if 0 <= y < t.h {
        lemma_pxsum_row_bounds(d2_fn(), t, c, y, 0, t.w - 1);
        lemma_sse_rows_bounded(t, c, y + 1);
        assert(0x40000 * ((t.h - y) * t.w as int) == 0x40000 * t.w + 0x40000 * ((t.h - y - 1)
            * t.w as int)) by (nonlinear_arith);
    } else {
        assert(0x40000 * (0 * t.w as int) == 0) by (nonlinear_arith);
    }
}

/// A squared-difference sum is never negative.
proof fn lemma_sse_nonneg(t: Image, c: Image, y: int)
    ensures
        pxsum_rows_from(d2_fn(), t, c, y) >= 0,
    decreases t.h - y,
{
    if 0 <= y < t.h {
        assert forall|a: Color, b: Color| 0 <= #[trigger] d2_fn()(a, b) <= 0x40000 by {
            lemma_d2_bounds(a, b);
        }
        lemma_pxsum_row_bounds(d2_fn(), t, c, y, 0, t.w - 1);
        lemma_sse_nonneg(t, c, y + 1);
    }
}

} // verus!