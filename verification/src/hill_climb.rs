use vstd::prelude::*;

use crate::algo::{
    adjusted_score, compute_color, compute_color_spec, d2_blend_fn, d2_fn,
    diff_partial_with_color, pxsum_lines_from, sse_full, MAX_SCORE,
};
use crate::image::Image;
use crate::clamp_i32;
use crate::model::{PurrContext, PurrState};
use crate::raster::isqrt_u128;
use crate::rng::rng_range_i32;
use crate::shape::{PurrShape, Shape};
use crate::MAX_DIM;

verus! {

/// Whether a move from score `old` to score `new` counts as an
/// improvement, with `k = 4 * w * h` the number of summed channels.  The
/// root-mean-square score of a squared-difference sum `s` is
/// `sqrt(s / k) / 255`; an improvement must lower it by more than 1e-6.
/// Clearing the roots from `sqrt(old) - sqrt(new) > 1e-6 * 255 * sqrt(k)`
/// gives, exactly, the two integer conditions below with
/// `a = (old - new) * 10^12 - 65025 * k`.
pub open spec fn improves_raw(old: int, new: int, k: int) -> bool {
    let a = (old - new) * 1000000000000 - 65025 * k;
    a > 0 && a * a > 260100 * k * (1000000000000 * new)
}

/// The improvement test, extended to the `u64::MAX` sentinel that marks
/// an unscored state.
pub open spec fn improves(old: int, new: int, k: int) -> bool {
    if new > MAX_SCORE {
        false
    } else if old > MAX_SCORE {
        true
    } else {
        improves_raw(old, new, k)
    }
}

/// An improvement strictly lowers the score.
pub proof fn lemma_improves_decreases(old: int, new: int, k: int)
    requires
        improves(old, new, k),
        old <= MAX_SCORE,
        k >= 0,
    ensures
        new < old,
{
    assert(65025 * k >= 0) by (nonlinear_arith)
        requires
            k >= 0,
    ;
    assert((old - new) * 1000000000000 > 0 ==> old - new > 0) by (nonlinear_arith);
}

/// Decide whether the score dropped by more than the tie-break margin.
pub fn score_improves(old: u64, new: u64, k: u64) -> (r: bool)
    requires
        k <= 0x4000000,
        k >= 1,
    ensures
        r == improves(old as int, new as int, k as int),
{
    if new > MAX_SCORE {
        return false;
    }
    if old > MAX_SCORE {
        return true;
    }
    let a: i128 = (old as i128 - new as i128) * 1000000000000 - 65025 * (k as i128);
    proof {
        assert((old as int - new as int) * 1000000000000 <= 0x400_0000_0000 * 1000000000000
            && (old as int - new as int) * 1000000000000 >= -0x400_0000_0000 * 1000000000000)
            by (nonlinear_arith)
            requires
                -0x400_0000_0000 <= old as int - new as int <= 0x400_0000_0000,
        ;
    }
    if a <= 0 {
        proof {
            assert(!improves_raw(old as int, new as int, k as int));
        }
        return false;
    }
    proof {
        assert(0 <= 260100 * (k as int) < 0x1000_0000_0000) by (nonlinear_arith)
            requires
                1 <= k <= 0x4000000,
        ;
        assert(0 <= 1000000000000 * (new as int) < 0x4_0000_0000_0000_0000_0000)
            by (nonlinear_arith)
            requires
                0 <= new <= 0x400_0000_0000,
        ;
        assert(0 <= 260100 * (k as int) * (1000000000000 * (new as int))
            < 0x4000_0000_0000_0000_0000_0000_0000_0000) by (nonlinear_arith)
            requires
                0 <= 260100 * (k as int) < 0x1000_0000_0000,
                0 <= 1000000000000 * (new as int) < 0x4_0000_0000_0000_0000_0000,
        ;
    }
    let rhs: u128 = 260100 * (k as u128) * (1000000000000 * (new as u128));
    let root: u128 = isqrt_u128(rhs);
    let rr: i128 = root as i128;
    proof {
        if a > rr {
            assert((a as int) * (a as int) >= (root as int + 1) * (root as int + 1))
                by (nonlinear_arith)
                requires
                    a as int >= root as int + 1,
                    root >= 0,
            ;
        } else {
            assert((a as int) * (a as int) <= (root as int) * (root as int))
                by (nonlinear_arith)
                requires
                    0 < a as int <= root as int,
            ;
        }
    }
    a > rr
}

/// A score capped at the largest committable squared-difference sum.
pub open spec fn cap_score(v: int) -> u64 {
    if v > MAX_SCORE {
        MAX_SCORE as u64
    } else {
        v as u64
    }
}

/// The state is a genuinely scored candidate for this target and canvas:
/// its shape covers something, its color is the optimal color of its own
/// scanlines at alpha `a`, and its score is the capped incremental
/// distance of blending that color over them, from baseline `base`.
pub open spec fn scored_with<T: PurrShape>(
    t: Image,
    canvas: Image,
    w: u32,
    h: u32,
    base: u64,
    s: PurrState<T>,
    a: u8,
) -> bool {
    let lines = s.shape.rasterize_spec(w, h);
    &&& lines.len() > 0
    &&& s.color == compute_color_spec(t, canvas, lines, a)
    &&& s.score == cap_score(
        adjusted_score(
            base as int,
            pxsum_lines_from(d2_blend_fn(s.color), t, canvas, lines, 0),
            pxsum_lines_from(d2_fn(), t, canvas, lines, 0),
        ),
    )
}

/// The alpha the local search scores with: the configured bias shifted by
/// a jitter of at most ten, clamped into the valid byte range.
pub open spec fn jittered_alpha(bias: u8, a: u8) -> bool {
    exists|j: int| -10 <= j <= 10 && a as int == #[trigger] crate::clamp_spec(bias + j, 1, 255)
}

/// The state is scored at some jittered alpha.
pub open spec fn scored_jittered<T: PurrShape>(
    t: Image,
    canvas: Image,
    w: u32,
    h: u32,
    base: u64,
    s: PurrState<T>,
    bias: u8,
) -> bool {
    exists|a: u8| #[trigger] jittered_alpha(bias, a) && scored_with(t, canvas, w, h, base, s, a)
}

/// The configured bias itself is a jittered alpha.
pub proof fn lemma_bias_is_jittered(bias: u8)
    requires
        bias >= 1,
    ensures
        jittered_alpha(bias, bias),
{
    assert(bias as int == crate::clamp_spec(bias + 0, 1, 255));
}

/// Committing a scored candidate keeps the score's meaning: when the
/// baseline was the true full distance and the candidate's scanlines
/// have pairwise-distinct rows, the committed score equals the full
/// distance of the canvas after the draw, exactly.  (The commit writes
/// the canvas as `drawn_lines` of the candidate's own scanlines, which
/// is what this lemma's last premise states.)
pub proof fn lemma_commit_keeps_score_exact<T: PurrShape>(
    t: Image,
    before: Image,
    after: Image,
    s: PurrState<T>,
    a: u8,
)
    requires
        t.wf(),
        before.wf(),
        after.wf(),
        t.w == before.w == after.w,
        t.h == before.h == after.h,
        scored_with(t, before, t.w, t.h, before_score(t, before), s, a),
        crate::scanline::lines_ok(s.shape.rasterize_spec(t.w, t.h), t.w as int, t.h as int),
        crate::algo::rows_distinct(s.shape.rasterize_spec(t.w, t.h)),
        after.pixels@ == crate::scanline::drawn_lines(
            before.pixels@,
            before.w as int,
            s.shape.rasterize_spec(t.w, t.h),
            s.color,
        ),
    ensures
        s.score == sse_full(t, after),
{
    crate::algo::lemma_sse_bounded(t, before);
    crate::algo::lemma_commit_matches_full(
        t,
        before,
        after,
        s.shape.rasterize_spec(t.w, t.h),
        s.color,
    );
    crate::algo::lemma_sse_bounded(t, after);
}

/// The baseline a candidate was scored against, as an unsigned value.
pub open spec fn before_score(t: Image, before: Image) -> u64 {
    sse_full(t, before) as u64
}

/// Score a fresh random shape: rasterize it, pick the best-matching color
/// at the context's alpha bias, and compute the incremental distance.  A
/// shape that covers nothing yields the unscored placeholder.
pub fn random_step<T: PurrShape>(ctx: &mut PurrContext) -> (r: PurrState<T>)
    requires
        old(ctx).wf(),
        1 <= old(ctx).w <= MAX_DIM,
        1 <= old(ctx).h <= MAX_DIM,
    ensures
        final(ctx).wf(),
        old(ctx).same_target(*final(ctx)),
        final(ctx).current_img == old(ctx).current_img,
        final(ctx).score == old(ctx).score,
        r.shape.bounds(final(ctx).w, final(ctx).h),
        r.score == u64::MAX || r.score <= MAX_SCORE,
        r.score == u64::MAX || scored_with(
            old(ctx).origin_img,
            old(ctx).current_img,
            old(ctx).w,
            old(ctx).h,
            old(ctx).score,
            r,
            old(ctx).alpha,
        ),
{
    let w = ctx.w;
    let h = ctx.h;
    let t = T::random(w, h, &mut ctx.rng);
    let lines = t.rasterize(w, h);
    if lines.len() == 0 {
        let s: PurrState<T> = PurrState::new(u64::MAX);
        return PurrState { shape: t, color: s.color, score: u64::MAX };
    }
    let color = compute_color(&ctx.origin_img, &ctx.current_img, &lines, ctx.alpha);
    let score = diff_partial_with_color(&ctx.origin_img, &ctx.current_img, &lines, ctx.score, color);
    let capped = if score > MAX_SCORE {
        MAX_SCORE
    } else {
        score
    };
    PurrState { shape: t, score: capped, color }
}

/// The best of `n` random shapes, by the tie-break improvement test.
pub fn best_random_step<T: PurrShape>(ctx: &mut PurrContext, n: u32) -> (r: PurrState<T>)
    requires
        old(ctx).wf(),
        1 <= old(ctx).w <= MAX_DIM,
        1 <= old(ctx).h <= MAX_DIM,
    ensures
        final(ctx).wf(),
        old(ctx).same_target(*final(ctx)),
        final(ctx).current_img == old(ctx).current_img,
        final(ctx).score == old(ctx).score,
        r.shape.bounds(final(ctx).w, final(ctx).h),
        r.score == u64::MAX || r.score <= MAX_SCORE,
        r.score == u64::MAX || scored_with(
            old(ctx).origin_img,
            old(ctx).current_img,
            old(ctx).w,
            old(ctx).h,
            old(ctx).score,
            r,
            old(ctx).alpha,
        ),
{
    let mut best_state: PurrState<T> = PurrState::new(u64::MAX);
    let mut i: u32 = 0;
    while i < n
        invariant
            ctx.wf(),
            old(ctx).same_target(*ctx),
            ctx.current_img == old(ctx).current_img,
            ctx.score == old(ctx).score,
            1 <= ctx.w <= MAX_DIM,
            1 <= ctx.h <= MAX_DIM,
            best_state.shape.bounds(ctx.w, ctx.h),
            best_state.score == u64::MAX || best_state.score <= MAX_SCORE,
            best_state.score == u64::MAX || scored_with(
                old(ctx).origin_img,
                old(ctx).current_img,
                old(ctx).w,
                old(ctx).h,
                old(ctx).score,
                best_state,
                old(ctx).alpha,
            ),
        decreases n - i,
    {
        let state = random_step(ctx);
        if state.score < best_state.score {
            best_state = state;
        }
        i += 1;
    }
    best_state
}

/// Bounded-age local search from `state`: repeatedly mutate the shape,
/// score the mutation with a jittered alpha, adopt it when it improves by
/// more than the tie-break margin, and stop after `age` consecutive
/// failures.  The result never scores worse than the starting state.
pub fn hill_climb<T: PurrShape>(ctx: &mut PurrContext, state: PurrState<T>, age: u32) -> (r:
    PurrState<T>)
    requires
        old(ctx).wf(),
        1 <= old(ctx).w <= MAX_DIM,
        1 <= old(ctx).h <= MAX_DIM,
        state.shape.bounds(old(ctx).w, old(ctx).h),
        state.score == u64::MAX || state.score <= MAX_SCORE,
    ensures
        final(ctx).wf(),
        old(ctx).same_target(*final(ctx)),
        final(ctx).current_img == old(ctx).current_img,
        final(ctx).score == old(ctx).score,
        r.shape.bounds(final(ctx).w, final(ctx).h),
        r.score <= state.score,
        r == state || scored_jittered(
            old(ctx).origin_img,
            old(ctx).current_img,
            old(ctx).w,
            old(ctx).h,
            old(ctx).score,
            r,
            old(ctx).alpha,
        ),
{
    let w = ctx.w;
    let h = ctx.h;
    proof {
        assert(1 <= 4 * (w as int) * (h as int) <= 0x4000000) by (nonlinear_arith)
            requires
                1 <= w <= MAX_DIM && 1 <= h <= MAX_DIM,
        ;
    }
    let kex: u64 = 4 * (w as u64) * (h as u64);
    let mut cur_state = state;
    let mut best_state = state;
    let mut i: u64 = 0;
    let mut fuel: u64 = 0x100000;
    while i <= age as u64 && fuel > 0
        invariant
            ctx.wf(),
            old(ctx).same_target(*ctx),
            ctx.current_img == old(ctx).current_img,
            ctx.score == old(ctx).score,
            w == ctx.w,
            h == ctx.h,
            1 <= w <= MAX_DIM,
            1 <= h <= MAX_DIM,
            kex == 4 * (w as int) * (h as int),
            1 <= kex <= 0x4000000,
            i <= age as u64 + 1,
            cur_state.shape.bounds(w, h),
            best_state.shape.bounds(w, h),
            best_state.score <= state.score,
            best_state.score == u64::MAX || best_state.score <= MAX_SCORE,
            cur_state.score == u64::MAX || cur_state.score <= MAX_SCORE,
            best_state == state || scored_jittered(
                old(ctx).origin_img,
                old(ctx).current_img,
                old(ctx).w,
                old(ctx).h,
                old(ctx).score,
                best_state,
                old(ctx).alpha,
            ),
        decreases fuel,
    {
        fuel -= 1;
        cur_state.shape.mutate(w, h, &mut ctx.rng);
        let lines = cur_state.shape.rasterize(w, h);
        let jitter = rng_range_i32(&mut ctx.rng, -10, 11);
        let alpha = clamp_i32(jitter + ctx.alpha as i32, 1, 255);
        if lines.len() == 0 {
            cur_state = best_state;
            continue;
        }
        let color = compute_color(&ctx.origin_img, &ctx.current_img, &lines, alpha as u8);
        let score = diff_partial_with_color(
            &ctx.origin_img,
            &ctx.current_img,
            &lines,
            ctx.score,
            color,
        );
        cur_state.color = color;
        cur_state.score = if score > MAX_SCORE {
            MAX_SCORE
        } else {
            score
        };
        if score_improves(best_state.score, cur_state.score, kex) {
            proof {
                if best_state.score <= MAX_SCORE {
                    lemma_improves_decreases(
                        best_state.score as int,
                        cur_state.score as int,
                        kex as int,
                    );
                }
                assert(jittered_alpha(ctx.alpha, alpha as u8)) by {
                    assert(alpha as int == crate::clamp_spec(ctx.alpha + jitter, 1, 255));
                }
                assert(scored_jittered(
                    old(ctx).origin_img,
                    old(ctx).current_img,
                    old(ctx).w,
                    old(ctx).h,
                    old(ctx).score,
                    cur_state,
                    old(ctx).alpha,
                ));
            }
            best_state = cur_state;
            i = 0;
        } else {
            cur_state = best_state;
            i += 1;
        }
    }
    best_state
}

/// One full step: `m` restarts of random search followed by bounded-age
/// local search, keeping the single best state found.  The result never
/// scores worse than the context's current score: when nothing improves
/// on it by more than the tie-break margin, a blank state at the current
/// score comes back.
pub fn best_hill_climb<T: PurrShape>(ctx: &mut PurrContext, n: u32, m: u32, age: u32) -> (r:
    PurrState<T>)
    requires
        old(ctx).wf(),
        1 <= old(ctx).w <= MAX_DIM,
        1 <= old(ctx).h <= MAX_DIM,
    ensures
        final(ctx).wf(),
        old(ctx).same_target(*final(ctx)),
        final(ctx).current_img == old(ctx).current_img,
        final(ctx).score == old(ctx).score,
        r.shape.bounds(final(ctx).w, final(ctx).h),
        r.score <= old(ctx).score,
        r.score == old(ctx).score || scored_jittered(
            old(ctx).origin_img,
            old(ctx).current_img,
            old(ctx).w,
            old(ctx).h,
            old(ctx).score,
            r,
            old(ctx).alpha,
        ),
{
    let w = ctx.w;
    let h = ctx.h;
    proof {
        assert(1 <= 4 * (w as int) * (h as int) <= 0x4000000) by (nonlinear_arith)
            requires
                1 <= w <= MAX_DIM && 1 <= h <= MAX_DIM,
        ;
    }
    let kex: u64 = 4 * (w as u64) * (h as u64);
    let mut best_state: PurrState<T> = PurrState::new(ctx.score);
    let mut i: u32 = 0;
    while i < m
        invariant
            ctx.wf(),
            old(ctx).same_target(*ctx),
            ctx.current_img == old(ctx).current_img,
            ctx.score == old(ctx).score,
            w == ctx.w,
            h == ctx.h,
            1 <= w <= MAX_DIM,
            1 <= h <= MAX_DIM,
            kex == 4 * (w as int) * (h as int),
            1 <= kex <= 0x4000000,
            best_state.shape.bounds(w, h),
            best_state.score <= ctx.score,
            best_state.score == old(ctx).score || scored_jittered(
                old(ctx).origin_img,
                old(ctx).current_img,
                old(ctx).w,
                old(ctx).h,
                old(ctx).score,
                best_state,
                old(ctx).alpha,
            ),
        decreases m - i,
    {
        let best_rand_state = best_random_step(ctx, n);
        let climb_state = hill_climb(ctx, best_rand_state, age);
        if score_improves(best_state.score, climb_state.score, kex) {
            proof {
                lemma_improves_decreases(
                    best_state.score as int,
                    climb_state.score as int,
                    kex as int,
                );
                if climb_state == best_rand_state {
                    lemma_bias_is_jittered(ctx.alpha);
                    assert(scored_jittered(
                        old(ctx).origin_img,
                        old(ctx).current_img,
                        old(ctx).w,
                        old(ctx).h,
                        old(ctx).score,
                        climb_state,
                        old(ctx).alpha,
                    ));
                }
            }
            best_state = climb_state;
        }
        i += 1;
    }
    best_state
}

} // verus!
