use purrmitive::color::Color;
use purrmitive::hill_climb::{best_hill_climb, best_random_step, hill_climb, score_improves};
use purrmitive::image::Image;
use purrmitive::model::PurrContext;
use purrmitive::raster::isqrt_u128;
use purrmitive::triangle::Triangle;

fn red() -> Color {
    Color { r: 255, g: 0, b: 0, a: 255 }
}

#[test]
fn isqrt_exact_values() {
    assert_eq!(isqrt_u128(0), 0);
    assert_eq!(isqrt_u128(1), 1);
    assert_eq!(isqrt_u128(15), 3);
    assert_eq!(isqrt_u128(16), 4);
    assert_eq!(isqrt_u128(1_000_000_000_000), 1_000_000);
    assert_eq!(isqrt_u128(999_999_999_999), 999_999);
}

#[test]
fn improvement_threshold() {
    // an unscored sentinel always loses to a real score
    assert!(score_improves(u64::MAX, 5, 16));
    assert!(!score_improves(5, u64::MAX, 16));
    // no change is no improvement
    assert!(!score_improves(5, 5, 16));
    // on a 2x2 canvas, dropping from distance 0.5 to 0 clears the margin
    assert!(score_improves(4 * 255 * 255, 0, 16));
    // a one-unit drop of the squared sum is far below one millionth
    assert!(!score_improves(4 * 255 * 255, 4 * 255 * 255 - 1, 16));
}

// On a target the canvas already matches, a search step cannot improve:
// the returned state keeps the baseline score.
#[test]
fn hill_climb_on_perfect_canvas() {
    let target = Image::uniform(64, 64, red());
    let mut ctx = PurrContext::new(target, 128, Some(red()), 9);
    assert_eq!(ctx.score, 0);
    let state = best_hill_climb::<Triangle>(&mut ctx, 10, 2, 5);
    assert_eq!(state.score, 0);
}

// On a mismatched canvas the search finds an improving primitive.
#[test]
fn hill_climb_improves_plain_target() {
    let target = Image::uniform(24, 24, red());
    let mut ctx = PurrContext::new(target, 200, Some(Color { r: 0, g: 0, b: 0, a: 255 }), 3);
    let before = ctx.score;
    assert!(before > 0);
    let state = best_hill_climb::<Triangle>(&mut ctx, 30, 3, 10);
    assert!(state.score < before);
}

// The local search never returns something worse than its input.
#[test]
fn local_search_never_worsens() {
    let target = Image::uniform(16, 16, Color { r: 9, g: 200, b: 77, a: 255 });
    let mut ctx = PurrContext::new(target, 128, None, 5);
    let start = best_random_step::<Triangle>(&mut ctx, 5);
    let refined = hill_climb(&mut ctx, start, 8);
    assert!(refined.score <= start.score);
}

// Identically seeded contexts drive the search to identical candidates.
#[test]
fn seeded_contexts_are_deterministic() {
    let target = Image::uniform(16, 16, Color { r: 10, g: 60, b: 220, a: 255 });
    let ctx = PurrContext::new(target, 128, None, 1);
    let mut a = ctx.duplicate(77);
    let mut b = ctx.duplicate(77);
    let sa = best_hill_climb::<Triangle>(&mut a, 10, 2, 5);
    let sb = best_hill_climb::<Triangle>(&mut b, 10, 2, 5);
    assert_eq!(sa.score, sb.score);
    assert_eq!(sa.color, sb.color);
}
