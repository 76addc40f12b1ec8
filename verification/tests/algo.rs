use purrmitive::algo::{compute_color, diff_full, diff_partial, diff_partial_with_color};
use purrmitive::color::{alpha_compose, Color};
use purrmitive::image::{average_color, Image};
use purrmitive::scanline::{draw_lines, Scanline};

fn red() -> Color {
    Color { r: 255, g: 0, b: 0, a: 255 }
}

fn black() -> Color {
    Color { r: 0, g: 0, b: 0, a: 255 }
}

fn full_rows(width: u32, height: u32) -> Vec<Scanline> {
    let mut lines = Vec::new();
    for y in 0..height {
        lines.push(Scanline { y, x1: 0, x2: width - 1 });
    }
    lines
}

#[test]
fn test_compute_color() {
    let width = 100;
    let height = 100;
    let img = Image::uniform(width, height, red());
    let current_img = Image::uniform(width, height, black());
    let lines = full_rows(width, height);
    let c = compute_color(&img, &current_img, &lines, 255);
    assert_eq!(c, red());
}

#[test]
fn test_diff_partial() {
    let width = 100;
    let height = 100;
    let img = Image::uniform(width, height, red());
    let before_img = Image::uniform(width, height, black());
    let lines = full_rows(width, height);
    let score = diff_partial(&img, &before_img, &before_img, &lines, 0);
    assert_eq!(score, 0);
}

#[test]
fn test_diff_full() {
    let width = 100;
    let height = 100;
    let img = Image::uniform(width, height, red());
    let current_img = Image::uniform(width, height, black());
    let score1 = diff_full(&img, &current_img);
    let score2 = diff_full(&img, &img);
    assert_eq!(score1 > 0, true);
    assert_eq!(score2, 0);
}

// A 2x2 uniform red target against a black canvas: every pixel differs by
// 255 in one channel, so the squared sum is 4 * 255^2 and the
// root-mean-square distance is exactly one half.
#[test]
fn full_distance_analytic_value() {
    let img = Image::uniform(2, 2, red());
    let canvas = Image::uniform(2, 2, black());
    let sse = diff_full(&img, &canvas);
    assert_eq!(sse, 4 * 255 * 255);
    let rms = (sse as f64 / (4.0 * 2.0 * 2.0)).sqrt() / 255.0;
    assert!((rms - 0.5).abs() < 1e-9);
}

// A single opaque pixel: the optimal color is the target itself.
#[test]
fn optimal_color_single_pixel_opaque() {
    let target = Image::uniform(1, 1, Color { r: 100, g: 150, b: 200, a: 255 });
    let canvas = Image::uniform(1, 1, black());
    let lines = vec![Scanline { y: 0, x1: 0, x2: 0 }];
    let c = compute_color(&target, &canvas, &lines, 255);
    assert_eq!(c, Color { r: 100, g: 150, b: 200, a: 255 });
}

// The closed form at a translucent alpha: the factor is
// 257 * 255 / 128 = 511, so channel r gives (100 * 511) >> 8 = 199.
#[test]
fn optimal_color_formula_alpha_128() {
    let target = Image::uniform(1, 1, Color { r: 100, g: 0, b: 0, a: 255 });
    let canvas = Image::uniform(1, 1, black());
    let lines = vec![Scanline { y: 0, x1: 0, x2: 0 }];
    let c = compute_color(&target, &canvas, &lines, 128);
    assert_eq!(c, Color { r: 199, g: 0, b: 0, a: 128 });
}

#[test]
fn average_color_exact() {
    let mut img = Image::uniform(2, 1, black());
    img.set_pixel(0, 0, Color { r: 10, g: 20, b: 30, a: 255 });
    img.set_pixel(1, 0, Color { r: 30, g: 21, b: 31, a: 255 });
    let avg = average_color(&img);
    assert_eq!(avg, Color { r: 20, g: 20, b: 30, a: 255 });
}

// Committing is consistent with the incremental estimate: the adjusted
// score equals a full recomputation after the draw.
#[test]
fn incremental_matches_full_recompute() {
    let mut target = Image::uniform(3, 3, red());
    target.set_pixel(1, 1, Color { r: 10, g: 200, b: 60, a: 255 });
    let canvas = Image::uniform(3, 3, Color { r: 40, g: 40, b: 40, a: 255 });
    let before = diff_full(&target, &canvas);
    let lines = vec![
        Scanline { y: 1, x1: 0, x2: 2 },
        Scanline { y: 2, x1: 1, x2: 2 },
    ];
    let color = Color { r: 90, g: 12, b: 250, a: 130 };
    let estimate = diff_partial_with_color(&target, &canvas, &lines, before, color);
    let mut drawn = canvas;
    draw_lines(&mut drawn, &lines, &color);
    let full = diff_full(&target, &drawn);
    assert_eq!(estimate, full);
}

#[test]
fn alpha_compose_full_and_zero() {
    let bg = Color { r: 10, g: 20, b: 30, a: 255 };
    let fg = Color { r: 200, g: 100, b: 50, a: 255 };
    assert_eq!(alpha_compose(&bg, &fg), Color { r: 200, g: 100, b: 50, a: 255 });
    let clear = Color { r: 200, g: 100, b: 50, a: 0 };
    assert_eq!(alpha_compose(&bg, &clear), Color { r: 10, g: 20, b: 30, a: 255 });
}
