use purrmitive::circle::Circle;
use purrmitive::color::Color;
use purrmitive::image::Image;
use purrmitive::combo::Combo;
use purrmitive::ellipse::{Ellipse, RotatedEllipse};
use purrmitive::point::Point;
use purrmitive::polygon::Polygon;
use purrmitive::quadratic::Quadratic;
use purrmitive::rectangle::{Rectangle, RotatedRectangle};
use purrmitive::shape::Shape;
use purrmitive::triangle::Triangle;
use rand::SeedableRng;

fn rng(seed: u64) -> rand::rngs::SmallRng {
    rand::rngs::SmallRng::seed_from_u64(seed)
}

fn check_lines_in_bounds(lines: &Vec<purrmitive::scanline::Scanline>, w: u32, h: u32) {
    for l in lines {
        assert!(l.x1 <= l.x2);
        assert!(l.x2 < w);
        assert!(l.y < h);
    }
}

// A degenerate triangle with three equal vertices is invalid; random
// initialization retries until a valid triangle emerges.
#[test]
fn degenerate_triangle_invalid() {
    let t = Triangle {
        a: Point { x: 10, y: 10 },
        b: Point { x: 10, y: 10 },
        c: Point { x: 10, y: 10 },
    };
    assert!(!t.valid());
    let mut r = rng(7);
    let fresh = Triangle::random(64, 64, &mut r);
    assert!(fresh.valid());
}

#[test]
fn triangle_angle_bound() {
    // a needle of 5 degrees is rejected, a right isoceles corner accepted
    let flat = Triangle {
        a: Point { x: 0, y: 0 },
        b: Point { x: 100, y: 0 },
        c: Point { x: 100, y: 4 },
    };
    assert!(!flat.valid());
    let wide = Triangle {
        a: Point { x: 0, y: 0 },
        b: Point { x: 0, y: 40 },
        c: Point { x: 40, y: 0 },
    };
    assert!(wide.valid());
}

// After any mutation every family still satisfies its validity predicate.
#[test]
fn mutation_keeps_validity() {
    let mut r = rng(11);
    for seed in 0..16u64 {
        let mut rr = rng(seed);
        let mut t = Triangle::random(64, 48, &mut rr);
        t.mutate(64, 48, &mut r);
        assert!(t.valid());

        let mut q = Quadratic::random(64, 48, &mut rr);
        q.mutate(64, 48, &mut r);
        assert!(q.valid());

        let mut e = Ellipse::random(64, 48, &mut rr);
        e.mutate(64, 48, &mut r);
        assert!(e.rx >= 1 && e.ry >= 1);

        let mut c = Circle::random(64, 48, &mut rr);
        c.mutate(64, 48, &mut r);
        assert!(c.0.rx >= 1 && c.0.rx == c.0.ry);

        let mut rect = Rectangle::random(64, 48, &mut rr);
        rect.mutate(64, 48, &mut r);
        assert!(rect.x >= 1 && rect.y >= 1);

        let mut rrect = RotatedRectangle::random(64, 48, &mut rr);
        rrect.mutate(64, 48, &mut r);
        assert!(rrect.rect.x >= 1 && rrect.rect.y >= 1 && rrect.degree < 360);

        let mut re = RotatedEllipse::random(64, 48, &mut rr);
        re.mutate(64, 48, &mut r);
        assert!(re.ellipse.rx >= 1 && re.ellipse.ry >= 1 && re.degree < 360);

        let mut p = Polygon::random(64, 48, &mut rr);
        p.mutate(64, 48, &mut r);
        assert!(p.check_valid());
    }
}

// Every family rasterizes to scanlines inside the canvas.
#[test]
fn rasterization_stays_inside_canvas() {
    for seed in 0..12u64 {
        let mut r = rng(seed);
        let w = 48;
        let h = 32;
        check_lines_in_bounds(&Triangle::random(w, h, &mut r).rasterize(w, h), w, h);
        check_lines_in_bounds(&Rectangle::random(w, h, &mut r).rasterize(w, h), w, h);
        check_lines_in_bounds(&RotatedRectangle::random(w, h, &mut r).rasterize(w, h), w, h);
        check_lines_in_bounds(&Ellipse::random(w, h, &mut r).rasterize(w, h), w, h);
        check_lines_in_bounds(&Circle::random(w, h, &mut r).rasterize(w, h), w, h);
        check_lines_in_bounds(&RotatedEllipse::random(w, h, &mut r).rasterize(w, h), w, h);
        check_lines_in_bounds(&Quadratic::random(w, h, &mut r).rasterize(w, h), w, h);
        check_lines_in_bounds(&Polygon::random(w, h, &mut r).rasterize(w, h), w, h);
        check_lines_in_bounds(&Combo::random(w, h, &mut r).rasterize(w, h), w, h);
    }
}

// A rectangle covering known cells rasterizes to the expected rows.
#[test]
fn rectangle_rasterizes_expected_rows() {
    let rect = Rectangle { p: Point { x: 1, y: 1 }, x: 3, y: 2 };
    let lines = rect.rasterize(8, 8);
    assert!(!lines.is_empty());
    for l in &lines {
        assert!(l.y >= 1 && l.y <= 3);
        assert!(l.x1 >= 1 && l.x2 <= 4);
    }
}

// Random initialization places shapes inside the canvas margins.
#[test]
fn random_shapes_within_margins() {
    for seed in 0..8u64 {
        let mut r = rng(seed);
        let t = Triangle::random(32, 32, &mut r);
        for p in [t.a, t.b, t.c] {
            assert!(p.x >= -16 && p.x <= 47);
            assert!(p.y >= -16 && p.y <= 47);
        }
        let e = Ellipse::random(32, 32, &mut r);
        assert!(e.o.x >= 0 && e.o.x < 32 && e.o.y >= 0 && e.o.y < 32);
        assert!(e.rx >= 1 && e.rx <= 32 && e.ry >= 1 && e.ry <= 32);
    }
}

// The vector emissions carry the exact element text.
#[test]
fn shape_svg_text() {
    let t = Triangle {
        a: Point { x: 1, y: 2 },
        b: Point { x: -3, y: 4 },
        c: Point { x: 5, y: 6 },
    };
    assert_eq!(
        t.to_svg("fill=\"#FF0000\""),
        "<polygon fill=\"#FF0000\" points=\"1,2 -3,4 5,6\" />"
    );
    let rect = Rectangle { p: Point { x: 0, y: 1 }, x: 7, y: 8 };
    assert_eq!(
        rect.to_svg("A"),
        "<rect A x=\"0\" y=\"1\" width=\"7\" height=\"8\" />"
    );
    let e = Ellipse { o: Point { x: 4, y: 5 }, rx: 2, ry: 3 };
    assert_eq!(e.to_svg("A"), "<ellipse A cx=\"4\" cy=\"5\" rx=\"2\" ry=\"3\" />");
    let q = Quadratic {
        p0: Point { x: 0, y: 0 },
        p1: Point { x: 1, y: 1 },
        p2: Point { x: 2, y: 0 },
    };
    assert_eq!(
        q.to_svg("fill=\"#010203\" fill-opacity=\"1\""),
        "<path stroke=\"#010203\" stroke-opacity=\"1\" fill=\"none\" d=\"M 0 0 Q 1 1, 2 0\" stroke-width=\"1\" />"
    );
}

// Cropping clamps a scanline into the canvas.
#[test]
fn scanline_crop_clamps() {
    let mut l = purrmitive::scanline::Scanline { y: 90, x1: 3, x2: 200 };
    l.crop(100, 50);
    assert_eq!(l, purrmitive::scanline::Scanline { y: 49, x1: 3, x2: 99 });
}

// Drawing a scanline blends only its own pixels.
#[test]
fn scanline_draw_blends_span() {
    let mut img = Image::uniform(4, 2, Color { r: 0, g: 0, b: 0, a: 255 });
    let l = purrmitive::scanline::Scanline { y: 1, x1: 1, x2: 2 };
    l.draw(&mut img, &Color { r: 200, g: 100, b: 40, a: 255 });
    assert_eq!(img.get_pixel(0, 1), Color { r: 0, g: 0, b: 0, a: 255 });
    assert_eq!(img.get_pixel(1, 1), Color { r: 200, g: 100, b: 40, a: 255 });
    assert_eq!(img.get_pixel(2, 1), Color { r: 200, g: 100, b: 40, a: 255 });
    assert_eq!(img.get_pixel(3, 1), Color { r: 0, g: 0, b: 0, a: 255 });
    assert_eq!(img.get_pixel(1, 0), Color { r: 0, g: 0, b: 0, a: 255 });
}

// A half-transparent blend truncates each channel as the kernels assume.
#[test]
fn scanline_draw_translucent_blend() {
    let mut img = Image::uniform(1, 2, Color { r: 100, g: 0, b: 255, a: 255 });
    let l = purrmitive::scanline::Scanline { y: 1, x1: 0, x2: 0 };
    l.draw(&mut img, &Color { r: 0, g: 255, b: 255, a: 128 });
    // channel value = (bg * 127 + fg * 128) / 255, truncated
    assert_eq!(img.get_pixel(0, 1), Color { r: 49, g: 128, b: 255, a: 255 });
}

// A rectangle at the top edge covers row zero.
#[test]
fn rectangle_covers_row_zero() {
    let rect = Rectangle { p: Point { x: 0, y: 0 }, x: 4, y: 4 };
    let lines = rect.rasterize(8, 8);
    assert!(lines.iter().any(|l| l.y == 0));
}

// Mutated extents stay within the canvas caps.
#[test]
fn mutation_extent_caps() {
    let mut r = rng(23);
    for seed in 0..12u64 {
        let mut rr = rng(seed);
        let mut e = Ellipse::random(20, 12, &mut rr);
        for _ in 0..8 {
            e.mutate(20, 12, &mut r);
        }
        assert!(e.rx <= 32 && e.ry <= 32);
        let mut rect = Rectangle::random(20, 12, &mut rr);
        for _ in 0..8 {
            rect.mutate(20, 12, &mut r);
        }
        assert!(rect.x <= 32 && rect.y <= 32);

        let mut combo = Combo::random(20, 12, &mut rr);
        let tag = std::mem::discriminant(&combo);
        combo.mutate(20, 12, &mut r);
        assert_eq!(tag, std::mem::discriminant(&combo));
    }
}
