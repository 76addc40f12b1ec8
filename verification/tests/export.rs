use purrmitive::color::Color;
use purrmitive::image::Image;
use purrmitive::model::{PurrContext, PurrState};
use purrmitive::point::Point;
use purrmitive::rectangle::Rectangle;
use purrmitive::runner::{PurrHillClimbModel, PurrRunner};
use purrmitive::shape::Shape;

// Exporting a history of one rectangle covering the entire canvas, with
// full alpha, yields a vector whose rasterization matches the committed
// color within one unit per channel.
#[test]
fn exported_rect_rasterizes_to_committed_color() {
    let w = 8;
    let h = 8;
    let red = Color { r: 255, g: 0, b: 0, a: 255 };
    let black = Color { r: 0, g: 0, b: 0, a: 255 };
    let target = Image::uniform(w, h, red);
    let ctx = PurrContext::new(target, 255, Some(black), 1);
    let mut model = PurrHillClimbModel::new(ctx, 1, 1, 1);
    let mut runner: PurrRunner<Rectangle> = PurrRunner::new(1, 1);
    runner.init();

    // one rectangle over the whole canvas
    let state = PurrState {
        shape: Rectangle { p: Point { x: 0, y: 0 }, x: w, y: h },
        color: red,
        score: 0,
    };
    model.add_state(&state);
    runner.states.push(state);

    // the working canvas carries the committed color on every drawn row
    let lines = state.shape.rasterize(w, h);
    assert!(!lines.is_empty());
    for l in &lines {
        for x in l.x1..=l.x2 {
            assert_eq!(model.context.current_img.get_pixel(x, l.y), red);
        }
    }

    // the re-rasterized vector document carries it on every interior
    // pixel; the border is anti-aliased because every element sits in a
    // half-pixel-translated group
    let doc = runner.get_svg(&model.context, 0);
    let svg = nsvg::parse_str(&doc, nsvg::Units::Pixel, 96.0).unwrap();
    let (rw, rh, raw) = svg.rasterize_to_raw_rgba(1.0).unwrap();
    assert_eq!((rw, rh), (w, h));
    for py in 1..rh - 1 {
        for px in 1..rw - 1 {
            let base = ((py * rw + px) * 4) as usize;
            assert!((raw[base] as i32 - red.r as i32).abs() <= 1);
            assert!((raw[base + 1] as i32 - red.g as i32).abs() <= 1);
            assert!((raw[base + 2] as i32 - red.b as i32).abs() <= 1);
        }
    }
}
