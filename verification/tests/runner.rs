use purrmitive::color::Color;
use purrmitive::image::Image;
use purrmitive::model::{PurrContext, PurrState};
use purrmitive::point::Point;
use purrmitive::rectangle::Rectangle;
use purrmitive::runner::{PurrHillClimbModel, PurrRunner};
use purrmitive::triangle::Triangle;
use purrmitive::worker::{PurrWorker, PurrWorkerCmd};

fn small_model(seed: u64) -> PurrHillClimbModel {
    let mut target = Image::uniform(16, 16, Color { r: 220, g: 40, b: 10, a: 255 });
    target.set_pixel(3, 3, Color { r: 0, g: 0, b: 255, a: 255 });
    let ctx = PurrContext::new(target, 160, None, seed);
    PurrHillClimbModel::new(ctx, 10, 2, 5)
}

// After a coordinator step the context's score never increased.
#[test]
fn step_never_increases_score() {
    let mut model = small_model(3);
    let mut runner: PurrRunner<Triangle> = PurrRunner::new(4, 1);
    runner.init();
    let mut last = model.context.score;
    for _ in 0..4 {
        let candidate = model.step();
        let candidates = vec![candidate];
        runner.step(&mut model, &candidates);
        assert!(model.context.score <= last);
        last = model.context.score;
    }
    assert_eq!(runner.states.len(), 4);
}

// After `stop`, a step is a no-op; after `init` following `stop`, the
// runner behaves as freshly initialized.
#[test]
fn stop_makes_step_a_no_op() {
    let mut model = small_model(5);
    let mut runner: PurrRunner<Triangle> = PurrRunner::new(4, 1);
    runner.init();
    let candidate = model.step();
    runner.step(&mut model, &vec![candidate]);
    assert_eq!(runner.states.len(), 1);

    runner.stop();
    let score_before = model.context.score;
    let candidate = model.step();
    runner.step(&mut model, &vec![candidate]);
    assert_eq!(runner.states.len(), 1);
    assert_eq!(model.context.score, score_before);

    runner.init();
    assert_eq!(runner.states.len(), 0);
    let candidate = model.step();
    runner.step(&mut model, &vec![candidate]);
    assert_eq!(runner.states.len(), 1);
}

// Two identically seeded workers hand back the same candidate, and the
// committed history is non-increasing in score over several steps.
#[test]
fn identical_workers_and_monotone_history() {
    let mut model = small_model(8);
    let mut wa: PurrWorker<Triangle> = PurrWorker::new(PurrHillClimbModel::new(
        model.context.duplicate(42),
        model.n,
        model.m,
        model.age,
    ));
    let mut wb: PurrWorker<Triangle> = PurrWorker::new(PurrHillClimbModel::new(
        model.context.duplicate(42),
        model.n,
        model.m,
        model.age,
    ));
    let mut runner: PurrRunner<Triangle> = PurrRunner::new(3, 2);
    runner.init();
    for _ in 0..3 {
        let (ca, cont_a) = wa.handle(&PurrWorkerCmd::Start);
        let (cb, cont_b) = wb.handle(&PurrWorkerCmd::Start);
        assert!(cont_a && cont_b);
        let sa = ca.unwrap();
        let sb = cb.unwrap();
        assert_eq!(sa.score, sb.score);
        runner.step(&mut model, &vec![sa, sb]);
        let committed = runner.states.last().unwrap();
        let (_, _) = wa.handle(&PurrWorkerCmd::Step(*committed));
        let (_, _) = wb.handle(&PurrWorkerCmd::Step(*committed));
        assert_eq!(wa.model.context.score, model.context.score);
    }
    for i in 1..runner.states.len() {
        assert!(runner.states[i].score <= runner.states[i - 1].score);
    }
    let (r, cont) = wa.handle(&PurrWorkerCmd::End);
    assert!(r.is_none() && !cont);
}

// The exported vector document is exactly the expected text.
#[test]
fn exported_document_text() {
    let target = Image::uniform(2, 2, Color { r: 255, g: 0, b: 0, a: 255 });
    let ctx = PurrContext::new(target, 255, Some(Color { r: 0, g: 0, b: 0, a: 255 }), 1);
    let model = PurrHillClimbModel::new(ctx, 1, 1, 1);
    let mut runner: PurrRunner<Rectangle> = PurrRunner::new(1, 1);
    runner.init();
    runner.states.push(PurrState {
        shape: Rectangle { p: Point { x: 0, y: 0 }, x: 2, y: 2 },
        color: Color { r: 255, g: 0, b: 0, a: 255 },
        score: 0,
    });
    let doc = runner.get_svg(&model.context, 0);
    let expected = "<svg xmlns=\"http://www.w3.org/2000/svg\" version=\"1.1\" width=\"2\" height=\"2\"><rect x=\"0\" y=\"0\" width=\"2\" height=\"2\" fill=\"#000000\"/><g transform=\"scale(1) translate(0.5 0.5)\"><rect fill=\"#FF0000\" fill-opacity=\"1\" x=\"0\" y=\"0\" width=\"2\" height=\"2\" /></g></svg>";
    assert_eq!(doc, expected);
    let last = runner.get_last_shape();
    assert_eq!(
        last,
        "<rect fill=\"#FF0000\" fill-opacity=\"1\" x=\"0\" y=\"0\" width=\"2\" height=\"2\" />"
    );
    let frames = runner.to_frames(&model.context);
    assert_eq!(frames.len(), 1);
    assert_eq!(frames[0], doc);
}

// A half-transparent fill opacity prints as a truncated decimal.
#[test]
fn opacity_text() {
    let s: PurrState<Rectangle> = PurrState {
        shape: Rectangle { p: Point { x: 0, y: 0 }, x: 1, y: 1 },
        color: Color { r: 1, g: 2, b: 3, a: 128 },
        score: 0,
    };
    assert_eq!(
        s.to_svg(),
        "<rect fill=\"#010203\" fill-opacity=\"0.501960\" x=\"0\" y=\"0\" width=\"1\" height=\"1\" />"
    );
}

// A full run commits one state per budgeted shape and leaves the runner
// stopped with a score no worse than the start.
#[test]
fn full_run_commits_budget() {
    let mut model = small_model(13);
    let before = model.context.score;
    let mut runner: PurrRunner<Triangle> = PurrRunner::new(5, 1);
    runner.run(&mut model);
    assert_eq!(runner.states.len(), 5);
    assert!(model.context.score <= before);
    for i in 1..runner.states.len() {
        assert!(runner.states[i].score <= runner.states[i - 1].score);
    }
}

// A threshold run stops as soon as the score reaches the target.
#[test]
fn threshold_run_stops_at_target() {
    let mut model = small_model(17);
    let target = model.context.score;
    let mut runner: PurrRunner<Triangle> = PurrRunner::new(5, 1);
    runner.run_to_score(&mut model, target, 50);
    assert!(runner.states.len() <= 1);
    assert!(model.context.score <= target);
}

// The committed state is the earliest candidate with the lowest score.
#[test]
fn step_commits_minimal_candidate() {
    let target = Image::uniform(4, 4, Color { r: 200, g: 10, b: 10, a: 255 });
    let ctx = PurrContext::new(target, 255, Some(Color { r: 0, g: 0, b: 0, a: 255 }), 2);
    let mut model = PurrHillClimbModel::new(ctx, 1, 1, 1);
    let mut runner: PurrRunner<Rectangle> = PurrRunner::new(2, 1);
    runner.init();
    let shape = Rectangle { p: Point { x: 0, y: 0 }, x: 1, y: 1 };
    let mk = |score: u64| PurrState { shape, color: Color { r: 1, g: 2, b: 3, a: 255 }, score };
    let candidates = vec![mk(900), mk(40), mk(40), mk(700)];
    runner.step(&mut model, &candidates);
    assert_eq!(model.context.score, 40);
    assert_eq!(runner.states.last().unwrap().score, 40);
    // no candidate beats the baseline: the baseline placeholder commits
    let worse = vec![mk(1_000_000_000)];
    runner.step(&mut model, &worse);
    assert_eq!(model.context.score, 40);
}
