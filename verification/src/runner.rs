use vstd::prelude::*;

use crate::algo::MAX_SCORE;
use crate::color::Color;
use crate::hill_climb::{best_hill_climb, scored_jittered};
use crate::model::{state_svg, PurrContext, PurrState};
use crate::shape::{PurrShape, Shape};
use crate::svg::{dec_of, hex_of, push_hex_byte, push_u32};
use crate::MAX_DIM;

verus! {

/// The hill-climb model: a context plus the search budget, `n` random
/// starts and `m` restarts per step, local search bounded by `age`.
#[derive(Debug)]
pub struct PurrHillClimbModel {
    pub context: PurrContext,
    pub n: u32,
    pub m: u32,
    pub age: u32,
}

impl PurrHillClimbModel {
    pub fn new(context: PurrContext, n: u32, m: u32, age: u32) -> (r: PurrHillClimbModel)
        ensures
            r.context == context,
            r.n == n,
            r.m == m,
            r.age == age,
    {
        PurrHillClimbModel { context, n, m, age }
    }

    /// Replace every part of the model, as a fresh job requires.
    pub fn reset(&mut self, context: PurrContext, n: u32, m: u32, age: u32)
        ensures
            final(self).context == context,
            final(self).n == n,
            final(self).m == m,
            final(self).age == age,
    {
        self.context = context;
        self.n = n;
        self.m = m;
        self.age = age;
    }

    /// One search step: the best state over the model's budget.  Its
    /// score never exceeds the context's current score.
    pub fn step<T: PurrShape>(&mut self) -> (r: PurrState<T>)
        requires
            old(self).context.wf(),
            1 <= old(self).context.w <= MAX_DIM,
            1 <= old(self).context.h <= MAX_DIM,
        ensures
            final(self).context.wf(),
            old(self).context.same_target(final(self).context),
            final(self).context.current_img == old(self).context.current_img,
            final(self).context.score == old(self).context.score,
            final(self).n == old(self).n,
            final(self).m == old(self).m,
            final(self).age == old(self).age,
            r.shape.bounds(final(self).context.w, final(self).context.h),
            r.score <= old(self).context.score,
            r.score == old(self).context.score || scored_jittered(
                old(self).context.origin_img,
                old(self).context.current_img,
                old(self).context.w,
                old(self).context.h,
                old(self).context.score,
                r,
                old(self).context.alpha,
            ),
    {
        best_hill_climb(&mut self.context, self.n, self.m, self.age)
    }

    /// Commit a state: draw its shape onto the canvas with its color and
    /// adopt its score as the context's current score.
    pub fn add_state<T: PurrShape>(&mut self, state: &PurrState<T>)
        requires
            old(self).context.wf(),
            1 <= old(self).context.w <= MAX_DIM,
            1 <= old(self).context.h <= MAX_DIM,
            state.shape.bounds(old(self).context.w, old(self).context.h),
            state.score <= MAX_SCORE,
        ensures
            final(self).context.wf(),
            old(self).context.same_target(final(self).context),
            final(self).context.score == state.score,
            final(self).context.current_img.pixels@ == crate::scanline::drawn_lines(
                old(self).context.current_img.pixels@,
                old(self).context.w as int,
                state.shape.rasterize_spec(old(self).context.w, old(self).context.h),
                state.color,
            ),
            final(self).n == old(self).n,
            final(self).m == old(self).m,
            final(self).age == old(self).age,
    {
        state.shape.draw(&mut self.context.current_img, &state.color);
        self.context.score = state.score;
    }
}

/// The running reduction over the workers' candidates, as the
/// coordinator performs it: the index of the earliest strict minimum so
/// far (or -1 for the baseline placeholder) and its score.
pub open spec fn reduce_pick<T>(
    candidates: Seq<PurrState<T>>,
    i: int,
    besti: int,
    bests: int,
) -> (int, int)
    decreases candidates.len() - i,
{
    if i < 0 || i >= candidates.len() {
        (besti, bests)
    } else if (candidates[i].score as int) < bests {
        reduce_pick(candidates, i + 1, i, candidates[i].score as int)
    } else {
        reduce_pick(candidates, i + 1, besti, bests)
    }
}

/// The coordinator's own state: the budget, the append-only history of
/// committed states, and whether workers are live.  The channel plumbing
/// that carries candidates from parallel workers stays with the caller;
/// this core reduces their candidates and commits the winner.
#[derive(Debug)]
pub struct PurrRunner<T> {
    pub shape_number: u32,
    pub thread_number: u32,
    pub states: Vec<PurrState<T>>,
    pub active: bool,
}

impl<T: PurrShape> Default for PurrRunner<T> {
    /// A runner with the stock budget: one hundred shapes over four
    /// workers.
    fn default() -> (r: PurrRunner<T>)
        ensures
            r.shape_number == 100,
            r.thread_number == 4,
            r.states@.len() == 0,
            !r.active,
    {
        PurrRunner { shape_number: 100, thread_number: 4, states: Vec::new(), active: false }
    }
}

impl<T: PurrShape> PurrRunner<T> {
    pub fn new(shape_number: u32, thread_number: u32) -> (r: PurrRunner<T>)
        ensures
            r.shape_number == shape_number,
            r.thread_number == thread_number,
            r.states@.len() == 0,
            !r.active,
    {
        PurrRunner { shape_number, thread_number, states: Vec::new(), active: false }
    }

    /// Start (or restart) a job: the history empties and stepping is
    /// enabled, exactly as on a fresh runner.
    pub fn init(&mut self)
        ensures
            final(self).active,
            final(self).states@.len() == 0,
            final(self).shape_number == old(self).shape_number,
            final(self).thread_number == old(self).thread_number,
    {
        self.states.clear();
        self.active = true;
    }

    /// End the job: every later step is a no-op until `init` runs again.
    pub fn stop(&mut self)
        ensures
            !final(self).active,
            final(self).states == old(self).states,
            final(self).shape_number == old(self).shape_number,
            final(self).thread_number == old(self).thread_number,
    {
        self.active = false;
    }

    /// One coordinator step: reduce the workers' candidates to the one
    /// with the lowest score (ties to the earliest), commit it, and
    /// append it to the history.  The context's score never increases;
    /// after `stop` the step changes nothing.
    pub fn step(&mut self, model: &mut PurrHillClimbModel, candidates: &Vec<PurrState<T>>)
        requires
            old(model).context.wf(),
            1 <= old(model).context.w <= MAX_DIM,
            1 <= old(model).context.h <= MAX_DIM,
            forall|i: int|
                0 <= i < candidates@.len() ==> (#[trigger] candidates@[i]).shape.bounds(
                    old(model).context.w,
                    old(model).context.h,
                ),
        ensures
            final(model).context.wf(),
            old(model).context.same_target(final(model).context),
            final(model).context.score <= old(model).context.score,
            final(self).shape_number == old(self).shape_number,
            final(self).thread_number == old(self).thread_number,
            final(self).active == old(self).active,
            !old(self).active ==> *final(self) == *old(self) && *final(model) == *old(model),
            old(self).active ==> final(self).states@.len() == old(self).states@.len() + 1,
            old(self).active ==> forall|i: int|
                0 <= i < candidates@.len() ==> final(model).context.score <= (
                #[trigger] candidates@[i]).score,
            old(self).active ==> final(self).states@.last().score == final(model).context.score,
            old(self).active ==> forall|i: int|
                0 <= i < old(self).states@.len() ==> final(self).states@[i] == old(
                self).states@[i],
            old(self).active ==> ({
                let pk = reduce_pick(candidates@, 0, -1, old(model).context.score as int);
                &&& (pk.0 == -1 ==> final(self).states@.last().score == old(
                    model,
                ).context.score)
                &&& (pk.0 >= 0 ==> final(self).states@.last() == candidates@[pk.0])
                &&& final(model).context.score == pk.1
            }),
            old(self).active ==> final(model).context.current_img.pixels@
                == crate::scanline::drawn_lines(
                old(model).context.current_img.pixels@,
                old(model).context.w as int,
                final(self).states@.last().shape.rasterize_spec(
                    old(model).context.w,
                    old(model).context.h,
                ),
                final(self).states@.last().color,
            ),
    {
        if !self.active {
            return ;
        }
        let mut best: PurrState<T> = PurrState::new(model.context.score);
        let ghost pk = reduce_pick(candidates@, 0, -1, model.context.score as int);
        let ghost mut besti: int = -1;
        let n = candidates.len();
        let mut i: usize = 0;
        while i < n
            invariant
                i <= n == candidates@.len(),
                model.context.wf(),
                forall|j: int|
                    0 <= j < candidates@.len() ==> (#[trigger] candidates@[j]).shape.bounds(
                        model.context.w,
                        model.context.h,
                    ),
                best.shape.bounds(model.context.w, model.context.h),
                best.score <= model.context.score,
                forall|j: int| 0 <= j < i ==> best.score <= (#[trigger] candidates@[j]).score,
                1 <= model.context.w <= MAX_DIM,
                1 <= model.context.h <= MAX_DIM,
                besti == -1 ==> best.score == model.context.score,
                besti >= 0 ==> 0 <= besti < i && best == candidates@[besti],
                reduce_pick(candidates@, i as int, besti, best.score as int) == pk,
            decreases n - i,
        {
            if candidates[i].score < best.score {
                best = candidates[i];
                proof {
                    besti = i as int;
                }
            }
            i += 1;
        }
        proof {
            assert(pk == (besti, best.score as int));
        }
        model.add_state(&best);
        self.states.push(best);
    }

    /// A full run on the calling thread: one search step and one commit
    /// per budgeted shape.  The history holds exactly the budget, its
    /// scores never increase, and the last one is the final score.
    pub fn run(&mut self, model: &mut PurrHillClimbModel)
        requires
            old(model).context.wf(),
            1 <= old(model).context.w <= MAX_DIM,
            1 <= old(model).context.h <= MAX_DIM,
        ensures
            final(model).context.wf(),
            old(model).context.same_target(final(model).context),
            final(model).context.score <= old(model).context.score,
            !final(self).active,
            final(self).states@.len() == old(self).shape_number,
            forall|i: int|
                0 < i < final(self).states@.len() ==> (#[trigger] final(self).states@[i]).score
                    <= final(self).states@[i - 1].score,
            final(self).states@.len() > 0 ==> final(self).states@.last().score
                == final(model).context.score,
    {
        self.init();
        let budget = self.shape_number;
        let mut i: u32 = 0;
        while i < budget
            invariant
                model.context.wf(),
                old(model).context.same_target(model.context),
                model.context.score <= old(model).context.score,
                1 <= model.context.w <= MAX_DIM,
                1 <= model.context.h <= MAX_DIM,
                self.active,
                self.shape_number == old(self).shape_number,
                self.states@.len() == i,
                i <= budget,
                budget == old(self).shape_number,
                forall|j: int|
                    0 < j < self.states@.len() ==> (#[trigger] self.states@[j]).score
                        <= self.states@[j - 1].score,
                self.states@.len() > 0 ==> self.states@.last().score == model.context.score,
            decreases budget - i,
        {
            let candidate: PurrState<T> = model.step();
            let mut candidates: Vec<PurrState<T>> = Vec::new();
            candidates.push(candidate);
            let ghost prev = self.states@;
            let ghost prev_score = model.context.score;
            self.step(model, &candidates);
            proof {
                assert forall|j: int|
                    0 < j < self.states@.len() implies (#[trigger] self.states@[j]).score
                    <= self.states@[j - 1].score by {
                    if j < prev.len() {
                        assert(self.states@[j] == prev[j] && self.states@[j - 1] == prev[j - 1]);
                    } else {
                        assert(self.states@[j] == self.states@.last());
                        if j > 0 && prev.len() > 0 {
                            assert(self.states@[j - 1] == prev[j - 1]);
                        }
                    }
                }
            }
            i += 1;
        }
        self.stop();
    }

    /// Run until the score reaches `target` or the step bound runs out.
    pub fn run_to_score(&mut self, model: &mut PurrHillClimbModel, target: u64, max_steps: u32)
        requires
            old(model).context.wf(),
            1 <= old(model).context.w <= MAX_DIM,
            1 <= old(model).context.h <= MAX_DIM,
        ensures
            final(model).context.wf(),
            old(model).context.same_target(final(model).context),
            final(model).context.score <= old(model).context.score,
            !final(self).active,
            final(model).context.score <= target || final(self).states@.len() == max_steps,
    {
        self.init();
        let mut i: u32 = 0;
        while i < max_steps && model.context.score > target
            invariant
                model.context.wf(),
                old(model).context.same_target(model.context),
                model.context.score <= old(model).context.score,
                1 <= model.context.w <= MAX_DIM,
                1 <= model.context.h <= MAX_DIM,
                self.active,
                self.states@.len() == i,
                i <= max_steps,
            decreases max_steps - i,
        {
            let candidate: PurrState<T> = model.step();
            let mut candidates: Vec<PurrState<T>> = Vec::new();
            candidates.push(candidate);
            self.step(model, &candidates);
            i += 1;
        }
        self.stop();
    }
}

/// The states of `states[i..upto]`, rendered one vector element each.
pub open spec fn states_svg<T: PurrShape>(states: Seq<PurrState<T>>, i: int, upto: int) -> Seq<
    char,
>
    decreases upto - i,
{
    if i < 0 || i >= upto || i >= states.len() {
        Seq::empty()
    } else {
        state_svg(states[i]) + states_svg(states, i + 1, upto)
    }
}

/// The document head: canvas size, background rectangle, and the group
/// every committed element lives in.
pub open spec fn svg_head(w: u32, h: u32, bg: Color) -> Seq<char> {
    "<svg xmlns=\"http://www.w3.org/2000/svg\" version=\"1.1\" width=\""@ + dec_of(w as int)
        + "\" height=\""@ + dec_of(h as int) + "\">"@ + "<rect x=\"0\" y=\"0\" width=\""@ + dec_of(
        w as int,
    ) + "\" height=\""@ + dec_of(h as int) + "\" fill=\"#"@ + hex_of(bg.r as int) + hex_of(
        bg.g as int,
    ) + hex_of(bg.b as int) + "\"/>"@ + "<g transform=\"scale(1) translate(0.5 0.5)\">"@
}

/// The whole vector document for the first `upto` committed states.
pub open spec fn svg_doc<T: PurrShape>(
    w: u32,
    h: u32,
    bg: Color,
    states: Seq<PurrState<T>>,
    upto: int,
) -> Seq<char> {
    svg_head(w, h, bg) + states_svg(states, 0, upto) + "</g></svg>"@
}

fn push_svg_head(s: &mut String, w: u32, h: u32, bg: Color)
    ensures
        final(s)@ == old(s)@ + svg_head(w, h, bg),
{
    s.append("<svg xmlns=\"http://www.w3.org/2000/svg\" version=\"1.1\" width=\"");
    push_u32(s, w);
    s.append("\" height=\"");
    push_u32(s, h);
    s.append("\">");
    s.append("<rect x=\"0\" y=\"0\" width=\"");
    push_u32(s, w);
    s.append("\" height=\"");
    push_u32(s, h);
    s.append("\" fill=\"#");
    push_hex_byte(s, bg.r);
    push_hex_byte(s, bg.g);
    push_hex_byte(s, bg.b);
    s.append("\"/>");
    s.append("<g transform=\"scale(1) translate(0.5 0.5)\">");
    proof {
        assert(s@ =~= old(s)@ + svg_head(w, h, bg));
    }
}

impl<T: PurrShape> PurrRunner<T> {
    /// The vector document of the history up to index `idx` inclusive.
    pub fn get_svg(&self, context: &PurrContext, idx: usize) -> (r: String)
        ensures
            r@ == svg_doc(context.w, context.h, context.bg, self.states@, idx + 1),
    {
        let mut s = String::from_str("");
        proof {
            reveal_strlit("");
        }
        push_svg_head(&mut s, context.w, context.h, context.bg);
        let n = self.states.len();
        let mut i: usize = 0;
        while i < n && i <= idx
            invariant
                i <= n == self.states@.len(),
                s@ + states_svg(self.states@, i as int, idx + 1) + "</g></svg>"@ == svg_doc(
                    context.w,
                    context.h,
                    context.bg,
                    self.states@,
                    idx + 1,
                ),
            decreases n - i,
        {
            let piece = self.states[i].to_svg();
            s.append(piece.as_str());
            proof {
                assert(s@ + states_svg(self.states@, i + 1, idx + 1) + "</g></svg>"@ =~= svg_doc(
                    context.w,
                    context.h,
                    context.bg,
                    self.states@,
                    idx + 1,
                ));
            }
            i += 1;
        }
        s.append("</g></svg>");
        proof {
            assert(states_svg(self.states@, i as int, idx + 1) =~= Seq::<char>::empty());
            assert(s@ =~= svg_doc(context.w, context.h, context.bg, self.states@, idx + 1));
        }
        s
    }

    /// The vector element of the most recently committed state, or the
    /// empty string before any commit.
    pub fn get_last_shape(&self) -> (r: String)
        ensures
            self.states@.len() == 0 ==> r@ == Seq::<char>::empty(),
            self.states@.len() > 0 ==> r@ == state_svg(self.states@.last()),
    {
        let n = self.states.len();
        if n == 0 {
            let r = String::from_str("");
            proof {
                reveal_strlit("");
            }
            r
        } else {
            self.states[n - 1].to_svg()
        }
    }

    /// One vector document per history prefix: the animation's frames.
    pub fn to_frames(&self, context: &PurrContext) -> (r: Vec<String>)
        ensures
            r@.len() == self.states@.len(),
            forall|i: int|
                0 <= i < r@.len() ==> (#[trigger] r@[i])@ == svg_doc(
                    context.w,
                    context.h,
                    context.bg,
                    self.states@,
                    i + 1,
                ),
    {
        let mut frames: Vec<String> = Vec::new();
        let n = self.states.len();
        let mut i: usize = 0;
        while i < n
            invariant
                i <= n == self.states@.len(),
                frames@.len() == i,
                forall|j: int|
                    0 <= j < i ==> (#[trigger] frames@[j])@ == svg_doc(
                        context.w,
                        context.h,
                        context.bg,
                        self.states@,
                        j + 1,
                    ),
            decreases n - i,
        {
            let f = self.get_svg(context, i);
            frames.push(f);
            i += 1;
        }
        frames
    }
}

} // verus!
