use vstd::prelude::*;

use crate::algo::MAX_SCORE;
use crate::hill_climb::scored_jittered;
use crate::model::PurrState;
use crate::runner::PurrHillClimbModel;
use crate::shape::PurrShape;
use crate::MAX_DIM;

verus! {

/// What the coordinator sends a worker: search one step, adopt a newly
/// committed state as the baseline, or terminate.
pub enum PurrWorkerCmd<T> {
    Start,
    Step(PurrState<T>),
    End,
}

/// A worker: a private model whose context is an independent clone of
/// the job's.  The caller owns the channels; the worker's whole decision
/// logic is `handle`.
#[derive(Debug)]
pub struct PurrWorker<T> {
    pub model: PurrHillClimbModel,
    pub shape_kind: core::marker::PhantomData<T>,
}

impl<T: PurrShape> PurrWorker<T> {
    pub fn new(model: PurrHillClimbModel) -> (r: PurrWorker<T>)
        ensures
            r.model == model,
    {
        PurrWorker { model, shape_kind: core::marker::PhantomData }
    }

    pub open spec fn wf(self) -> bool {
        &&& self.model.context.wf()
        &&& 1 <= self.model.context.w <= MAX_DIM
        &&& 1 <= self.model.context.h <= MAX_DIM
    }

    /// Perform one search step and hand the best state back for the
    /// coordinator to reduce; the private canvas and baseline stay as
    /// they were.
    pub fn work(&mut self) -> (r: PurrState<T>)
        requires
            old(self).wf(),
        ensures
            final(self).wf(),
            old(self).model.context.same_target(final(self).model.context),
            final(self).model.context.current_img == old(self).model.context.current_img,
            final(self).model.context.score == old(self).model.context.score,
            r.shape.bounds(final(self).model.context.w, final(self).model.context.h),
            r.score <= old(self).model.context.score,
            r.score == old(self).model.context.score || scored_jittered(
                old(self).model.context.origin_img,
                old(self).model.context.current_img,
                old(self).model.context.w,
                old(self).model.context.h,
                old(self).model.context.score,
                r,
                old(self).model.context.alpha,
            ),
    {
        self.model.step()
    }

    /// Adopt a committed state: draw it on the private canvas and take
    /// its score as the next baseline.
    pub fn update(&mut self, state: &PurrState<T>)
        requires
            old(self).wf(),
            state.shape.bounds(old(self).model.context.w, old(self).model.context.h),
            state.score <= MAX_SCORE,
        ensures
            final(self).wf(),
            old(self).model.context.same_target(final(self).model.context),
            final(self).model.context.score == state.score,
    {
        self.model.add_state(state);
    }

    /// The worker's state machine: what one received command means.  The
    /// first result is the state to send back, if any; the second is
    /// whether the worker keeps running.
    pub fn handle(&mut self, cmd: &PurrWorkerCmd<T>) -> (r: (Option<PurrState<T>>, bool))
        requires
            old(self).wf(),
            (match *cmd {
                PurrWorkerCmd::Step(s) => s.shape.bounds(
                    old(self).model.context.w,
                    old(self).model.context.h,
                ) && s.score <= MAX_SCORE,
                _ => true,
            }),
        ensures
            final(self).wf(),
            old(self).model.context.same_target(final(self).model.context),
            r.1 == !((*cmd) is End),
            ((*cmd) is Start) ==> r.0 is Some,
            !((*cmd) is Start) ==> r.0 is None,
            ((*cmd) is End) ==> *final(self) == *old(self),
    {
        match cmd {
            PurrWorkerCmd::Start => {
                let s = self.work();
                (Option::Some(s), true)
            },
            PurrWorkerCmd::Step(s) => {
                self.update(s);
                (Option::None, true)
            },
            PurrWorkerCmd::End => (Option::None, false),
        }
    }
}

} // verus!
