//! The pass schedule of a render run. A run makes one pass over every pixel
//! per sample; a pass whose samples could not all be delivered (the consumer
//! went away) cancels the run, and a cancelled run schedules nothing more.
use vstd::prelude::*;

verus! {

/// What a render run does next.
#[derive(Clone, Copy, Debug, PartialEq, Eq, Structural)]
pub enum PassStep {
    /// Take one more sample of every pixel; `pass` counts from 0.
    Sample { pass: usize },
    /// Every pass was made and delivered.
    Done,
    /// The consumer stopped listening: give up quietly.
    Stopped,
}

/// The state of a render run, as a mathematical value.
pub struct RunView {
    pub samples_per_pixel: nat,
    pub passes_done: nat,
    pub cancelled: bool,
}

/// The decision taken in state `v`.
pub open spec fn step_of(v: RunView) -> PassStep {
    if v.cancelled {
        PassStep::Stopped
    } else if v.passes_done >= v.samples_per_pixel {
        PassStep::Done
    } else {
        PassStep::Sample { pass: v.passes_done as usize }
    }
}

/// The state after a pass in state `v` ended, with or without every sample
/// delivered.
pub open spec fn after_pass(v: RunView, delivered: bool) -> RunView {
    if delivered {
        RunView { passes_done: v.passes_done + 1, ..v }
    } else {
        RunView { cancelled: true, ..v }
    }
}

/// The state reached from `v` when the passes it schedules end with
/// `outcomes`, in order; outcomes left once the run has stopped or finished
/// are not used.
pub open spec fn replay(v: RunView, outcomes: Seq<bool>) -> RunView
    decreases outcomes.len(),
{
    if outcomes.len() == 0 {
        v
    } else if step_of(v) is Sample {
        replay(after_pass(v, outcomes[0]), outcomes.drop_first())
    } else {
        v
    }
}

/// A fresh run of `samples_per_pixel` passes.
pub open spec fn fresh(samples_per_pixel: nat) -> RunView {
    RunView { samples_per_pixel, passes_done: 0, cancelled: false }
}

/// The pass schedule of one render run.
pub struct RenderRun {
    samples_per_pixel: usize,
    passes_done: usize,
    cancelled: bool,
}

impl View for RenderRun {
    type V = RunView;

    closed spec fn view(&self) -> RunView {
        RunView {
            samples_per_pixel: self.samples_per_pixel as nat,
            passes_done: self.passes_done as nat,
            cancelled: self.cancelled,
        }
    }
}

impl RenderRun {
    /// A run never counts more passes than it was asked for.
    pub open spec fn wf(&self) -> bool {
        self@.passes_done <= self@.samples_per_pixel
    }

    pub fn new(samples_per_pixel: usize) -> (r: Self)
        ensures
            r.wf(),
            r@ == fresh(samples_per_pixel as nat),
    {
        RenderRun { samples_per_pixel, passes_done: 0, cancelled: false }
    }

    /// What the run does next.
    pub fn next_step(&self) -> (r: PassStep)
        ensures
            r == step_of(self@),
    {
        if self.cancelled {
            PassStep::Stopped
        } else if self.passes_done >= self.samples_per_pixel {
            PassStep::Done
        } else {
            PassStep::Sample { pass: self.passes_done }
        }
    }

    /// Records the end of the pass that `next_step` asked for.
    pub fn pass_ended(&mut self, delivered: bool)
        requires
            old(self).wf(),
            step_of(old(self)@) is Sample,
        ensures
            final(self).wf(),
            final(self)@ == after_pass(old(self)@, delivered),
    {
        if delivered {
            self.passes_done = self.passes_done + 1;
        } else {
            self.cancelled = true;
        }
    }
}

/// A pass that could not deliver its samples stops the run, and a stopped run
/// stays stopped whatever else is reported: no further pass is scheduled.
pub proof fn lemma_undelivered_pass_stops_run(v: RunView, outcomes: Seq<bool>)
    requires
        step_of(v) is Sample,
    ensures
        step_of(after_pass(v, false)) == PassStep::Stopped,
        replay(after_pass(v, false), outcomes) == after_pass(v, false),
{
    if outcomes.len() > 0 {
        assert(!(step_of(after_pass(v, false)) is Sample));
    }
}

/// A run never makes more passes than it was asked for.
pub proof fn lemma_passes_bounded(v: RunView, outcomes: Seq<bool>)
    requires
        v.passes_done <= v.samples_per_pixel,
    ensures
        replay(v, outcomes).passes_done <= v.samples_per_pixel,
        replay(v, outcomes).samples_per_pixel == v.samples_per_pixel,
    decreases outcomes.len(),
{
    if outcomes.len() > 0 && step_of(v) is Sample {
        lemma_passes_bounded(after_pass(v, outcomes[0]), outcomes.drop_first());
    }
}

/// When every pass delivers, a run of `samples_per_pixel` passes makes all of
/// them and then is done.
pub proof fn lemma_delivered_run_completes(samples_per_pixel: nat, outcomes: Seq<bool>)
    requires
        outcomes.len() == samples_per_pixel,
        forall|i: int| 0 <= i < outcomes.len() ==> outcomes[i],
    ensures
        replay(fresh(samples_per_pixel), outcomes).passes_done == samples_per_pixel,
        step_of(replay(fresh(samples_per_pixel), outcomes)) == PassStep::Done,
{
    lemma_delivered_passes(fresh(samples_per_pixel), outcomes);
}

proof fn lemma_delivered_passes(v: RunView, outcomes: Seq<bool>)
    requires
        !v.cancelled,
        v.passes_done + outcomes.len() == v.samples_per_pixel,
        forall|i: int| 0 <= i < outcomes.len() ==> outcomes[i],
    ensures
        replay(v, outcomes) == (RunView { passes_done: v.samples_per_pixel, ..v }),
    decreases outcomes.len(),
{
    if outcomes.len() > 0 {
        lemma_delivered_passes(after_pass(v, outcomes[0]), outcomes.drop_first());
    }
}

} // verus!
