//! The sequence-loop driver.
//!
//! A pure state machine that decides, step by step, what the sequence
//! task should do next: inject the current step's key, wait its
//! configured interval, re-acquire a lost target, or finish.  The
//! surrounding task performs the action and feeds the outcome back in.
//! Keeping the decisions here makes the scheduling rules — strict step
//! order, one re-acquisition per failed step, pause discipline, the
//! loop/repeat termination rule — facts that are proved rather than
//! hoped for.
//!
//! The pause overlay is applied between actions: a commanded wait
//! runs to completion, the hold comes before the next injection, and
//! progress is never reset by a pause.  No injection is ever
//! commanded while the overlay is set.
//!
//! The ghost `delivered` trace records the step index of every
//! successful injection; `clean` records that no injection has failed
//! so far.  The well-formedness invariant ties the trace to the
//! machine's position, which is what the replay laws below rest on.

use vstd::prelude::*;
use vstd::arithmetic::div_mod::{lemma_mod_multiples_vanish, lemma_small_mod};
use crate::config::KeyAction;

verus! {

/// What happened to one injection attempt.
#[derive(Clone, Copy, Debug, PartialEq, Eq, Structural)]
pub enum StepOutcome {
    /// The key was delivered.
    Delivered,
    /// The target process or window is gone; re-acquisition may help.
    TargetGone,
    /// The injection was rejected for another reason; the step still
    /// counts as attempted.
    Rejected,
}

/// Where the driver stands.
#[derive(Clone, Copy, Debug, PartialEq, Eq, Structural)]
pub enum SeqPhase {
    /// The current step's key is due to be injected.
    Ready,
    /// The current step's interval is being waited out.
    Waiting,
    /// The target was lost injecting the current step; one
    /// re-acquisition is due before the step is retried or abandoned.
    Reacquiring,
    /// The driver has no more work.
    Done,
}

/// What the sequence task should do next.
#[derive(Clone, Copy, Debug, PartialEq, Eq, Structural)]
pub enum SeqCommand {
    /// Inject the key of the step with this index.
    Inject(usize),
    /// Wait this many milliseconds (cancellably).
    Wait(u64),
    /// Perform one single-flight re-acquisition (see `refresh`).
    Reacquire,
    /// Delivery is paused; wait for the pause state to clear.
    HoldPaused,
    /// The driver is done; the task can end.
    Finished,
}

/// The step indices delivered by `full` complete passes over `n` steps
/// plus `extra` leading steps of the next pass.
pub open spec fn canonical_trace(n: int, full: int, extra: int) -> Seq<int> {
    Seq::new((full * n + extra) as nat, |k: int| k % n)
}

/// The sequence-loop driver state machine.
pub struct SequenceDriver {
    /// The ordered steps; immutable once loaded.
    pub steps: Vec<KeyAction>,
    /// Whether the sequence restarts after its last step.
    pub loop_sequence: bool,
    /// With `loop_sequence`, how many full passes to run; `0` means
    /// without bound.
    pub repeat_count: u32,
    /// The current step.
    pub step_index: usize,
    /// Full passes completed; tracked when `repeat_count > 0`.
    pub passes_done: u32,
    /// Where the driver stands.
    pub phase: SeqPhase,
    /// Whether the current step already used its one re-acquisition.
    pub retried: bool,
    /// Step index of every delivered injection, in order.
    pub delivered: Ghost<Seq<int>>,
    /// Full passes completed (unbounded count).
    pub passes: Ghost<int>,
    /// No injection has failed so far.
    pub clean: Ghost<bool>,
}

impl SequenceDriver {
    /// The machine's invariant.  When the run is still clean, the
    /// delivered trace is exactly the canonical prefix for the
    /// machine's position — and a clean unbounded looping driver is
    /// never `Done`.
    pub open spec fn wf(self) -> bool {
        let n = self.steps@.len() as int;
        &&& (self.phase != SeqPhase::Done ==> self.step_index < n)
        &&& (n == 0 ==> self.phase == SeqPhase::Done)
        &&& self.passes@ >= 0
        &&& (self.repeat_count > 0 ==> self.passes_done as int == self.passes@)
        &&& (self.repeat_count > 0 ==> self.passes@ <= self.repeat_count)
        &&& (self.repeat_count > 0 && self.phase != SeqPhase::Done ==> self.passes@
            < self.repeat_count)
        &&& (self.clean@ ==> !self.retried)
        &&& (self.clean@ ==> self.phase != SeqPhase::Reacquiring)
        &&& (self.clean@ && !self.loop_sequence && self.phase != SeqPhase::Done ==> self.passes@
            == 0)
        &&& (n == 0 ==> self.delivered@ == Seq::<int>::empty())
        &&& (self.clean@ && n > 0 ==> self.delivered@ == match self.phase {
            SeqPhase::Ready => canonical_trace(n, self.passes@, self.step_index as int),
            SeqPhase::Waiting => canonical_trace(n, self.passes@, self.step_index as int + 1),
            SeqPhase::Reacquiring => self.delivered@,
            SeqPhase::Done => canonical_trace(
                n,
                if !self.loop_sequence {
                    1
                } else {
                    self.repeat_count as int
                },
                0,
            ),
        })
        &&& (self.clean@ && n > 0 && self.phase == SeqPhase::Done && self.loop_sequence
            ==> self.repeat_count > 0)
    }

    /// Start a driver at the first step; an empty sequence has no work
    /// and starts `Done`.
    pub fn new(steps: Vec<KeyAction>, loop_sequence: bool, repeat_count: u32) -> (d:
        SequenceDriver)
        ensures
            d.wf(),
            d.steps@ == steps@,
            d.loop_sequence == loop_sequence,
            d.repeat_count == repeat_count,
            d.clean@ == true,
            d.delivered@ == Seq::<int>::empty(),
            d.passes@ == 0,
            steps@.len() > 0 ==> d.phase == SeqPhase::Ready && d.step_index == 0,
            steps@.len() == 0 ==> d.phase == SeqPhase::Done,
    {
        let phase = if steps.len() == 0 {
            SeqPhase::Done
        } else {
            SeqPhase::Ready
        };
        let d = SequenceDriver {
            steps,
            loop_sequence,
            repeat_count,
            step_index: 0,
            passes_done: 0,
            phase,
            retried: false,
            delivered: Ghost(Seq::empty()),
            passes: Ghost(0),
            clean: Ghost(true),
        };
        proof {
            if d.steps@.len() > 0 {
                assert(d.delivered@ =~= canonical_trace(d.steps@.len() as int, 0, 0));
            }
        }
        d
    }

    /// What the next command is, as a function of the state and the
    /// pause flag.
    pub open spec fn spec_next_command(self, paused: bool) -> SeqCommand {
        if self.phase == SeqPhase::Done {
            SeqCommand::Finished
        } else if paused {
            SeqCommand::HoldPaused
        } else {
            match self.phase {
                SeqPhase::Ready => SeqCommand::Inject(self.step_index),
                SeqPhase::Waiting => SeqCommand::Wait(
                    self.steps@[self.step_index as int].interval_after,
                ),
                SeqPhase::Reacquiring => SeqCommand::Reacquire,
                SeqPhase::Done => SeqCommand::Finished,
            }
        }
    }

    /// Ask the driver what to do now.  While the pause overlay is set
    /// no injection is ever commanded: the only commands are
    /// `HoldPaused` and `Finished`.
    pub fn next_command(&self, paused: bool) -> (c: SeqCommand)
        requires
            self.wf(),
        ensures
            c == self.spec_next_command(paused),
            paused ==> !(c matches SeqCommand::Inject(_)),
    {
        match self.phase {
            SeqPhase::Done => SeqCommand::Finished,
            _ => {
                if paused {
                    SeqCommand::HoldPaused
                } else {
                    match self.phase {
                        SeqPhase::Ready => SeqCommand::Inject(self.step_index),
                        SeqPhase::Waiting => SeqCommand::Wait(
                            self.steps[self.step_index].interval_after,
                        ),
                        SeqPhase::Reacquiring => SeqCommand::Reacquire,
                        SeqPhase::Done => SeqCommand::Finished,
                    }
                }
            },
        }
    }

    /// Record the outcome of the commanded injection of the current
    /// step.  Delivery moves to the step's wait.  A lost target asks
    /// for exactly one re-acquisition; if the step already used it,
    /// the step is abandoned and the loop moves on through the wait,
    /// as it does for any other rejection.
    pub fn on_inject_result(&mut self, outcome: StepOutcome)
        requires
            old(self).wf(),
            old(self).phase == SeqPhase::Ready,
        ensures
            final(self).wf(),
            final(self).steps@ == old(self).steps@,
            final(self).loop_sequence == old(self).loop_sequence,
            final(self).repeat_count == old(self).repeat_count,
            final(self).step_index == old(self).step_index,
            final(self).passes@ == old(self).passes@,
            outcome == StepOutcome::Delivered ==> final(self).phase == SeqPhase::Waiting && final(self).delivered@ == old(self).delivered@.push(old(self).step_index as int) && final(self).clean@ == old(self).clean@ && final(self).retried == old(self).retried,
            outcome == StepOutcome::TargetGone && !old(self).retried ==> final(self).phase
                == SeqPhase::Reacquiring && final(self).clean@ == false && final(self).delivered@
                == old(self).delivered@ && final(self).retried == false,
            (outcome == StepOutcome::TargetGone && old(self).retried) || outcome
                == StepOutcome::Rejected ==> final(self).phase == SeqPhase::Waiting && final(self).clean@ == false && final(self).delivered@ == old(self).delivered@ && final(self).retried == old(self).retried,
    {
        let ghost n = self.steps@.len() as int;
        match outcome {
            StepOutcome::Delivered => {
                proof {
                    if self.clean@ {
                        lemma_canonical_push(n, self.passes@, self.step_index as int);
                    }
                }
                self.delivered = Ghost(self.delivered@.push(self.step_index as int));
                self.phase = SeqPhase::Waiting;
            },
            StepOutcome::TargetGone => {
                if !self.retried {
                    self.phase = SeqPhase::Reacquiring;
                } else {
                    self.phase = SeqPhase::Waiting;
                }
                self.clean = Ghost(false);
            },
            StepOutcome::Rejected => {
                self.phase = SeqPhase::Waiting;
                self.clean = Ghost(false);
            },
        }
    }

    /// The commanded wait for the current step has elapsed: advance.
    /// Steps run strictly in order; after the last step the pass
    /// count grows, and the driver finishes exactly when looping is
    /// off or the configured number of passes is reached.
    pub fn on_wait_finished(&mut self)
        requires
            old(self).wf(),
            old(self).phase == SeqPhase::Waiting,
        ensures
            final(self).wf(),
            final(self).steps@ == old(self).steps@,
            final(self).loop_sequence == old(self).loop_sequence,
            final(self).repeat_count == old(self).repeat_count,
            final(self).delivered@ == old(self).delivered@,
            final(self).clean@ == old(self).clean@,
            final(self).retried == false,
            old(self).step_index + 1 < old(self).steps@.len() ==> final(self).phase
                == SeqPhase::Ready && final(self).step_index == old(self).step_index + 1 && final(self).passes@ == old(self).passes@,
            old(self).step_index + 1 == old(self).steps@.len() ==> ({
                &&& final(self).passes@ == old(self).passes@ + 1
                &&& !old(self).loop_sequence ==> final(self).phase == SeqPhase::Done
                &&& (old(self).loop_sequence && old(self).repeat_count > 0 && old(self).passes@ + 1
                    == old(self).repeat_count) ==> final(self).phase == SeqPhase::Done
                &&& (old(self).loop_sequence && (old(self).repeat_count == 0 || old(self).passes@
                    + 1 < old(self).repeat_count)) ==> final(self).phase == SeqPhase::Ready
                    && final(self).step_index == 0
            }),
    {
        let ghost n = self.steps@.len() as int;
        self.retried = false;
        let len = self.steps.len();
        proof {
            assert(self.step_index < len);
        }
        if self.step_index + 1 < len {
            self.step_index = self.step_index + 1;
            self.phase = SeqPhase::Ready;
        } else {
            proof {
                lemma_canonical_wrap(n, self.passes@);
                self.passes@ = self.passes@ + 1;
            }
            if self.repeat_count > 0 {
                self.passes_done = self.passes_done + 1;
            }
            if !self.loop_sequence {
                self.phase = SeqPhase::Done;
            } else if self.repeat_count > 0 && self.passes_done == self.repeat_count {
                self.phase = SeqPhase::Done;
            } else {
                self.step_index = 0;
                self.phase = SeqPhase::Ready;
            }
        }
    }

    /// Record the outcome of the commanded re-acquisition.  On
    /// success the same step is retried — it is not skipped — with its
    /// one re-acquisition spent.  A failed re-acquisition means
    /// acquisition exhausted its attempts, which is fatal to the run.
    pub fn on_reacquired(&mut self, success: bool)
        requires
            old(self).wf(),
            old(self).phase == SeqPhase::Reacquiring,
        ensures
            final(self).wf(),
            final(self).steps@ == old(self).steps@,
            final(self).loop_sequence == old(self).loop_sequence,
            final(self).repeat_count == old(self).repeat_count,
            final(self).step_index == old(self).step_index,
            final(self).delivered@ == old(self).delivered@,
            final(self).passes@ == old(self).passes@,
            final(self).clean@ == false,
            success ==> final(self).phase == SeqPhase::Ready && final(self).retried == true,
            !success ==> final(self).phase == SeqPhase::Done,
    {
        proof {
            assert(!self.clean@);
        }
        if success {
            self.retried = true;
            self.phase = SeqPhase::Ready;
        } else {
            self.phase = SeqPhase::Done;
        }
    }
}

proof fn lemma_canonical_push(n: int, full: int, extra: int)
    requires
        0 <= extra < n,
        full >= 0,
    ensures
        canonical_trace(n, full, extra).push(extra) == canonical_trace(n, full, extra + 1),
{
    lemma_mod_multiples_vanish(full, extra, n);
    lemma_small_mod(extra as nat, n as nat);
    assert(full * n == n * full) by (nonlinear_arith);
    assert(full * n + extra >= 0) by (nonlinear_arith)
        requires
            full >= 0,
            n > 0,
            extra >= 0,
    ;
    assert((n * full + extra) % n == extra % n);
    assert((full * n + extra) % n == extra);
    assert(canonical_trace(n, full, extra).push(extra) =~= canonical_trace(n, full, extra + 1));
}

proof fn lemma_canonical_wrap(n: int, full: int)
    requires
        n > 0,
        full >= 0,
    ensures
        canonical_trace(n, full, n) == canonical_trace(n, full + 1, 0),
{
    assert(full * n + n == (full + 1) * n) by (nonlinear_arith);
    assert(canonical_trace(n, full, n) =~= canonical_trace(n, full + 1, 0));
}

/// A sequence run without looping that finished cleanly delivered
/// every step exactly once, in configured order: its trace is exactly
/// `0, 1, …, n-1`.
pub proof fn lemma_run_once_in_order(d: SequenceDriver)
    requires
        d.wf(),
        d.clean@,
        !d.loop_sequence,
        d.phase == SeqPhase::Done,
        d.steps@.len() > 0,
    ensures
        d.delivered@.len() == d.steps@.len(),
        d.delivered@ == Seq::new(d.steps@.len(), |k: int| k),
{
    let n = d.steps@.len() as int;
    assert forall|k: int| 0 <= k < n implies #[trigger] (k % n) == k by {
        lemma_small_mod(k as nat, n as nat);
    }
    assert(d.delivered@ =~= Seq::new(d.steps@.len(), |k: int| k));
}

/// A looping run bounded to `repeat_count` passes that finished
/// cleanly delivered the full sequence exactly `repeat_count` times:
/// its trace has `repeat_count * n` entries and entry `k` is step
/// `k % n`.
pub proof fn lemma_bounded_repeat(d: SequenceDriver)
    requires
        d.wf(),
        d.clean@,
        d.loop_sequence,
        d.repeat_count > 0,
        d.phase == SeqPhase::Done,
        d.steps@.len() > 0,
    ensures
        d.delivered@.len() == d.repeat_count * d.steps@.len(),
        forall|k: int|
            0 <= k < d.delivered@.len() ==> #[trigger] d.delivered@[k] == k % (
            d.steps@.len() as int),
{
    let n = d.steps@.len() as int;
    assert(d.repeat_count * n >= 0) by (nonlinear_arith)
        requires
            n > 0,
            d.repeat_count > 0,
    ;
}

/// A clean looping driver with `repeat_count == 0` is never `Done`:
/// with nothing failing, only external cancellation ends it.
pub proof fn lemma_unbounded_never_completes(d: SequenceDriver)
    requires
        d.wf(),
        d.clean@,
        d.loop_sequence,
        d.repeat_count == 0,
        d.steps@.len() > 0,
    ensures
        d.phase != SeqPhase::Done,
{
}

/// While the pause overlay is set, the driver never commands an
/// injection, whatever state it is in.
pub proof fn lemma_paused_never_injects(d: SequenceDriver, paused: bool)
    requires
        paused,
    ensures
        !(d.spec_next_command(paused) matches SeqCommand::Inject(_)),
{
}

} // verus!
