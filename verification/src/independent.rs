//! The independent-key driver.
//!
//! One instance runs per configured independent key, concurrently with
//! the sequence driver and with each other, at arbitrary relative
//! phase.  Each cycles: inject the key, wait its fixed interval,
//! repeat — without a terminal state of its own; only cancellation or
//! a fatal acquisition failure stops it.  Pause and re-acquisition
//! follow the same rules as the sequence driver, scoped to this
//! driver's own injections.  As there, the pause overlay holds the
//! driver between actions: a commanded wait runs to completion and
//! the hold comes before the next injection, so the cycle's phase is
//! kept rather than reset — and no injection is commanded while
//! paused.

use vstd::prelude::*;
use crate::config::IndependentKey;
use crate::sequence::StepOutcome;

verus! {

/// Where the driver stands.
#[derive(Clone, Copy, Debug, PartialEq, Eq, Structural)]
pub enum IndPhase {
    /// The key is due to be injected.
    Ready,
    /// The interval is being waited out.
    Waiting,
    /// The target was lost; one re-acquisition is due before this
    /// cycle is retried or abandoned.
    Reacquiring,
    /// Acquisition failed fatally; the driver stops.
    Stopped,
}

/// What the independent-key task should do next.
#[derive(Clone, Copy, Debug, PartialEq, Eq, Structural)]
pub enum IndCommand {
    /// Inject the key.
    Inject,
    /// Wait this many milliseconds (cancellably).
    Wait(u64),
    /// Perform one single-flight re-acquisition (see `refresh`).
    Reacquire,
    /// Delivery is paused; wait for the pause state to clear.
    HoldPaused,
    /// The driver was stopped by a fatal failure; the task can end.
    Finished,
}

/// The driver for one independent key.
pub struct IndependentDriver {
    /// The key token to inject.
    pub key: String,
    /// The fixed repeat interval, in milliseconds.
    pub interval: u64,
    /// Where the driver stands.
    pub phase: IndPhase,
    /// Whether the current cycle already used its one re-acquisition.
    pub retried: bool,
    /// How many injections were delivered.
    pub injections: Ghost<int>,
}

impl IndependentDriver {
    /// The machine's invariant.
    pub open spec fn wf(self) -> bool {
        self.injections@ >= 0
    }

    /// Start the driver for one configured independent key, ready to
    /// inject at once.
    pub fn new(key: IndependentKey) -> (d: IndependentDriver)
        ensures
            d.wf(),
            d.key@ == key.key@,
            d.interval == key.interval,
            d.phase == IndPhase::Ready,
            d.retried == false,
            d.injections@ == 0,
    {
        IndependentDriver {
            key: key.key,
            interval: key.interval,
            phase: IndPhase::Ready,
            retried: false,
            injections: Ghost(0),
        }
    }

    /// What the next command is, as a function of the state and the
    /// pause flag.
    pub open spec fn spec_next_command(self, paused: bool) -> IndCommand {
        if self.phase == IndPhase::Stopped {
            IndCommand::Finished
        } else if paused {
            IndCommand::HoldPaused
        } else {
            match self.phase {
                IndPhase::Ready => IndCommand::Inject,
                IndPhase::Waiting => IndCommand::Wait(self.interval),
                IndPhase::Reacquiring => IndCommand::Reacquire,
                IndPhase::Stopped => IndCommand::Finished,
            }
        }
    }

    /// Ask the driver what to do now.  While the pause overlay is set
    /// no injection is ever commanded.
    pub fn next_command(&self, paused: bool) -> (c: IndCommand)
        requires
            self.wf(),
        ensures
            c == self.spec_next_command(paused),
            paused ==> c != IndCommand::Inject,
    {
        match self.phase {
            IndPhase::Stopped => IndCommand::Finished,
            _ => {
                if paused {
                    IndCommand::HoldPaused
                } else {
                    match self.phase {
                        IndPhase::Ready => IndCommand::Inject,
                        IndPhase::Waiting => IndCommand::Wait(self.interval),
                        IndPhase::Reacquiring => IndCommand::Reacquire,
                        IndPhase::Stopped => IndCommand::Finished,
                    }
                }
            },
        }
    }

    /// Record the outcome of the commanded injection.  Delivery moves
    /// to the wait; a lost target asks for exactly one re-acquisition
    /// per cycle, after which the cycle is abandoned through the wait,
    /// as for any other rejection.
    pub fn on_inject_result(&mut self, outcome: StepOutcome)
        requires
            old(self).wf(),
            old(self).phase == IndPhase::Ready,
        ensures
            final(self).wf(),
            final(self).key@ == old(self).key@,
            final(self).interval == old(self).interval,
            outcome == StepOutcome::Delivered ==> final(self).phase == IndPhase::Waiting && final(self).injections@ == old(self).injections@ + 1 && final(self).retried == old(self).retried,
            outcome == StepOutcome::TargetGone && !old(self).retried ==> final(self).phase
                == IndPhase::Reacquiring && final(self).injections@ == old(self).injections@
                && final(self).retried == false,
            (outcome == StepOutcome::TargetGone && old(self).retried) || outcome
                == StepOutcome::Rejected ==> final(self).phase == IndPhase::Waiting && final(self).injections@ == old(self).injections@ && final(self).retried == old(self).retried,
    {
        match outcome {
            StepOutcome::Delivered => {
                self.injections = Ghost(self.injections@ + 1);
                self.phase = IndPhase::Waiting;
            },
            StepOutcome::TargetGone => {
                if !self.retried {
                    self.phase = IndPhase::Reacquiring;
                } else {
                    self.phase = IndPhase::Waiting;
                }
            },
            StepOutcome::Rejected => {
                self.phase = IndPhase::Waiting;
            },
        }
    }

    /// The commanded wait has elapsed: the next cycle begins, with a
    /// fresh re-acquisition allowance.
    pub fn on_wait_finished(&mut self)
        requires
            old(self).wf(),
            old(self).phase == IndPhase::Waiting,
        ensures
            final(self).wf(),
            final(self).key@ == old(self).key@,
            final(self).interval == old(self).interval,
            final(self).injections@ == old(self).injections@,
            final(self).phase == IndPhase::Ready,
            final(self).retried == false,
    {
        self.retried = false;
        self.phase = IndPhase::Ready;
    }

    /// Record the outcome of the commanded re-acquisition.  On success
    /// the same cycle's injection is retried with its one
    /// re-acquisition spent; a failed re-acquisition is fatal and
    /// stops the driver.
    pub fn on_reacquired(&mut self, success: bool)
        requires
            old(self).wf(),
            old(self).phase == IndPhase::Reacquiring,
        ensures
            final(self).wf(),
            final(self).key@ == old(self).key@,
            final(self).interval == old(self).interval,
            final(self).injections@ == old(self).injections@,
            success ==> final(self).phase == IndPhase::Ready && final(self).retried == true,
            !success ==> final(self).phase == IndPhase::Stopped,
    {
        if success {
            self.retried = true;
            self.phase = IndPhase::Ready;
        } else {
            self.phase = IndPhase::Stopped;
        }
    }
}

/// While the pause overlay is set, an independent-key driver never
/// commands an injection, whatever state it is in.
pub proof fn lemma_independent_paused_never_injects(d: IndependentDriver, paused: bool)
    requires
        paused,
    ensures
        d.spec_next_command(paused) != IndCommand::Inject,
{
}

} // verus!
