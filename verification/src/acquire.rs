//! Process acquisition with bounded retry.
//!
//! A pure state machine for resolving a process name to a handle:
//! look the name up, back off for a fixed interval on a miss, and
//! give up with `ProcessNotFound` after exactly `max_retries` lookup
//! attempts.  The surrounding task performs the lookups (through the
//! process finder) and the backoff sleeps, which must not block other
//! delivery tasks.

use vstd::prelude::*;
use crate::error::PksError;

verus! {

/// The fixed backoff between lookup attempts, in milliseconds.
pub const ACQUIRE_BACKOFF_MS: u64 = 1000;

/// Where acquisition stands.
#[derive(Clone, Copy, Debug, PartialEq, Eq, Structural)]
pub enum AcqPhase {
    /// A lookup attempt is due.
    Looking,
    /// The backoff after a miss is being waited out.
    Backoff,
    /// A handle was found.
    Acquired,
    /// Every attempt missed; acquisition failed.
    Failed,
}

/// What the acquiring task should do next.
#[derive(Clone, Copy, Debug, PartialEq, Eq, Structural)]
pub enum AcqCommand {
    /// Query the locator once for the process name.
    Lookup,
    /// Wait this many milliseconds before the next lookup.
    Backoff(u64),
    /// Acquisition succeeded with this handle.
    Ready(u64),
    /// Acquisition exhausted its attempts; the run cannot proceed.
    GiveUp,
}

/// The acquisition state machine.
pub struct Acquisition {
    /// The process name being looked for.
    pub name: String,
    /// How many lookup attempts are allowed.
    pub max_retries: u32,
    /// How many lookup attempts were made.
    pub attempts: u32,
    /// Where acquisition stands.
    pub phase: AcqPhase,
    /// The handle found, meaningful in `Acquired`.
    pub handle: u64,
}

impl Acquisition {
    /// The machine's invariant: attempts never pass the limit, a
    /// pending lookup means the limit is not yet reached, and failure
    /// means the limit was reached exactly.
    pub open spec fn wf(self) -> bool {
        &&& self.max_retries > 0
        &&& self.attempts <= self.max_retries
        &&& (self.phase == AcqPhase::Looking ==> self.attempts < self.max_retries)
        &&& (self.phase == AcqPhase::Backoff ==> self.attempts < self.max_retries)
        &&& (self.phase == AcqPhase::Failed ==> self.attempts == self.max_retries)
    }

    /// Start acquiring `name`, with the first lookup due at once.
    pub fn new(name: String, max_retries: u32) -> (a: Acquisition)
        requires
            max_retries > 0,
        ensures
            a.wf(),
            a.name@ == name@,
            a.max_retries == max_retries,
            a.attempts == 0,
            a.phase == AcqPhase::Looking,
    {
        Acquisition { name, max_retries, attempts: 0, phase: AcqPhase::Looking, handle: 0 }
    }

    /// What the next command is, as a function of the state.
    pub open spec fn spec_next_command(self) -> AcqCommand {
        match self.phase {
            AcqPhase::Looking => AcqCommand::Lookup,
            AcqPhase::Backoff => AcqCommand::Backoff(ACQUIRE_BACKOFF_MS as u64),
            AcqPhase::Acquired => AcqCommand::Ready(self.handle),
            AcqPhase::Failed => AcqCommand::GiveUp,
        }
    }

    /// Ask the machine what to do now.
    pub fn next_command(&self) -> (c: AcqCommand)
        requires
            self.wf(),
        ensures
            c == self.spec_next_command(),
    {
        match self.phase {
            AcqPhase::Looking => AcqCommand::Lookup,
            AcqPhase::Backoff => AcqCommand::Backoff(ACQUIRE_BACKOFF_MS),
            AcqPhase::Acquired => AcqCommand::Ready(self.handle),
            AcqPhase::Failed => AcqCommand::GiveUp,
        }
    }

    /// Record the result of the commanded lookup.  Every call counts
    /// one attempt; a hit acquires its handle, and the miss that
    /// spends the last allowed attempt fails the acquisition — so a
    /// locator that never finds the process is queried exactly
    /// `max_retries` times.
    pub fn on_lookup_result(&mut self, found: Option<u64>)
        requires
            old(self).wf(),
            old(self).phase == AcqPhase::Looking,
        ensures
            final(self).wf(),
            final(self).name@ == old(self).name@,
            final(self).max_retries == old(self).max_retries,
            final(self).attempts == old(self).attempts + 1,
            found matches Some(h) ==> final(self).phase == AcqPhase::Acquired && final(self).handle
                == h,
            found is None && old(self).attempts + 1 == old(self).max_retries ==> final(self).phase
                == AcqPhase::Failed,
            found is None && old(self).attempts + 1 < old(self).max_retries ==> final(self).phase
                == AcqPhase::Backoff,
    {
        self.attempts = self.attempts + 1;
        match found {
            Some(h) => {
                self.handle = h;
                self.phase = AcqPhase::Acquired;
            },
            None => {
                if self.attempts == self.max_retries {
                    self.phase = AcqPhase::Failed;
                } else {
                    self.phase = AcqPhase::Backoff;
                }
            },
        }
    }

    /// The commanded backoff has elapsed: the next lookup is due.
    pub fn on_backoff_done(&mut self)
        requires
            old(self).wf(),
            old(self).phase == AcqPhase::Backoff,
        ensures
            final(self).wf(),
            final(self).name@ == old(self).name@,
            final(self).max_retries == old(self).max_retries,
            final(self).attempts == old(self).attempts,
            final(self).phase == AcqPhase::Looking,
    {
        proof {
            assert(self.attempts < self.max_retries);
        }
        self.phase = AcqPhase::Looking;
    }

    /// The error a failed acquisition reports: `ProcessNotFound`
    /// naming the process and the full number of attempts made.
    pub fn error(&self) -> (e: PksError)
        requires
            self.wf(),
            self.phase == AcqPhase::Failed,
        ensures
            e matches PksError::ProcessNotFound { name, retries } && name@ == self.name@ && retries
                == self.max_retries && retries == self.attempts,
    {
        PksError::ProcessNotFound { name: self.name.clone(), retries: self.max_retries }
    }
}

/// Acquisition that fails made exactly `max_retries` lookup attempts:
/// each lookup outcome counts one attempt, and the `Failed` state is
/// reached only when the count equals the configured limit.
pub proof fn lemma_failure_exhausts_attempts(a: Acquisition)
    requires
        a.wf(),
        a.phase == AcqPhase::Failed,
    ensures
        a.attempts == a.max_retries,
{
}

} // verus!
