//! Single-flight handle refresh.
//!
//! The process handle is the one mutable resource the delivery tasks
//! share.  Each task works from a snapshot of the handle and its
//! generation number.  When an injection reports the target gone, the
//! task asks the cell for a refresh, quoting the generation it saw:
//! the first asker for a generation becomes the leader and performs
//! the lookup; anyone else asking while it runs is a follower and
//! only waits; and a task quoting an old generation is told the
//! handle was already refreshed and simply re-reads it.  Concurrent
//! failures therefore collapse into a single re-acquisition.
//!
//! The binary serialises calls into the cell with a mutex; the
//! machine proves what each serialised call decides.

use vstd::prelude::*;

verus! {

/// What a task asking for a refresh is told to do.
#[derive(Clone, Copy, Debug, PartialEq, Eq, Structural)]
pub enum RefreshRole {
    /// Perform the lookup and call `complete_refresh` with the result.
    Leader,
    /// A leader is already looking; wait for the generation to move.
    Follower,
    /// The handle was refreshed since the quoted snapshot; re-read it.
    AlreadyRefreshed,
}

/// The shared, swappable process-handle cell.
pub struct HandleCell {
    /// The current handle.
    pub handle: u64,
    /// How many refreshes have completed.
    pub generation: u64,
    /// Whether a leader is currently refreshing.
    pub refreshing: bool,
}

/// What one `request_refresh` call decides, as a function of the cell
/// and the generation the asker saw.
pub open spec fn spec_request(c: HandleCell, seen: u64) -> (HandleCell, RefreshRole) {
    if seen < c.generation {
        (c, RefreshRole::AlreadyRefreshed)
    } else if c.refreshing {
        (c, RefreshRole::Follower)
    } else {
        (HandleCell { refreshing: true, ..c }, RefreshRole::Leader)
    }
}

impl HandleCell {
    /// Start with an acquired handle at generation zero.
    pub fn new(handle: u64) -> (c: HandleCell)
        ensures
            c.handle == handle,
            c.generation == 0,
            c.refreshing == false,
    {
        HandleCell { handle, generation: 0, refreshing: false }
    }

    /// The snapshot a task works from: the handle and its generation.
    pub fn snapshot(&self) -> (s: (u64, u64))
        ensures
            s.0 == self.handle,
            s.1 == self.generation,
    {
        (self.handle, self.generation)
    }

    /// Ask for a refresh after a failure, quoting the generation the
    /// asker saw.  At most one asker per generation is made leader:
    /// while a refresh runs every asker is a follower, and after it
    /// completes askers with the old snapshot are told so.
    pub fn request_refresh(&mut self, seen: u64) -> (role: RefreshRole)
        requires
            seen <= old(self).generation,
        ensures
            *final(self) == spec_request(*old(self), seen).0,
            role == spec_request(*old(self), seen).1,
            role == RefreshRole::Leader <==> (seen == old(self).generation && !old(
                self,
            ).refreshing),
            final(self).handle == old(self).handle,
            final(self).generation == old(self).generation,
    {
        if seen < self.generation {
            RefreshRole::AlreadyRefreshed
        } else if self.refreshing {
            RefreshRole::Follower
        } else {
            self.refreshing = true;
            RefreshRole::Leader
        }
    }

    /// The leader publishes the re-acquired handle: the generation
    /// moves and the cell is open for the next single flight.
    pub fn complete_refresh(&mut self, new_handle: u64)
        requires
            old(self).refreshing,
            old(self).generation < u64::MAX,
        ensures
            final(self).handle == new_handle,
            final(self).generation == old(self).generation + 1,
            final(self).refreshing == false,
    {
        self.handle = new_handle;
        self.generation = self.generation + 1;
        self.refreshing = false;
    }
}

/// Concurrent failures collapse into one re-acquisition: when two
/// tasks that saw the same generation ask for a refresh one after the
/// other, the first becomes the leader and the second only follows —
/// no second lookup is started.
pub proof fn lemma_concurrent_failures_collapse(c: HandleCell, seen: u64)
    requires
        !c.refreshing,
        seen == c.generation,
    ensures
        spec_request(c, seen).1 == RefreshRole::Leader,
        spec_request(spec_request(c, seen).0, seen).1 == RefreshRole::Follower,
{
}

} // verus!
