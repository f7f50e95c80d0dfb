//! The hand-off of snapshots from the simulation to the renderer.
//!
//! The hand-off is a single slot that the simulation overwrites. The
//! simulation never waits for the renderer: it always succeeds at once, and the
//! renderer sees the most recent snapshot only. A snapshot that the renderer
//! did not fetch in time is dropped. The alternative, a queue of depth one on
//! which the simulation blocks, would deliver every snapshot in order but tie
//! the length of a tick to the renderer's pace. Whoever shares a slot between
//! threads guards it with a lock of its own.
use vstd::prelude::*;
use crate::draw_state::DrawState;

verus! {

/// A slot for the most recent snapshot.
pub struct FrameSlot {
    latest: Option<DrawState>,
}

impl View for FrameSlot {
    type V = Option<DrawState>;

    closed spec fn view(&self) -> Option<DrawState> {
        self.latest
    }
}

impl FrameSlot {
    /// An empty slot.
    pub fn new() -> (slot: FrameSlot)
        ensures
            slot@ is None,
    {
        FrameSlot { latest: None }
    }

    /// Puts a snapshot into the slot in place of what was there. Returns
    /// whether a snapshot that nobody fetched was dropped.
    pub fn publish(&mut self, state: DrawState) -> (dropped: bool)
        ensures
            final(self)@ == Some(state),
            dropped == old(self)@ is Some,
    {
        let dropped = self.latest.is_some();
        self.latest = Some(state);
        dropped
    }

    /// Fetches the snapshot and leaves the slot empty.
    pub fn take(&mut self) -> (state: Option<DrawState>)
        ensures
            state == old(self)@,
            final(self)@ is None,
    {
        self.latest.take()
    }
}

} // verus!
