use vstd::prelude::*;
use crate::frame::ControlFrame;

verus! {

/// What a poll of the mailbox returns: the buffered frame when one is
/// ready, and nothing otherwise.
pub open spec fn take_result(slot: Seq<u8>, ready: bool) -> Option<Seq<u8>> {
    if ready {
        Some(slot)
    } else {
        None
    }
}

/// Single-slot mailbox handing one completed frame from the receiving
/// (interrupt) context to the main loop. The surrounding layer wraps every
/// call in a critical section; the methods only copy in or copy out, so
/// the section stays minimal and never blocks. At most one unread frame is
/// ever buffered: publishing over an unread frame overwrites it
/// (drop-oldest, no queueing).
pub struct SharedFrameBuffer {
    slot: ControlFrame,
    ready: bool,
}

impl SharedFrameBuffer {
    /// Whether an unread frame is buffered.
    pub closed spec fn ready_spec(self) -> bool {
        self.ready
    }

    /// The bytes of the buffered slot.
    pub closed spec fn slot_spec(self) -> Seq<u8> {
        self.slot@
    }

    /// An empty mailbox: nothing ready.
    pub fn new() -> (r: Self)
        ensures
            !r.ready_spec(),
    {
        SharedFrameBuffer { slot: [0u8, 0u8, 0u8, 0u8, 0u8, 0u8], ready: false }
    }

    /// Producer side: stores a completed frame and marks it ready, as one
    /// atomic pair under the caller's critical section. An unread frame is
    /// silently overwritten.
    pub fn publish(&mut self, frame: &ControlFrame)
        ensures
            final(self).ready_spec(),
            final(self).slot_spec() == frame@,
    {
        self.slot = *frame;
        self.ready = true;
    }

    /// Consumer side: returns the buffered frame and clears the ready
    /// flag if a frame is ready, and returns nothing otherwise.
    pub fn take_frame(&mut self) -> (r: Option<ControlFrame>)
        ensures
            r matches Some(f) ==> Some(f@) == take_result(
                old(self).slot_spec(),
                old(self).ready_spec(),
            ),
            r is None ==> take_result(old(self).slot_spec(), old(self).ready_spec()) is None,
            !final(self).ready_spec(),
            final(self).slot_spec() == old(self).slot_spec(),
    {
        if self.ready {
            self.ready = false;
            Some(self.slot)
        } else {
            None
        }
    }
}

/// The handoff law: a published frame is delivered exactly once when the
/// consumer polls before the next frame completes. After `publish` the
/// mailbox holds `(f, ready)`; the first poll of that state yields the
/// frame, and — since `take_frame` always leaves the flag cleared and the
/// slot unchanged — a second poll before any further publish yields
/// nothing.
pub proof fn lemma_handoff(f: Seq<u8>)
    ensures
        take_result(f, true) == Some(f),
        take_result(f, false) is None,
{
}

} // verus!
