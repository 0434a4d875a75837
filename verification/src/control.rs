use vstd::prelude::*;
use crate::frame::frame_valid;
use crate::intent::{decode_frame, intent_of_frame, IntentStore};
use crate::mailbox::SharedFrameBuffer;
use crate::receiver::{next_buf, next_cursor, step_emits, FrameReceiver};

verus! {

/// What one main-loop poll of the command link did.
#[derive(Clone, Copy, Debug, PartialEq, Eq, Structural)]
pub enum PollOutcome {
    /// No completed frame was waiting.
    NoFrame,
    /// A frame was waiting, validated, and its intent committed.
    Committed,
    /// A frame was waiting but failed validation; it was discarded and the
    /// intent left untouched. The caller may emit a diagnostic.
    Rejected,
}

/// One UART-interrupt step after a successful byte read: advances the
/// receiver and, when this byte completes a frame, copies it into the
/// mailbox and sets the ready flag as one pair, overwriting any unread
/// frame (drop-oldest). On a read miss the handler does not call this, so
/// the partial frame stands untouched for the next interrupt.
pub fn on_serial_byte(recv: &mut FrameReceiver, mailbox: &mut SharedFrameBuffer, byte: u8)
    ensures
        final(recv).cursor_spec() == next_cursor(old(recv).cursor_spec(), byte),
        final(recv).buf_spec() == next_buf(old(recv).cursor_spec(), old(recv).buf_spec(), byte),
        step_emits(old(recv).cursor_spec(), byte) ==> final(mailbox).ready_spec()
            && final(mailbox).slot_spec() == final(recv).buf_spec(),
        !step_emits(old(recv).cursor_spec(), byte) ==> final(mailbox).ready_spec() == old(
            mailbox,
        ).ready_spec() && final(mailbox).slot_spec() == old(mailbox).slot_spec(),
{
    if let Some(frame) = recv.push_byte(byte) {
        mailbox.publish(&frame);
    }
}

/// One main-loop poll: takes the completed frame from the mailbox if one
/// waits, validates its checksum, and commits its intent. An invalid frame
/// is discarded with the intent left unchanged — fail-safe by inaction:
/// the last known-good intent continues to apply.
pub fn poll_ground_control(mailbox: &mut SharedFrameBuffer, store: &mut IntentStore) -> (r:
    PollOutcome)
    ensures
        (r is NoFrame <==> !old(mailbox).ready_spec()),
        (r is Committed <==> old(mailbox).ready_spec() && frame_valid(old(mailbox).slot_spec())),
        (r is Rejected <==> old(mailbox).ready_spec() && !frame_valid(old(mailbox).slot_spec())),
        r is Committed ==> final(store).current_spec() == intent_of_frame(
            old(mailbox).slot_spec(),
        ),
        !(r is Committed) ==> final(store).current_spec() == old(store).current_spec(),
        !final(mailbox).ready_spec(),
        final(mailbox).slot_spec() == old(mailbox).slot_spec(),
{
    match mailbox.take_frame() {
        None => PollOutcome::NoFrame,
        Some(frame) => {
            if crate::frame::check_crc(&frame) {
                store.set_intent(decode_frame(&frame));
                PollOutcome::Committed
            } else {
                PollOutcome::Rejected
            }
        },
    }
}

} // verus!
