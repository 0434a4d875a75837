use vstd::prelude::*;
use crate::frame::{ControlFrame, FRAME_LEN};

verus! {

/// Decoded pilot command: four unsigned 8-bit channels.
#[derive(Clone, Copy, Debug, PartialEq, Eq, Structural)]
pub struct Intent {
    pub roll: u8,
    pub pitch: u8,
    pub yaw: u8,
    pub throttle: u8,
}

/// The intent a complete frame carries in bytes 1 through 4.
pub open spec fn intent_of_frame(bytes: Seq<u8>) -> Intent
    recommends
        bytes.len() == FRAME_LEN,
{
    Intent { roll: bytes[1], pitch: bytes[2], yaw: bytes[3], throttle: bytes[4] }
}

/// Decodes the four command bytes of a complete frame.
pub fn decode_frame(frame: &ControlFrame) -> (r: Intent)
    ensures
        r == intent_of_frame(frame@),
{
    Intent { roll: frame[1], pitch: frame[2], yaw: frame[3], throttle: frame[4] }
}

/// Single-slot register holding the latest validated control intent:
/// written by the main loop, read by the timer interrupt, each access
/// under a critical section of the surrounding layer. Last write wins;
/// every read observes the most recently committed value. A lost link
/// changes nothing here — there is deliberately no timeout or failsafe.
pub struct IntentStore {
    current: Intent,
}

impl IntentStore {
    /// The most recently committed intent.
    pub closed spec fn current_spec(self) -> Intent {
        self.current
    }

    /// A fresh store: all channels at zero.
    pub fn new() -> (r: Self)
        ensures
            r.current_spec() == (Intent { roll: 0, pitch: 0, yaw: 0, throttle: 0 }),
    {
        IntentStore { current: Intent { roll: 0, pitch: 0, yaw: 0, throttle: 0 } }
    }

    /// Commits a validated intent, replacing the previous one.
    pub fn set_intent(&mut self, intent: Intent)
        ensures
            final(self).current_spec() == intent,
    {
        self.current = intent;
    }

    /// Reads the most recently committed intent.
    pub fn get_intent(&self) -> (r: Intent)
        ensures
            r == self.current_spec(),
    {
        self.current
    }
}

} // verus!
