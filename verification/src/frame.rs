use vstd::prelude::*;

verus! {

/// Marker byte that delimits command frames on the serial link.
pub const START_BYTE: u8 = 0xAA;

/// Number of bytes in one command frame: the start marker, four command
/// bytes (roll, pitch, yaw, throttle), and a trailing checksum byte.
pub const FRAME_LEN: usize = 6;

/// One ground-control command frame:
/// `[START_BYTE, roll, pitch, yaw, throttle, checksum]`.
pub type ControlFrame = [u8; 6];

/// The frame checksum: the sum of bytes 0 through 4, truncated to 8 bits.
/// The link protocol leaves the algorithm to the implementation; this crate
/// uses this modular sum, and `check_crc` holds every frame to it.
pub open spec fn checksum_spec(bytes: Seq<u8>) -> u8
    recommends
        bytes.len() >= 5,
{
    (((bytes[0] + bytes[1] + bytes[2] + bytes[3] + bytes[4]) % 256) as u8)
}

/// A complete frame is valid when its last byte equals the checksum of the
/// five bytes before it.
pub open spec fn frame_valid(bytes: Seq<u8>) -> bool
    recommends
        bytes.len() == FRAME_LEN,
{
    bytes[5] == checksum_spec(bytes)
}

/// Computes the checksum over a frame's first five bytes.
pub fn frame_checksum(frame: &ControlFrame) -> (r: u8)
    ensures
        r == checksum_spec(frame@),
{
    let sum: u32 = frame[0] as u32 + frame[1] as u32 + frame[2] as u32
        + frame[3] as u32 + frame[4] as u32;
    (sum % 256) as u8
}

/// Validates a complete frame: true exactly when the checksum byte matches
/// the checksum of the preceding payload bytes. A frame that fails here must
/// not update the control intent.
pub fn check_crc(frame: &ControlFrame) -> (r: bool)
    ensures
        r == frame_valid(frame@),
{
    frame[5] == frame_checksum(frame)
}

} // verus!
