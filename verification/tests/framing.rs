use flight_core::frame::{check_crc, frame_checksum, ControlFrame};
use flight_core::receiver::FrameReceiver;

#[test]
fn frame_emitted_on_exact_boundary() {
    let mut r = FrameReceiver::new();
    let frames = r.feed(&vec![0xAA, 0x01, 0x02, 0x03, 0x04, 0x05]);
    assert_eq!(frames, vec![[0xAA, 0x01, 0x02, 0x03, 0x04, 0x05]]);
}

#[test]
fn no_frame_without_start_marker() {
    let mut r = FrameReceiver::new();
    let frames = r.feed(&vec![0x01, 0x02, 0x03, 0x04, 0x05, 0x06, 0x07]);
    assert!(frames.is_empty());
}

#[test]
fn no_frame_from_short_tail() {
    let mut r = FrameReceiver::new();
    let frames = r.feed(&vec![0xAA, 0x01, 0x02, 0x03, 0x04]);
    assert!(frames.is_empty());
}

#[test]
fn empty_stream_yields_nothing() {
    let mut r = FrameReceiver::new();
    let frames = r.feed(&vec![]);
    assert!(frames.is_empty());
}

#[test]
fn resync_discards_partial_frame() {
    // A second start marker mid-frame restarts assembly: exactly one frame
    // comes out, and the bytes before the second marker are lost.
    let mut r = FrameReceiver::new();
    let frames = r.feed(&vec![0xAA, 0x01, 0xAA, 0x02, 0x03, 0x04, 0x05, 0x06]);
    assert_eq!(frames, vec![[0xAA, 0x02, 0x03, 0x04, 0x05, 0x06]]);
}

#[test]
fn bytes_after_complete_frame_are_discarded_until_marker() {
    let mut r = FrameReceiver::new();
    let frames = r.feed(&vec![
        0xAA, 0x01, 0x02, 0x03, 0x04, 0x05, // one frame
        0x10, 0x11, 0x12, // noise, no marker
        0xAA, 0x06, 0x07, 0x08, 0x09, 0x0A, // second frame
    ]);
    assert_eq!(
        frames,
        vec![
            [0xAA, 0x01, 0x02, 0x03, 0x04, 0x05],
            [0xAA, 0x06, 0x07, 0x08, 0x09, 0x0A],
        ]
    );
}

#[test]
fn push_byte_reports_completion_only_at_sixth_byte() {
    let mut r = FrameReceiver::new();
    assert_eq!(r.push_byte(0xAA), None);
    assert_eq!(r.push_byte(0x01), None);
    assert_eq!(r.push_byte(0x02), None);
    assert_eq!(r.push_byte(0x03), None);
    assert_eq!(r.push_byte(0x04), None);
    assert_eq!(r.push_byte(0x05), Some([0xAA, 0x01, 0x02, 0x03, 0x04, 0x05]));
}

#[test]
fn checksum_is_modular_sum_of_first_five_bytes() {
    let f: ControlFrame = [0xAA, 0x10, 0x20, 0x30, 0x40, 0x00];
    // 0xAA + 0x10 + 0x20 + 0x30 + 0x40 = 330; 330 mod 256 = 74 = 0x4A
    assert_eq!(frame_checksum(&f), 0x4A);
    let g: ControlFrame = [0xAA, 0xFF, 0xFF, 0xFF, 0xFF, 0x00];
    // 170 + 4 * 255 = 1190; 1190 mod 256 = 166 = 0xA6
    assert_eq!(frame_checksum(&g), 0xA6);
}

#[test]
fn validator_accepts_exactly_the_matching_checksum_byte() {
    for b in 0..=255u8 {
        let f: ControlFrame = [0xAA, 0x10, 0x20, 0x30, 0x40, b];
        assert_eq!(check_crc(&f), b == 0x4A);
    }
}
