use flight_core::control::{on_serial_byte, poll_ground_control, PollOutcome};
use flight_core::intent::{decode_frame, Intent, IntentStore};
use flight_core::mailbox::SharedFrameBuffer;
use flight_core::motors::{
    compute_esc_duty, timer_tick, update_esc_duty, HoverMixer, Mixer, PassthroughMixer,
    ESC_PERIOD_US,
};
use flight_core::receiver::FrameReceiver;

#[test]
fn take_frame_on_empty_mailbox_is_none() {
    let mut mb = SharedFrameBuffer::new();
    assert_eq!(mb.take_frame(), None);
}

#[test]
fn handoff_delivers_exactly_once() {
    let mut mb = SharedFrameBuffer::new();
    mb.publish(&[0xAA, 1, 2, 3, 4, 5]);
    assert_eq!(mb.take_frame(), Some([0xAA, 1, 2, 3, 4, 5]));
    assert_eq!(mb.take_frame(), None);
}

#[test]
fn unread_frame_is_overwritten_drop_oldest() {
    let mut mb = SharedFrameBuffer::new();
    mb.publish(&[0xAA, 1, 2, 3, 4, 5]);
    mb.publish(&[0xAA, 6, 7, 8, 9, 10]);
    assert_eq!(mb.take_frame(), Some([0xAA, 6, 7, 8, 9, 10]));
    assert_eq!(mb.take_frame(), None);
}

#[test]
fn intent_store_last_write_wins() {
    let mut store = IntentStore::new();
    assert_eq!(
        store.get_intent(),
        Intent { roll: 0, pitch: 0, yaw: 0, throttle: 0 }
    );
    store.set_intent(Intent { roll: 1, pitch: 2, yaw: 3, throttle: 4 });
    store.set_intent(Intent { roll: 5, pitch: 6, yaw: 7, throttle: 8 });
    assert_eq!(
        store.get_intent(),
        Intent { roll: 5, pitch: 6, yaw: 7, throttle: 8 }
    );
}

#[test]
fn decode_reads_the_four_command_bytes() {
    let i = decode_frame(&[0xAA, 0x11, 0x22, 0x33, 0x44, 0x00]);
    assert_eq!(i, Intent { roll: 0x11, pitch: 0x22, yaw: 0x33, throttle: 0x44 });
}

#[test]
fn duty_clamps_to_max_when_pulse_exceeds_period() {
    assert_eq!(compute_esc_duty(ESC_PERIOD_US + 1, 1234), 1234);
    assert_eq!(compute_esc_duty(5000, 2000), 2000);
    assert_eq!(compute_esc_duty(u16::MAX, u16::MAX), u16::MAX);
    assert_eq!(compute_esc_duty(u16::MAX, 0), 0);
}

#[test]
fn duty_conversion_exact_values() {
    // 1250 us of a 2500 us period at max duty 2000: half scale
    assert_eq!(compute_esc_duty(1250, 2000), 1000);
    // truncation, no rounding: 2499 * 1000 / 2500 = 999.6 -> 999
    assert_eq!(compute_esc_duty(2499, 1000), 999);
    // a tiny pulse truncates to zero
    assert_eq!(compute_esc_duty(1, 1000), 0);
    // pulse equal to the whole period maps to exactly max duty
    assert_eq!(compute_esc_duty(ESC_PERIOD_US, 3000), 3000);
}

#[test]
fn update_esc_duty_converts_each_channel_against_its_own_max() {
    let duties = update_esc_duty(&[1250, 2500, 5000, 0], &[2000, 1000, 800, 600]);
    assert_eq!(duties, [1000, 1000, 800, 0]);
}

#[test]
fn hover_mixer_is_fixed() {
    let a = HoverMixer.mix(Intent { roll: 9, pitch: 8, yaw: 7, throttle: 6 });
    let b = HoverMixer.mix(Intent { roll: 0, pitch: 0, yaw: 0, throttle: 0 });
    assert_eq!(a, [1000, 1000, 1000, 10]);
    assert_eq!(b, [1000, 1000, 1000, 10]);
}

#[test]
fn invalid_frame_is_rejected_and_intent_kept() {
    let mut mb = SharedFrameBuffer::new();
    let mut store = IntentStore::new();
    store.set_intent(Intent { roll: 1, pitch: 2, yaw: 3, throttle: 4 });
    mb.publish(&[0xAA, 0x10, 0x20, 0x30, 0x40, 0x4B]); // checksum off by one
    assert_eq!(poll_ground_control(&mut mb, &mut store), PollOutcome::Rejected);
    assert_eq!(
        store.get_intent(),
        Intent { roll: 1, pitch: 2, yaw: 3, throttle: 4 }
    );
    // the bad frame was consumed, not requeued
    assert_eq!(poll_ground_control(&mut mb, &mut store), PollOutcome::NoFrame);
}

#[test]
fn end_to_end_commits_intent_and_computes_duties() {
    let mut recv = FrameReceiver::new();
    let mut mb = SharedFrameBuffer::new();
    let mut store = IntentStore::new();
    for b in [0xAA, 0x10, 0x20, 0x30, 0x40, 0x4A] {
        on_serial_byte(&mut recv, &mut mb, b);
    }
    assert_eq!(poll_ground_control(&mut mb, &mut store), PollOutcome::Committed);
    assert_eq!(
        store.get_intent(),
        Intent { roll: 0x10, pitch: 0x20, yaw: 0x30, throttle: 0x40 }
    );
    let pulses = timer_tick(&PassthroughMixer, &store);
    assert_eq!(pulses, [0x10, 0x20, 0x30, 0x40]);
    let max_duties = [ESC_PERIOD_US; 4];
    let duties = update_esc_duty(&pulses, &max_duties);
    assert_eq!(duties, [0x10, 0x20, 0x30, 0x40]);
    // the tick is a pure function of the committed intent and the period
    let again = update_esc_duty(&timer_tick(&PassthroughMixer, &store), &max_duties);
    assert_eq!(again, duties);
}
