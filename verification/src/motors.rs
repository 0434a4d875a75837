use vstd::prelude::*;
use vstd::arithmetic::div_mod::{lemma_div_is_ordered, lemma_div_multiples_vanish};
use crate::intent::{Intent, IntentStore};

verus! {

/// PWM period of the ESC outputs, in microseconds (2500 us, 400 Hz).
pub const ESC_PERIOD_US: u16 = 2500;

/// Pulse widths in microseconds requested for the four ESC channels.
pub type PulseWidths = [u16; 4];

/// PWM compare values for the four ESC channels, each bounded by its
/// channel's maximum duty. Recomputed from scratch every timer period.
pub type MotorDutyVector = [u16; 4];

/// The compare value for one channel: the pulse width scaled by the
/// channel's maximum duty over the period — integer multiply then divide,
/// truncating — then clamped to the maximum duty.
pub open spec fn ccr_spec(pulse_len_us: u16, max_duty: u16) -> u16 {
    let raw = (pulse_len_us * max_duty) / (ESC_PERIOD_US as int);
    if raw < max_duty {
        raw as u16
    } else {
        max_duty
    }
}

/// Converts one channel's requested pulse width to its compare value:
/// multiply, divide truncating, saturating clamp — bit for bit.
pub fn compute_esc_duty(pulse_len_us: u16, max_duty: u16) -> (r: u16)
    ensures
        r == ccr_spec(pulse_len_us, max_duty),
        r <= max_duty,
{
    proof {
        assert(pulse_len_us as int * max_duty as int <= 65535 * 65535) by (nonlinear_arith)
            requires
                pulse_len_us as int <= 65535,
                max_duty as int <= 65535,
        ;
    }
    let ccr: u32 = pulse_len_us as u32 * max_duty as u32 / (ESC_PERIOD_US as u32);
    if ccr < max_duty as u32 {
        ccr as u16
    } else {
        max_duty
    }
}

/// The duty-clamp law: a pulse width longer than the PWM period always
/// yields exactly the channel's maximum duty — the conversion saturates
/// and never wraps.
pub proof fn lemma_duty_clamp(pulse_len_us: u16, max_duty: u16)
    requires
        pulse_len_us > ESC_PERIOD_US,
    ensures
        ccr_spec(pulse_len_us, max_duty) == max_duty,
{
    let p = pulse_len_us as int;
    let m = max_duty as int;
    assert(2500 * m <= p * m) by (nonlinear_arith)
        requires
            p >= 2501,
            m >= 0,
    ;
    lemma_div_is_ordered(2500 * m, p * m, 2500);
    lemma_div_multiples_vanish(m, 2500);
    assert((p * m) / 2500 >= m);
}

/// The motor-mixing extension point: a pure, deterministic function from
/// intent to the four requested pulse widths, total over the whole intent
/// domain. The control law itself (PID, mixing matrix) is deliberately not
/// implemented by the core; implementations plug in here.
pub trait Mixer {
    /// What the mixer computes, as a specification. Must describe a
    /// sequence of exactly four pulse widths.
    spec fn mix_spec(&self, intent: Intent) -> Seq<u16>;

    /// Computes the requested pulse widths for `intent`.
    fn mix(&self, intent: Intent) -> (r: PulseWidths)
        ensures
            r@ == self.mix_spec(intent),
    ;
}

/// Stand-in for the unimplemented control law: fixed pulse widths holding
/// the first three motors at 1000 us and the fourth at 10 us, whatever the
/// intent.
pub struct HoverMixer;

impl Mixer for HoverMixer {
    open spec fn mix_spec(&self, intent: Intent) -> Seq<u16> {
        seq![1000u16, 1000u16, 1000u16, 10u16]
    }

    fn mix(&self, intent: Intent) -> (r: PulseWidths) {
        let r: PulseWidths = [1000u16, 1000u16, 1000u16, 10u16];
        proof {
            assert(r@ =~= self.mix_spec(intent));
        }
        r
    }
}

/// Deterministic stand-in mixer for exercising the pipeline: passes each
/// intent channel straight through as a pulse width in microseconds.
pub struct PassthroughMixer;

impl Mixer for PassthroughMixer {
    open spec fn mix_spec(&self, intent: Intent) -> Seq<u16> {
        seq![
            intent.roll as u16,
            intent.pitch as u16,
            intent.yaw as u16,
            intent.throttle as u16,
        ]
    }

    fn mix(&self, intent: Intent) -> (r: PulseWidths) {
        let r: PulseWidths = [
            intent.roll as u16,
            intent.pitch as u16,
            intent.yaw as u16,
            intent.throttle as u16,
        ];
        proof {
            assert(r@ =~= self.mix_spec(intent));
        }
        r
    }
}

/// The duty vector for four requested pulse widths: each channel converted
/// and clamped against that channel's maximum duty.
pub open spec fn duty_vector_spec(pulses: Seq<u16>, max_duties: Seq<u16>) -> Seq<u16>
    recommends
        pulses.len() == 4,
        max_duties.len() == 4,
{
    Seq::new(4, |i: int| ccr_spec(pulses[i], max_duties[i]))
}

/// The decision half of one periodic timer tick: reads the current intent
/// and applies the mixer, producing the pulse widths to request. The timer
/// handler runs this once per period.
pub fn timer_tick<M: Mixer>(mixer: &M, store: &IntentStore) -> (r: PulseWidths)
    ensures
        r@ == mixer.mix_spec(store.current_spec()),
{
    let intent = store.get_intent();
    mixer.mix(intent)
}

/// Converts the four requested pulse widths to the four compare values,
/// each clamped to its channel's hardware-reported maximum duty. The
/// caller writes the result to the hardware compare registers.
pub fn update_esc_duty(motor_values: &PulseWidths, max_duties: &[u16; 4]) -> (r: MotorDutyVector)
    ensures
        r@ == duty_vector_spec(motor_values@, max_duties@),
        forall|i: int| 0 <= i < 4 ==> r@[i] <= max_duties@[i],
{
    let r: MotorDutyVector = [
        compute_esc_duty(motor_values[0], max_duties[0]),
        compute_esc_duty(motor_values[1], max_duties[1]),
        compute_esc_duty(motor_values[2], max_duties[2]),
        compute_esc_duty(motor_values[3], max_duties[3]),
    ];
    proof {
        assert(r@ =~= duty_vector_spec(motor_values@, max_duties@));
    }
    r
}

} // verus!
