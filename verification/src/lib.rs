// Control core of a flight controller: frame assembly from a serial byte
// stream, single-slot handoff from interrupt to main-loop context, frame
// validation, a shared control-intent register, and PWM duty computation.
// Peripheral setup and the actual register / serial I/O live outside this
// crate; the core works on plain values handed in by that layer.

pub mod control;
pub mod frame;
pub mod intent;
pub mod mailbox;
pub mod motors;
pub mod receiver;
