//! A verified CHIP-8 virtual machine.
//!
//! The machine state, the program loader, the instruction decoder, the
//! fetch/decode/execute step and the timer clock are verified against a
//! mathematical model of the machine; the host (window, audio, physical
//! keys) lives outside and drives the machine through `step`,
//! `tick_timers` and `set_key`.
pub mod cycle;
pub mod laws;
pub mod decode;
pub mod machine;
mod rng;

pub use decode::AluOp;
pub use decode::Instr;
pub use machine::Chippy;
pub use machine::LoadError;
pub use machine::Mode;
pub use machine::StepError;
