//! An interpreter for a small 8-bit virtual machine: 4 KiB of memory, sixteen
//! byte registers, a 64x32 monochrome display, a 16-key pad and two timers.
//!
//! `state` models the machine as a mathematical value, `semantics` says what
//! each instruction and each cycle does to it, `machine` holds the executable
//! `Emu`, proved to follow `semantics`, and `laws` states and proves properties
//! that span several cycles or hold of every state.

pub mod state;
pub mod semantics;
pub mod machine;
pub mod laws;

pub use machine::Emu;
pub use state::{EmuError, SCREEN_HEIGHT, SCREEN_WIDTH};
