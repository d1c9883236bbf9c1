//! The core of an interpreter for a small 8-bit virtual machine: 4096 bytes of
//! memory, sixteen byte registers, an index register, a return stack of sixteen
//! frames, two 60 Hz countdown timers and a 64x32 monochrome display.
//!
//! Everything that touches the outside world (the window, the keyboard, the
//! program file, the clock) stays with the caller, who hands in plain values:
//! the bytes of the program, a clock reading in microseconds and the states of
//! the sixteen keys.

pub mod entropy;
pub mod execute;
pub mod fault;
pub mod instruction;
pub mod keypad;
pub mod laws;
pub mod machine;
pub mod memory;
pub mod operand;
pub mod screen;
pub mod semantics;
pub mod state;
pub mod timer;
