//! A CHIP-8 interpreter core: machine state, decoding and the execution
//! routines, each stated against a mathematical model of the machine.

pub mod alu;
pub mod call_stack;
pub mod display;
pub mod font;
pub mod keypad;
pub mod machine;
pub mod pacing;
pub mod timer;
