//! An interpreter core for the CHIP-8 virtual machine.
//!
//! The crate holds the parts of the machine that decide how a program image
//! runs: the memory with its built-in font, the keypad layout, the monochrome
//! framebuffer, the instruction decoder and the fetch-decode-execute cycle.
//! Presentation, pacing and device input are left to the host program.

pub mod cpu;
pub mod display;
pub mod display_lemmas;
pub mod fault;
pub mod instruction;
pub mod keypad;
pub mod machine;
pub mod machine_lemmas;
pub mod memory;
