//! Core of a CHIP-8-class virtual machine: a fixed-width instruction
//! interpreter with register file, call stack, delay timer, LFSR-based
//! pseudo-random source, bit-packed framebuffer access and keypad handling,
//! parameterized by per-instance behavioral quirks.

pub mod cpu;
pub mod laws;
pub mod lcd;
pub mod machine;
pub mod opcodes;
pub mod padded;
pub mod peripherals;
pub mod quirks;
pub mod rng;
