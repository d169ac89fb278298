//! Instruction-level core of a small 1970s-era virtual machine: a 4096-byte
//! address space, sixteen 8-bit registers, a sixteen-entry call stack, two
//! 60 Hz countdown timers and a 64x32 monochrome framebuffer, driven by a
//! fetch-decode-execute loop over two-byte instructions.
//!
//! The machine model lives in [`model`] as pure specification functions; the
//! executable engine in [`cpu`] is proved to follow that model step by step.
//! General laws of the machine (XOR-draw self-inversion, call/return pairing,
//! and the like) are proved in [`laws`].

pub mod consts;
pub mod cpu;
pub mod display;
pub mod keymaps;
pub mod keypad;
pub mod laws;
pub mod model;
pub mod rng;
