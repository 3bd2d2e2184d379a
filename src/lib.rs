//! An interpreter engine for the CHIP-8 instruction set: memory and
//! framebuffer, processor state and per-instruction semantics, a keypad
//! snapshot, and a machine that runs the fetch, decode and execute cycle.

pub mod consts;
pub mod memory;
pub mod keyboard;
pub mod cpu;
pub mod vm;
