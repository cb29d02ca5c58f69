//! A CHIP-8 style virtual machine: a fetch/decode/execute interpreter over a
//! 4096-byte memory and sixteen 8-bit registers, a double-buffered 64x32
//! monochrome framebuffer, and two 60 Hz countdown timers.

pub mod cpu;
pub mod display;
pub mod emulator;
pub mod timer;
