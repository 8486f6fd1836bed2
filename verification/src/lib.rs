//! A small 8-bit virtual machine: a fixed instruction set interpreter with
//! 4 KB of memory, 16 registers, a call stack, two countdown timers, a
//! 64x32 monochrome framebuffer and a 16-key keypad.

pub mod cpu;
pub mod decode;
pub mod keypad;
pub mod laws;
pub mod ppu;
