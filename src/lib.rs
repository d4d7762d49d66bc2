//! A CHIP-8 virtual machine: the instruction decode/execute engine, its
//! machine state, a 64x32 monochrome framebuffer and a 16-key keypad.

pub mod cpu;
pub mod display;
pub mod keypad;
pub mod theorems;
