//! An interpreter for the CHIP-8 instruction set: 4 KiB of memory, sixteen
//! 8-bit registers, a 64x32 monochrome framebuffer, two countdown timers and a
//! sixteen-key keypad, driven one instruction per call of `Cpu::cycle`.
pub mod cpu;
pub mod keypad;
pub mod lemmas;
pub mod machine;
