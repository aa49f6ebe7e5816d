//! A CHIP-8 virtual machine: memory with the built-in font, registers, call
//! stack, timers, keypad snapshot and framebuffer, and the fetch-decode-execute
//! cycle over the instruction set, each proved against its mathematical model.

pub mod chip8;
pub mod error;
pub mod laws;
pub mod model;
pub mod processor;
