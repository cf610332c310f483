//! A CHIP-8 virtual machine: memory, display, keypad, timers and the
//! instruction interpreter that drives them, with every operation specified
//! and proved against its contract.

pub mod memory;
pub mod audio;
pub mod input;
pub mod display;
pub mod instruction;
pub mod cpu;
pub mod chip8;
