//! A verified CHIP-8 virtual machine core.
//!
//! The crate models the machine state (memory, registers, timers, stack,
//! program counter, keyboard latch and monochrome display), decodes raw
//! 16-bit instruction words into a closed operation set, and executes each
//! operation with bit-exact contracts: carry/borrow flags, display XOR
//! compositing with collision reporting, and the 540 Hz / 60 Hz
//! clock-to-timer ratio of the cycle driver.
//!
//! Host concerns (windowing, audio, keyboard translation, ROM file I/O)
//! stay outside: the host loads programs as plain bytes, feeds key states
//! through `set_key`, reads pixels back, and calls `step` once per cycle.

pub mod chip8;
pub mod chip8_display;
pub mod chip8_instructions;
pub mod chip8_memory;
pub mod util;
