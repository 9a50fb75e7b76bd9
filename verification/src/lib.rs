//! A verified core for an 8-bit virtual game console: 4 KiB of memory, sixteen
//! 8-bit registers, a 16-entry call stack, a 64x32 monochrome framebuffer, a
//! hex keypad snapshot, and a pair of 60 Hz delay/sound counters.
//!
//! The machine executes 16-bit big-endian instruction words loaded at address
//! 0x200. Every instruction is decoded into a tagged [`opcode::Opcode`] and
//! executed as one transition of [`chip8::Chip8`], whose effect is pinned down
//! by the specification-level interpreter in [`state`].

pub mod chip8;
pub mod laws;
pub mod opcode;
pub mod state;
pub mod timer;
