//! A virtual machine for an 8-bit fantasy computer: a fixed two-byte
//! instruction set over 4096 bytes of memory, sixteen byte registers, a call
//! stack, two 60 Hz countdown timers, a 64x32 monochrome display buffer and
//! a sixteen-key input pad.
//!
//! The machine state lives in [`cpu::Cpu`]; the host loads a program with
//! [`loader::load_rom`], then repeatedly runs one fetch-decode-execute step
//! with [`interp::cycle`] and, independently, decays the timers with
//! [`timers::tick_timer`].  The meaning of every instruction is stated once,
//! in [`semantics`], as a relation between machine states; [`laws`] and
//! [`draw_laws`] prove the properties that hold across instructions, such as
//! the call/return round trip and the bit-exactness of sprite drawing.

pub mod cpu;
pub mod decode;
pub mod semantics;
pub mod interp;
pub mod timers;
pub mod loader;
pub mod laws;
pub mod draw_laws;
