//! A verified interpreter core for an 8-bit virtual machine with a fixed
//! 37-operation instruction set, 4096 bytes of memory, sixteen 8-bit
//! registers, a 64x32 monochrome display and two 60 Hz timers.
//!
//! The instruction semantics (decode and execute), the machine state and the
//! signal protocol between the instruction loop and the render/input loop all
//! live here, each pinned by a contract. The surrounding I/O (window, audio,
//! keyboard, ROM files) is left to the embedding program.

pub mod font;
pub mod opcode;
pub mod vm;
pub mod step;
pub mod execute;
pub mod signal;
pub mod laws;
