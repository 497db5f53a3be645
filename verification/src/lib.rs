//! A verified interpreter core for a small fixed instruction set: a decoder
//! that maps 16-bit words to typed instructions, and an execution engine that
//! steps a machine of byte-addressable memory, sixteen 8-bit registers, a
//! call stack, two countdown timers, a monochrome display and a keypad.

pub mod disasm;
pub mod laws;
pub mod opcode;
pub mod rng;
pub mod semantics;
pub mod vm;
