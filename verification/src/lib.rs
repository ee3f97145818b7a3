//! Phantom: a CHIP-8 CPU emulator core.
//!
//! The core is headless and deterministic: `Cpu::step()` fetches, decodes,
//! and executes exactly one opcode, with no I/O or timing baked in. Every
//! operation is specified against the abstract machine in `machine`.

pub mod cpu;
pub mod demo;
pub mod display;
pub mod font;
pub mod laws;
pub mod machine;
pub mod opcode_laws;
pub mod rng;

pub use cpu::Cpu;
pub use display::{Display, DISPLAY_HEIGHT, DISPLAY_WIDTH};

use vstd::prelude::*;

verus! {

/// Bytes of addressable memory.
pub const MEMORY_SIZE: usize = 4096;

/// General-purpose registers `V0`..`VF`.
pub const NUM_REGISTERS: usize = 16;

/// Depth of the subroutine stack.
pub const STACK_SIZE: usize = 16;

/// Keys on the hexadecimal keypad.
pub const NUM_KEYS: usize = 16;

/// Address at which programs are loaded and execution starts.
pub const PROGRAM_START: u16 = 0x200;

} // verus!
