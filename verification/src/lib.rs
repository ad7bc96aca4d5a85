//! A CHIP-8 virtual machine: machine state, instruction decode/execute,
//! call stack, timers, framebuffer, and the per-frame execution schedule.
pub mod chip8;
pub mod decode;
pub mod display;
pub mod laws;
pub mod semantics;
pub mod stack;
pub mod timers;

pub use chip8::Chip8;
pub use chip8::INSTRUCTIONS_PER_FRAME;
pub use decode::Instruction;
pub use display::Display;
pub use decode::decode;
pub use stack::Stack;
pub use timers::Timers;

use vstd::prelude::*;

verus! {

/// A fatal condition of the call stack discipline: the program image asked
/// for a call past the stack's capacity, or for a return with no call
/// outstanding.
#[derive(Clone, Copy, Debug, PartialEq, Eq, Structural)]
pub enum Fault {
    StackOverflow,
    StackUnderflow,
}

} // verus!
