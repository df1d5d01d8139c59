//! A verified CHIP-8 virtual machine core.
//!
//! The library holds the machine state (registers, memory, stack, timer,
//! keypad, framebuffer) and advances it one instruction per `cycle` call.
//! Every instruction handler carries a contract describing exactly how it
//! transforms the state; the presentation and input layers live outside the
//! library and talk to it through plain values.

pub mod cpu;
pub mod decode;
pub mod draw;
pub mod exec;
pub mod laws;
pub mod step;

pub use cpu::Cpu;
pub use cpu::CpuView;
pub use cpu::VideoMode;

use vstd::prelude::*;

verus! {

/// Every way a single instruction cycle can fail. All of these are
/// recoverable at the call site: `Cpu::cycle` reports them instead of
/// panicking, and leaves the machine state untouched.
#[derive(Clone, Copy, Debug, PartialEq, Eq, Structural)]
pub enum Chip8Error {
    /// The fetched opcode matches no known instruction.
    UnknownOpcode(u16),
    /// A call instruction found all 16 stack slots occupied.
    StackOverflow,
    /// A return instruction found the stack empty.
    StackUnderflow,
    /// A memory, framebuffer or keypad access fell outside its space.
    OutOfBounds,
    /// A ROM image does not fit between 0x200 and the end of memory.
    RomTooLarge,
}

/// What a successful instruction cycle asks of the embedding application.
#[derive(Clone, Copy, Debug, PartialEq, Eq, Structural)]
pub enum StepOutcome {
    /// Keep scheduling cycles.
    Continue,
    /// The exit instruction ran; the application should stop the machine.
    Halt,
}

} // verus!
