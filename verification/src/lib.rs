//! An LC-3 virtual machine: eight 16-bit general registers, a program
//! counter, a condition-code status register, and a flat 64K-word memory with two
//! memory-mapped keyboard addresses.  A big-endian program image is loaded
//! at its origin word and executed instruction by instruction until the
//! HALT trap parks the program counter at the terminal sentinel 0xFFFF.

use vstd::prelude::*;

mod console;
pub mod cpu;
pub mod isa;
pub mod memory;

pub use cpu::CPU;
pub use memory::Memory;

verus! {

/// The fatal conditions that can end a run.  None of them is recoverable:
/// each one surfaces immediately to the caller as an `Err`.
#[derive(Clone, Copy, Debug, PartialEq, Eq, Structural)]
pub enum VmError {
    /// The program image could not be opened or read at all.
    ImageNotFound,
    /// The image has an odd number of bytes, or lacks the origin word.
    ImageMalformed,
    /// An instruction used an opcode with no defined operation.
    ReservedOpcode,
    /// A TRAP instruction named a service vector outside the defined set.
    UnknownTrapVector,
    /// A console read or write failed.
    ConsoleIOFailure,
    /// The driver gave up after an astronomical number of instructions.
    StepLimitReached,
}

} // verus!
