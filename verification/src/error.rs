//! The ways in which the machine refuses to go on.

use vstd::prelude::*;

verus! {

/// Why an operation on the machine was refused.
///
/// Every refusal leaves the machine exactly as it was, so a host may report
/// the fault and decide for itself whether to halt or to restart.
#[derive(Clone, Copy, Debug, PartialEq, Eq, Structural)]
pub enum Chip8Error {
    /// The two bytes at `pc` form no instruction of the base CHIP-8 set.
    UnknownOpcode { opcode: u16, pc: u16 },
    /// A call was made with all sixteen stack slots in use.
    StackOverflow,
    /// A return was made with no call outstanding.
    StackUnderflow,
    /// An instruction fetch, a sprite read or a memory transfer reached past
    /// the last byte of memory.
    MemoryOutOfBounds,
    /// A key instruction named a key that the sixteen-key pad does not have.
    InvalidKey { key: u8 },
    /// The program image does not fit between the load address and the end of
    /// memory.
    ProgramTooLarge,
}

} // verus!
