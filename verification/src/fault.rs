//! The ways in which the machine can fail.

use vstd::prelude::*;

verus! {

/// An unrecoverable condition met while building or running the machine.
#[derive(Clone, Copy, Debug, PartialEq, Eq, Structural)]
pub enum Fault {
    /// The word fetched at `pc` is not an instruction of the machine.
    DecodeError { word: u16, pc: u16 },
    /// A subroutine call found the call stack full.
    StackOverflow,
    /// A subroutine return found the call stack empty.
    StackUnderflow,
    /// An access to memory at `addr`, which lies past the end of memory.
    OutOfBounds { addr: u16 },
    /// A program of `len` bytes does not fit between the start of the program
    /// area and the end of memory.
    ProgramTooLarge { len: usize },
}

} // verus!
