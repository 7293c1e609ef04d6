//! Fatal faults that abort execution.

use vstd::prelude::*;

verus! {

/// A fatal condition that stops the interpreter. Each variant carries the
/// value the program counter had when the fault was detected, so a caller
/// can reproduce the failing fetch or instruction.
///
/// For an out-of-bounds fetch the recorded counter is the address the fetch
/// was attempted at; for the other faults it is the already-advanced counter,
/// i.e. the address of the instruction after the one that faulted.
#[derive(Clone, Copy, Debug, PartialEq, Eq, Structural)]
pub enum Fault {
    /// A subroutine call was attempted while the call stack was full.
    StackOverflow { pc: u16 },
    /// A return was attempted while the call stack was empty.
    StackUnderflow { pc: u16 },
    /// The fetched instruction word matches no implemented operation.
    UnimplementedOpcode { pc: u16, opcode: u16 },
    /// The program counter left the addressable memory, so no full
    /// instruction word could be fetched.
    OutOfBounds { pc: u16 },
}

} // verus!
