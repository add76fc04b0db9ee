//! The faults that end a run.

use vstd::prelude::*;

verus! {

/// A condition that a running program cannot recover from.
///
/// A fault aborts the instruction that met it: the machine is left as it was
/// before that instruction began.
#[derive(Debug, Clone, Copy, PartialEq, Eq, Structural)]
pub enum Fault {
    /// A call was made with all sixteen stack slots in use.
    StackOverflow,
    /// A return was made with no call outstanding.
    StackUnderflow,
    /// An instruction addressed memory beyond the last byte.
    MemoryOutOfBounds,
    /// The program image does not fit between the load address and the end
    /// of memory.
    ProgramTooLarge,
}

} // verus!
