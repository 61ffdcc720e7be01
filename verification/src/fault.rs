//! The conditions that end a session.

use vstd::prelude::*;

verus! {

/// A condition that the machine cannot continue from.
///
/// The architecture has no trap mechanism: a host that receives a fault
/// reports it and ends the session.
#[derive(Clone, Copy, Debug, PartialEq, Eq)]
pub enum Fault {
    /// The program image does not fit between the load address and the end
    /// of memory; `length` is the size of the rejected image.
    ProgramTooLarge { length: usize },
    /// The word fetched at `address` is no instruction of the machine.
    UnknownInstruction { address: u16, word: u16 },
    /// A subroutine call was made with sixteen calls already pending.
    StackOverflow,
    /// A return was executed with no call pending.
    StackUnderflow,
}

} // verus!
