//! What can go wrong when a program is loaded or run.

use vstd::prelude::*;

verus! {

/// Why a program could not be loaded.
#[derive(Clone, Copy, Debug, PartialEq, Eq, Structural)]
pub enum LoadError {
    /// The program has more bytes than memory has from the program start
    /// to its end.
    TooLarge,
}

/// Why an instruction could not be executed. A fault is fatal to the step
/// that met it: the machine is left as it was before that step.
#[derive(Clone, Copy, Debug, PartialEq, Eq, Structural)]
pub enum Fault {
    /// The address has no instruction word: it is the last byte of memory
    /// or lies past it.
    FetchOutOfBounds,
    /// A call was made with all 16 stack entries in use.
    StackOverflow,
    /// A return was made with nothing on the stack.
    StackUnderflow,
    /// The word, given here, selects no operation.
    UnknownOpcode(u16),
    /// The operation reaches through `I` past the end of memory.
    AddressOutOfBounds,
    /// The operation asks for a key that the keypad does not have.
    KeyOutOfRange,
}

} // verus!
