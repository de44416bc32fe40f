use vstd::prelude::*;

verus! {

/// The ways in which an operand read can fail.
#[derive(Debug, Clone, Copy, PartialEq, Eq, Structural)]
pub enum Error {
    /// An operand was read with no words left in the instruction.
    InstructionTooShort,
    /// A string operand had no null terminator, or its bytes were not UTF-8.
    StringNotTerminated,
    /// A numeric operand names no member of the enumeration it was read as.
    UnencodedEnum,
}

} // verus!
