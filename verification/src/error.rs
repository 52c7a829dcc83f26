//! The ways in which translating an instruction can fail.

use crate::opcode::Opcode;
use vstd::prelude::*;

verus! {

/// Why an instruction could not be translated. Every error is fatal to the
/// instruction at hand: nothing is bound when one is returned.
#[derive(Clone, Copy, Debug, PartialEq, Eq, Structural)]
pub enum TranslateError {
    /// The instruction is malformed: wrong number of results, or a sort
    /// that is not well formed.
    StructuralError,
    /// Sorts disagree: an operand is bound at another sort than expected, a
    /// vector is used as an address, or an access width is not a positive
    /// multiple of the memory cell width.
    TypeError,
    /// The value was never defined.
    UndefinedValueError(u32),
    /// The value is already defined; single assignment would be violated.
    RedefinitionError(u32),
    /// The opcode is not one that the instruction's shape supports.
    UnsupportedOpcodeError(Opcode),
}

} // verus!
