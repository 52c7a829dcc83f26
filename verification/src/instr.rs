//! Instruction records, as the layer that reads the program hands them
//! over.

use crate::error::TranslateError;
use crate::opcode::Opcode;
use crate::sort::Sort;
use vstd::prelude::*;

verus! {

/// One instruction of a straight-line sequence. Values are named by
/// number.
#[derive(Clone, Copy, Debug, PartialEq, Eq, Structural)]
pub enum Instr {
    /// `dest` is the constant `imm`, cut to `width` bits.
    Constant { dest: u32, width: u32, imm: i64 },
    /// `dest` is `op` applied to `lhs` and `rhs`, all three of `sort`.
    Binary { dest: u32, op: Opcode, lhs: u32, rhs: u32, sort: Sort },
    /// `dest` is `op` applied to `arg` and the constant `imm`, cut to the
    /// width of `sort`.
    BinaryImmediate { dest: u32, op: Opcode, arg: u32, sort: Sort, imm: i64 },
    /// `dest`, of `dest_sort`, is read from memory at `base + offset`.
    Load { dest: u32, op: Opcode, base: u32, addr_sort: Sort, offset: i32, dest_sort: Sort },
    /// `value` is written to memory at `base + offset`.
    Store { op: Opcode, value: u32, base: u32, addr_sort: Sort, offset: i32 },
    /// An instruction that is not modelled.
    Other { op: Opcode },
}

/// What translating one instruction did.
#[derive(Clone, Copy, Debug, PartialEq, Eq, Structural)]
pub enum Step {
    /// The value was bound.
    Defined(u32),
    /// Memory moved on to the version of this number.
    Stored(u64),
    /// The instruction is not modelled; nothing was bound.
    Skipped(Opcode),
}

/// A value and the type that the program gives it.
#[derive(Clone, Copy, Debug, PartialEq, Eq, Structural)]
pub struct TypedValue {
    pub value: u32,
    pub ty: Sort,
}

/// An instruction in the format in which the program holds it: the
/// opcode, the operands with their types, and the immediate fields. Its
/// results are held beside it.
#[derive(Clone, Copy, Debug, PartialEq, Eq, Structural)]
pub enum InstructionData {
    /// One immediate operand.
    UnaryImm { opcode: Opcode, imm: i64 },
    /// Two value operands.
    Binary { opcode: Opcode, lhs: TypedValue, rhs: TypedValue },
    /// One value operand and one immediate.
    BinaryImm { opcode: Opcode, arg: TypedValue, imm: i64 },
    /// The stored value, the address and a byte offset.
    Store { opcode: Opcode, value: TypedValue, addr: TypedValue, offset: i32 },
    /// The address and a byte offset.
    Load { opcode: Opcode, arg: TypedValue, offset: i32 },
    /// Any other format.
    Other { opcode: Opcode },
}

/// The record that an instruction with the given results decodes to, or
/// the error that its shape or its types give.
///
/// An instruction that binds a value has exactly one result, and a store
/// has none. The operands of a binary instruction have the type of its
/// result. The only instruction with one immediate operand is `Iconst`,
/// and its result is a scalar.
pub open spec fn decoded(
    data: InstructionData,
    results: Seq<TypedValue>,
) -> Result<Instr, TranslateError> {
    match data {
        InstructionData::UnaryImm { opcode, imm } => {
            if results.len() != 1 {
                Err(TranslateError::StructuralError)
            } else if opcode != Opcode::Iconst {
                Err(TranslateError::UnsupportedOpcodeError(opcode))
            } else if !results[0].ty.wf() {
                Err(TranslateError::StructuralError)
            } else if !results[0].ty.scalar_shape() {
                Err(TranslateError::TypeError)
            } else {
                Ok(Instr::Constant { dest: results[0].value, width: results[0].ty.lane_bits, imm })
            }
        },
        InstructionData::Binary { opcode, lhs, rhs } => {
            if results.len() != 1 {
                Err(TranslateError::StructuralError)
            } else if lhs.ty != results[0].ty || lhs.ty != rhs.ty {
                Err(TranslateError::TypeError)
            } else {
                Ok(
                    Instr::Binary {
                        dest: results[0].value,
                        op: opcode,
                        lhs: lhs.value,
                        rhs: rhs.value,
                        sort: lhs.ty,
                    },
                )
            }
        },
        InstructionData::BinaryImm { opcode, arg, imm } => {
            if results.len() != 1 {
                Err(TranslateError::StructuralError)
            } else if arg.ty != results[0].ty {
                Err(TranslateError::TypeError)
            } else {
                Ok(
                    Instr::BinaryImmediate {
                        dest: results[0].value,
                        op: opcode,
                        arg: arg.value,
                        sort: arg.ty,
                        imm,
                    },
                )
            }
        },
        InstructionData::Store { opcode, value, addr, offset } => {
            if results.len() != 0 {
                Err(TranslateError::StructuralError)
            } else {
                Ok(
                    Instr::Store {
                        op: opcode,
                        value: value.value,
                        base: addr.value,
                        addr_sort: addr.ty,
                        offset,
                    },
                )
            }
        },
        InstructionData::Load { opcode, arg, offset } => {
            if results.len() != 1 {
                Err(TranslateError::StructuralError)
            } else {
                Ok(
                    Instr::Load {
                        dest: results[0].value,
                        op: opcode,
                        base: arg.value,
                        addr_sort: arg.ty,
                        offset,
                        dest_sort: results[0].ty,
                    },
                )
            }
        },
        InstructionData::Other { opcode } => Ok(Instr::Other { op: opcode }),
    }
}

/// Decodes an instruction of the program and its results into a record
/// for the translator, checking the number of results and that the types
/// of operands and result agree.
pub fn decode(
    data: &InstructionData,
    results: &Vec<TypedValue>,
) -> (r: Result<Instr, TranslateError>)
    ensures
        r == decoded(*data, results@),
{
    match *data {
        InstructionData::UnaryImm { opcode, imm } => {
            if results.len() != 1 {
                return Err(TranslateError::StructuralError);
            }
            let ret = results[0];
            match opcode {
                Opcode::Iconst => {},
                _ => {
                    return Err(TranslateError::UnsupportedOpcodeError(opcode));
                },
            }
            if ret.ty.bits().is_none() {
                return Err(TranslateError::StructuralError);
            }
            if !ret.ty.is_scalar() {
                return Err(TranslateError::TypeError);
            }
            Ok(Instr::Constant { dest: ret.value, width: ret.ty.lane_width(), imm })
        },
        InstructionData::Binary { opcode, lhs, rhs } => {
            if results.len() != 1 {
                return Err(TranslateError::StructuralError);
            }
            let ret = results[0];
            if !lhs.ty.same_as(&ret.ty) || !lhs.ty.same_as(&rhs.ty) {
                return Err(TranslateError::TypeError);
            }
            Ok(
                Instr::Binary {
                    dest: ret.value,
                    op: opcode,
                    lhs: lhs.value,
                    rhs: rhs.value,
                    sort: lhs.ty,
                },
            )
        },
        InstructionData::BinaryImm { opcode, arg, imm } => {
            if results.len() != 1 {
                return Err(TranslateError::StructuralError);
            }
            let ret = results[0];
            if !arg.ty.same_as(&ret.ty) {
                return Err(TranslateError::TypeError);
            }
            Ok(Instr::BinaryImmediate { dest: ret.value, op: opcode, arg: arg.value, sort: arg.ty, imm })
        },
        InstructionData::Store { opcode, value, addr, offset } => {
            if results.len() != 0 {
                return Err(TranslateError::StructuralError);
            }
            Ok(
                Instr::Store {
                    op: opcode,
                    value: value.value,
                    base: addr.value,
                    addr_sort: addr.ty,
                    offset,
                },
            )
        },
        InstructionData::Load { opcode, arg, offset } => {
            if results.len() != 1 {
                return Err(TranslateError::StructuralError);
            }
            let ret = results[0];
            Ok(
                Instr::Load {
                    dest: ret.value,
                    op: opcode,
                    base: arg.value,
                    addr_sort: arg.ty,
                    offset,
                    dest_sort: ret.ty,
                },
            )
        },
        InstructionData::Other { opcode } => Ok(Instr::Other { op: opcode }),
    }
}

} // verus!
