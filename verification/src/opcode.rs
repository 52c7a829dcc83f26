//! Opcodes of the intermediate representation and the solver operators
//! that model them.

use crate::error::TranslateError;
use crate::sort::Sort;
use vstd::prelude::*;

verus! {

/// An instruction opcode.
///
/// The integer, bitwise and memory instructions are named one by one, with
/// a few of control flow; `Other` stands for every opcode that is not.
#[derive(Clone, Copy, Debug, PartialEq, Eq, Structural, Hash)]
pub enum Opcode {
    Jump,
    Brz,
    Brnz,
    Trap,
    Return,
    Call,
    Iconst,
    Bconst,
    Select,
    Copy,
    Iadd,
    Isub,
    Imul,
    Udiv,
    Sdiv,
    Urem,
    Srem,
    IaddImm,
    ImulImm,
    UdivImm,
    SdivImm,
    UremImm,
    SremImm,
    IrsubImm,
    Band,
    Bor,
    Bxor,
    Bnot,
    BandImm,
    BorImm,
    BxorImm,
    Rotl,
    Rotr,
    RotlImm,
    RotrImm,
    Ishl,
    Ushr,
    Sshr,
    IshlImm,
    UshrImm,
    SshrImm,
    Load,
    Store,
    Uload8,
    Sload8,
    Istore8,
    Uload16,
    Sload16,
    Istore16,
    Uload32,
    Sload32,
    Istore32,
    Other,
}

/// How a narrow load widens what it read.
#[derive(Clone, Copy, Debug, PartialEq, Eq, Structural)]
pub enum Z3UnOps {
    BVSignExt,
    BVZeroExt,
}

/// A binary bit-vector operator of the solver.
#[derive(Clone, Copy, Debug, PartialEq, Eq, Structural)]
pub enum Z3BinOps {
    BVAdd,
    BVSub,
    BVMul,
    BVUdiv,
    BVSdiv,
    BVUrem,
    BVSrem,
    BVAnd,
    BVOr,
    BVXor,
    BVShl,
    BVLshr,
    BVAshr,
}

/// The operator that models a binary opcode, in its plain or immediate
/// form; `None` for every other opcode.
pub open spec fn binary_operator(op: Opcode) -> Option<Z3BinOps> {
    match op {
        Opcode::Iadd | Opcode::IaddImm => Some(Z3BinOps::BVAdd),
        Opcode::Isub => Some(Z3BinOps::BVSub),
        Opcode::Imul | Opcode::ImulImm => Some(Z3BinOps::BVMul),
        Opcode::Udiv | Opcode::UdivImm => Some(Z3BinOps::BVUdiv),
        Opcode::Sdiv | Opcode::SdivImm => Some(Z3BinOps::BVSdiv),
        Opcode::Urem | Opcode::UremImm => Some(Z3BinOps::BVUrem),
        Opcode::Srem | Opcode::SremImm => Some(Z3BinOps::BVSrem),
        Opcode::Band | Opcode::BandImm => Some(Z3BinOps::BVAnd),
        Opcode::Bor | Opcode::BorImm => Some(Z3BinOps::BVOr),
        Opcode::Bxor | Opcode::BxorImm => Some(Z3BinOps::BVXor),
        Opcode::Ishl => Some(Z3BinOps::BVShl),
        Opcode::Ushr => Some(Z3BinOps::BVLshr),
        Opcode::Sshr => Some(Z3BinOps::BVAshr),
        _ => None,
    }
}

/// The number of bits that a load opcode reads when its result has
/// `returned` bits; `None` for an opcode that is no load.
pub open spec fn loaded_width(op: Opcode, returned: nat) -> Option<nat> {
    match op {
        Opcode::Load => Some(returned),
        Opcode::Uload8 | Opcode::Sload8 => Some(8),
        Opcode::Uload16 | Opcode::Sload16 => Some(16),
        Opcode::Uload32 | Opcode::Sload32 => Some(32),
        _ => None,
    }
}

/// How a load opcode widens what it read; `None` for a plain load and for
/// an opcode that is no load.
pub open spec fn load_extension(op: Opcode) -> Option<Z3UnOps> {
    match op {
        Opcode::Uload8 | Opcode::Uload16 | Opcode::Uload32 => Some(Z3UnOps::BVZeroExt),
        Opcode::Sload8 | Opcode::Sload16 | Opcode::Sload32 => Some(Z3UnOps::BVSignExt),
        _ => None,
    }
}

/// The number of bits that a store opcode writes when its operand has
/// `operand` bits; `None` for an opcode that is no store.
pub open spec fn stored_width(op: Opcode, operand: nat) -> Option<nat> {
    match op {
        Opcode::Store => Some(operand),
        Opcode::Istore8 => Some(8),
        Opcode::Istore16 => Some(16),
        Opcode::Istore32 => Some(32),
        _ => None,
    }
}

/// What `load_info` answers: the error it reports, or the loaded width, the
/// returned width and the extension.
pub open spec fn load_shape(
    op: Opcode,
    typ: Sort,
) -> Result<(u32, u32, Option<Z3UnOps>), TranslateError> {
    if !typ.wf() {
        Err(TranslateError::StructuralError)
    } else if loaded_width(op, typ.width()) is None {
        Err(TranslateError::UnsupportedOpcodeError(op))
    } else if load_extension(op) is Some && !typ.scalar_shape() {
        Err(TranslateError::TypeError)
    } else {
        Ok((loaded_width(op, typ.width())->0 as u32, typ.width() as u32, load_extension(op)))
    }
}

/// What `store_info` answers: the error it reports, or the stored width
/// and the operand's width.
pub open spec fn store_shape(op: Opcode, typ: Sort) -> Result<(u32, u32), TranslateError> {
    if !typ.wf() {
        Err(TranslateError::StructuralError)
    } else if stored_width(op, typ.width()) is None {
        Err(TranslateError::UnsupportedOpcodeError(op))
    } else {
        Ok((stored_width(op, typ.width())->0 as u32, typ.width() as u32))
    }
}

/// Maps a binary opcode, plain or with an immediate operand, to the solver
/// operator that models it. The immediate forms share the operator of
/// their plain form. Any other opcode is unsupported.
pub fn bin_opcode_to_z3op(op: Opcode) -> (r: Result<Z3BinOps, TranslateError>)
    ensures
        r == match binary_operator(op) {
            Some(z3_op) => Ok::<Z3BinOps, TranslateError>(z3_op),
            None => Err(TranslateError::UnsupportedOpcodeError(op)),
        },
{
    match op {
        // plain binary instructions
        Opcode::Iadd => Ok(Z3BinOps::BVAdd),
        Opcode::Isub => Ok(Z3BinOps::BVSub),
        Opcode::Imul => Ok(Z3BinOps::BVMul),
        Opcode::Udiv => Ok(Z3BinOps::BVUdiv),
        Opcode::Sdiv => Ok(Z3BinOps::BVSdiv),
        Opcode::Urem => Ok(Z3BinOps::BVUrem),
        Opcode::Srem => Ok(Z3BinOps::BVSrem),
        Opcode::Band => Ok(Z3BinOps::BVAnd),
        Opcode::Bor => Ok(Z3BinOps::BVOr),
        Opcode::Bxor => Ok(Z3BinOps::BVXor),
        Opcode::Ishl => Ok(Z3BinOps::BVShl),
        Opcode::Ushr => Ok(Z3BinOps::BVLshr),
        Opcode::Sshr => Ok(Z3BinOps::BVAshr),
        // binary instructions with an immediate operand
        Opcode::IaddImm => Ok(Z3BinOps::BVAdd),
        Opcode::ImulImm => Ok(Z3BinOps::BVMul),
        Opcode::UdivImm => Ok(Z3BinOps::BVUdiv),
        Opcode::SdivImm => Ok(Z3BinOps::BVSdiv),
        Opcode::UremImm => Ok(Z3BinOps::BVUrem),
        Opcode::SremImm => Ok(Z3BinOps::BVSrem),
        Opcode::BandImm => Ok(Z3BinOps::BVAnd),
        Opcode::BorImm => Ok(Z3BinOps::BVOr),
        Opcode::BxorImm => Ok(Z3BinOps::BVXor),
        _ => Err(TranslateError::UnsupportedOpcodeError(op)),
    }
}

/// For a load opcode and the sort of its result: the number of bits read
/// from memory, the number of bits returned, and how the value read is
/// widened. An extending load must return a scalar.
pub fn load_info(op: Opcode, typ: &Sort) -> (r: Result<(u32, u32, Option<Z3UnOps>), TranslateError>)
    ensures
        r == load_shape(op, *typ),
{
    let returned_size: u32 = match typ.bits() {
        Some(bits) => bits,
        None => {
            return Err(TranslateError::StructuralError);
        },
    };
    let loaded_size: u32 = match op {
        Opcode::Load => returned_size,
        Opcode::Uload8 | Opcode::Sload8 => 8,
        Opcode::Uload16 | Opcode::Sload16 => 16,
        Opcode::Uload32 | Opcode::Sload32 => 32,
        _ => {
            return Err(TranslateError::UnsupportedOpcodeError(op));
        },
    };
    let ext_fun: Option<Z3UnOps> = match op {
        Opcode::Uload8 | Opcode::Uload16 | Opcode::Uload32 => Some(Z3UnOps::BVZeroExt),
        Opcode::Sload8 | Opcode::Sload16 | Opcode::Sload32 => Some(Z3UnOps::BVSignExt),
        _ => None,
    };
    if ext_fun.is_some() && !typ.is_scalar() {
        return Err(TranslateError::TypeError);
    }
    Ok((loaded_size, returned_size, ext_fun))
}

/// For a store opcode and the sort of the stored operand: the number of
/// bits written to memory and the operand's width.
pub fn store_info(op: Opcode, typ: &Sort) -> (r: Result<(u32, u32), TranslateError>)
    ensures
        r == store_shape(op, *typ),
{
    let arg_size: u32 = match typ.bits() {
        Some(bits) => bits,
        None => {
            return Err(TranslateError::StructuralError);
        },
    };
    let stored_size: u32 = match op {
        Opcode::Store => arg_size,
        Opcode::Istore8 => 8,
        Opcode::Istore16 => 16,
        Opcode::Istore32 => 32,
        _ => {
            return Err(TranslateError::UnsupportedOpcodeError(op));
        },
    };
    Ok((stored_size, arg_size))
}

} // verus!
