use cretonne_semantics::error::TranslateError;
use cretonne_semantics::instr::{decode, Instr, InstructionData, Step, TypedValue};
use cretonne_semantics::opcode::Opcode;
use cretonne_semantics::sort::Sort;
use cretonne_semantics::state::Z3State;
use z3::ast::Ast;
use z3::{Config, Context};

fn typed(value: u32, bits: u32) -> TypedValue {
    TypedValue { value, ty: Sort::scalar(bits) }
}

#[test]
fn a_constant_decodes_to_its_record() {
    let data = InstructionData::UnaryImm { opcode: Opcode::Iconst, imm: -5 };
    assert_eq!(
        decode(&data, &vec![typed(3, 16)]),
        Ok(Instr::Constant { dest: 3, width: 16, imm: -5 })
    );
}

#[test]
fn a_wrong_number_of_results_is_malformed() {
    let a = typed(0, 32);
    let b = typed(1, 32);
    let r = typed(2, 32);
    let all = [
        InstructionData::UnaryImm { opcode: Opcode::Iconst, imm: 1 },
        InstructionData::Binary { opcode: Opcode::Iadd, lhs: a, rhs: b },
        InstructionData::BinaryImm { opcode: Opcode::IaddImm, arg: a, imm: 1 },
        InstructionData::Load { opcode: Opcode::Load, arg: a, offset: 0 },
    ];
    for data in all {
        assert_eq!(decode(&data, &vec![]), Err(TranslateError::StructuralError));
        assert_eq!(decode(&data, &vec![r, typed(3, 32)]), Err(TranslateError::StructuralError));
        assert!(decode(&data, &vec![r]).is_ok());
    }
    let store = InstructionData::Store { opcode: Opcode::Store, value: a, addr: b, offset: 0 };
    assert_eq!(decode(&store, &vec![r]), Err(TranslateError::StructuralError));
    assert_eq!(decode(&store, &vec![r, r]), Err(TranslateError::StructuralError));
    assert!(decode(&store, &vec![]).is_ok());
    // the number of results comes before the opcode
    let odd = InstructionData::UnaryImm { opcode: Opcode::Bconst, imm: 1 };
    assert_eq!(decode(&odd, &vec![]), Err(TranslateError::StructuralError));
}

#[test]
fn only_iconst_has_one_immediate_operand() {
    let odd = InstructionData::UnaryImm { opcode: Opcode::Bconst, imm: 1 };
    assert_eq!(
        decode(&odd, &vec![typed(0, 8)]),
        Err(TranslateError::UnsupportedOpcodeError(Opcode::Bconst))
    );
    let vector = TypedValue { value: 0, ty: Sort::vector(2, 8) };
    let data = InstructionData::UnaryImm { opcode: Opcode::Iconst, imm: 1 };
    assert_eq!(decode(&data, &vec![vector]), Err(TranslateError::TypeError));
    let empty = TypedValue { value: 0, ty: Sort::scalar(0) };
    assert_eq!(decode(&data, &vec![empty]), Err(TranslateError::StructuralError));
}

#[test]
fn operands_and_result_of_a_binary_instruction_share_their_type() {
    let a = typed(0, 32);
    let b = typed(1, 32);
    let data = InstructionData::Binary { opcode: Opcode::Imul, lhs: a, rhs: b };
    assert_eq!(
        decode(&data, &vec![typed(2, 32)]),
        Ok(Instr::Binary { dest: 2, op: Opcode::Imul, lhs: 0, rhs: 1, sort: Sort::scalar(32) })
    );
    assert_eq!(decode(&data, &vec![typed(2, 16)]), Err(TranslateError::TypeError));
    let mixed = InstructionData::Binary { opcode: Opcode::Imul, lhs: a, rhs: typed(1, 16) };
    assert_eq!(decode(&mixed, &vec![typed(2, 32)]), Err(TranslateError::TypeError));
    let lanes = InstructionData::Binary {
        opcode: Opcode::Imul,
        lhs: a,
        rhs: TypedValue { value: 1, ty: Sort::vector(4, 8) },
    };
    assert_eq!(decode(&lanes, &vec![typed(2, 32)]), Err(TranslateError::TypeError));

    let imm = InstructionData::BinaryImm { opcode: Opcode::BandImm, arg: a, imm: 255 };
    assert_eq!(
        decode(&imm, &vec![typed(2, 32)]),
        Ok(Instr::BinaryImmediate { dest: 2, op: Opcode::BandImm, arg: 0, sort: Sort::scalar(32), imm: 255 })
    );
    assert_eq!(decode(&imm, &vec![typed(2, 64)]), Err(TranslateError::TypeError));
}

#[test]
fn loads_stores_and_the_rest_decode_to_their_records() {
    let addr = typed(0, 32);
    let value = typed(1, 16);
    let load = InstructionData::Load { opcode: Opcode::Sload8, arg: addr, offset: -4 };
    assert_eq!(
        decode(&load, &vec![typed(2, 64)]),
        Ok(Instr::Load {
            dest: 2,
            op: Opcode::Sload8,
            base: 0,
            addr_sort: Sort::scalar(32),
            offset: -4,
            dest_sort: Sort::scalar(64)
        })
    );
    let store = InstructionData::Store { opcode: Opcode::Istore8, value, addr, offset: 12 };
    assert_eq!(
        decode(&store, &vec![]),
        Ok(Instr::Store { op: Opcode::Istore8, value: 1, base: 0, addr_sort: Sort::scalar(32), offset: 12 })
    );
    let call = InstructionData::Other { opcode: Opcode::Call };
    assert_eq!(decode(&call, &vec![]), Ok(Instr::Other { op: Opcode::Call }));
    assert_eq!(decode(&call, &vec![addr, value]), Ok(Instr::Other { op: Opcode::Call }));
}

#[test]
fn decoded_instructions_translate() {
    let ctx = Context::new(&Config::new());
    let mut state = Z3State::new(&ctx);
    let program = [
        (InstructionData::UnaryImm { opcode: Opcode::Iconst, imm: 6 }, vec![typed(0, 32)]),
        (InstructionData::UnaryImm { opcode: Opcode::Iconst, imm: 7 }, vec![typed(1, 32)]),
        (
            InstructionData::Binary { opcode: Opcode::Imul, lhs: typed(0, 32), rhs: typed(1, 32) },
            vec![typed(2, 32)],
        ),
        (
            InstructionData::Store { opcode: Opcode::Store, value: typed(2, 32), addr: typed(0, 32), offset: 0 },
            vec![],
        ),
        (InstructionData::Other { opcode: Opcode::Return }, vec![]),
        (
            InstructionData::Load { opcode: Opcode::Load, arg: typed(0, 32), offset: 0 },
            vec![typed(3, 32)],
        ),
    ];
    let mut steps = Vec::new();
    for (data, results) in program.iter() {
        let instr = decode(data, results).unwrap();
        steps.push(state.add_instr(&instr).unwrap());
    }
    assert_eq!(
        steps,
        vec![
            Step::Defined(0),
            Step::Defined(1),
            Step::Defined(2),
            Step::Stored(1),
            Step::Skipped(Opcode::Return),
            Step::Defined(3)
        ]
    );
    let loaded = state.lookup(3, Some(Sort::scalar(32))).unwrap();
    assert_eq!(loaded.simplify().as_u64(), Some(42));
    let names: Vec<&str> = state.definitions().iter().map(|d| d.name.as_str()).collect();
    assert_eq!(names, vec!["mem_0", "ssa_0", "ssa_1", "ssa_2", "mem_1", "ssa_3"]);
}
