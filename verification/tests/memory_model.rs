use cretonne_semantics::error::TranslateError;
use cretonne_semantics::instr::{Instr, Step};
use cretonne_semantics::opcode::Opcode;
use cretonne_semantics::sort::Sort;
use cretonne_semantics::state::Z3State;
use z3::ast::{Ast, BV};
use z3::{Config, Context, SatResult, Solver};

fn proves_equal<'ctx>(ctx: &'ctx Context, a: &BV<'ctx>, b: &BV<'ctx>) -> bool {
    let solver = Solver::new(ctx);
    solver.assert(&a._eq(b).not());
    solver.check() == SatResult::Unsat
}

fn store(op: Opcode, value: u32, base: u32, offset: i32) -> Instr {
    Instr::Store { op, value, base, addr_sort: Sort::scalar(32), offset }
}

fn load(dest: u32, op: Opcode, base: u32, offset: i32, bits: u32) -> Instr {
    Instr::Load { dest, op, base, addr_sort: Sort::scalar(32), offset, dest_sort: Sort::scalar(bits) }
}

#[test]
fn load_after_store_at_the_same_address_yields_the_value() {
    let ctx = Context::new(&Config::new());
    let mut state = Z3State::new(&ctx);
    let a = BV::new_const(&ctx, "A", 32);
    let v = BV::new_const(&ctx, "V", 32);
    state.define(0, a, Sort::scalar(32)).unwrap();
    state.define(1, v.clone(), Sort::scalar(32)).unwrap();
    assert_eq!(state.add_instr(&store(Opcode::Store, 1, 0, 12)), Ok(Step::Stored(1)));
    assert_eq!(state.memory_version(), 1);
    assert_eq!(state.add_instr(&load(2, Opcode::Load, 0, 12, 32)), Ok(Step::Defined(2)));
    let got = state.lookup(2, Some(Sort::scalar(32))).unwrap();
    assert_eq!(got.get_size(), 32);
    assert!(proves_equal(&ctx, got, &v));
}

#[test]
fn load_at_a_different_address_is_unaffected_by_the_store() {
    let ctx = Context::new(&Config::new());
    let mut state = Z3State::new(&ctx);
    let a = BV::new_const(&ctx, "A", 32);
    let b = BV::new_const(&ctx, "B", 32);
    let v = BV::new_const(&ctx, "V", 8);
    state.define(0, a.clone(), Sort::scalar(32)).unwrap();
    state.define(1, b.clone(), Sort::scalar(32)).unwrap();
    state.define(2, v, Sort::scalar(8)).unwrap();
    assert_eq!(state.add_instr(&load(3, Opcode::Load, 1, 0, 8)), Ok(Step::Defined(3)));
    assert_eq!(state.add_instr(&store(Opcode::Store, 2, 0, 0)), Ok(Step::Stored(1)));
    assert_eq!(state.add_instr(&load(4, Opcode::Load, 1, 0, 8)), Ok(Step::Defined(4)));
    let before = state.lookup(3, None).unwrap();
    let after = state.lookup(4, None).unwrap();

    // where the addresses differ the store is not seen
    let solver = Solver::new(&ctx);
    solver.assert(&a._eq(&b).not());
    solver.assert(&before._eq(after).not());
    assert_eq!(solver.check(), SatResult::Unsat);
    // where they may coincide it can be
    assert!(!proves_equal(&ctx, before, after));
}

#[test]
fn wide_accesses_that_do_not_overlap_are_independent() {
    let ctx = Context::new(&Config::new());
    let mut state = Z3State::new(&ctx);
    let a = BV::new_const(&ctx, "A", 32);
    let v = BV::new_const(&ctx, "V", 32);
    state.define(0, a, Sort::scalar(32)).unwrap();
    state.define(1, v, Sort::scalar(32)).unwrap();
    state.add_instr(&load(2, Opcode::Load, 0, 4, 32)).unwrap();
    state.add_instr(&store(Opcode::Store, 1, 0, 0)).unwrap();
    state.add_instr(&load(3, Opcode::Load, 0, 4, 32)).unwrap();
    state.add_instr(&load(4, Opcode::Load, 0, 3, 32)).unwrap();
    let before = state.lookup(2, None).unwrap();
    let after = state.lookup(3, None).unwrap();
    assert!(proves_equal(&ctx, before, after));
    // one byte of overlap is seen
    let overlapping = state.lookup(4, None).unwrap();
    assert!(!proves_equal(&ctx, before, overlapping));
}

#[test]
fn narrow_loads_extend_by_zeros_or_by_the_sign() {
    let ctx = Context::new(&Config::new());
    let mut state = Z3State::new(&ctx);
    let a = BV::new_const(&ctx, "A", 32);
    state.define(0, a, Sort::scalar(32)).unwrap();
    state.add_instr(&Instr::Constant { dest: 1, width: 8, imm: 0xff }).unwrap();
    assert_eq!(state.add_instr(&store(Opcode::Store, 1, 0, 0)), Ok(Step::Stored(1)));
    assert_eq!(state.add_instr(&load(2, Opcode::Uload8, 0, 0, 32)), Ok(Step::Defined(2)));
    assert_eq!(state.add_instr(&load(3, Opcode::Sload8, 0, 0, 32)), Ok(Step::Defined(3)));
    let unsigned = state.lookup(2, Some(Sort::scalar(32))).unwrap();
    let signed = state.lookup(3, Some(Sort::scalar(32))).unwrap();
    assert_eq!(unsigned.get_size(), 32);
    assert_eq!(signed.get_size(), 32);
    assert!(proves_equal(&ctx, unsigned, &BV::from_u64(&ctx, 0x0000_00ff, 32)));
    assert!(proves_equal(&ctx, signed, &BV::from_u64(&ctx, 0xffff_ffff, 32)));
}

#[test]
fn sixteen_and_thirty_two_bit_loads_extend_too() {
    let ctx = Context::new(&Config::new());
    let mut state = Z3State::new(&ctx);
    let a = BV::new_const(&ctx, "A", 32);
    state.define(0, a, Sort::scalar(32)).unwrap();
    state.add_instr(&Instr::Constant { dest: 1, width: 32, imm: 0x8765_4321 }).unwrap();
    state.add_instr(&store(Opcode::Store, 1, 0, 0)).unwrap();
    let cases: [(Opcode, u64); 6] = [
        (Opcode::Uload16, 0x0000_0000_0000_4321),
        (Opcode::Sload16, 0x0000_0000_0000_4321),
        (Opcode::Uload32, 0x0000_0000_8765_4321),
        (Opcode::Sload32, 0xffff_ffff_8765_4321),
        (Opcode::Uload8, 0x0000_0000_0000_0021),
        (Opcode::Load, 0x0000_0000_8765_4321),
    ];
    let mut dest = 10;
    for (op, expected) in cases {
        let bits = if op == Opcode::Load { 32 } else { 64 };
        assert_eq!(state.add_instr(&load(dest, op, 0, 0, bits)), Ok(Step::Defined(dest)));
        let got = state.lookup(dest, Some(Sort::scalar(bits))).unwrap();
        assert!(proves_equal(&ctx, got, &BV::from_u64(&ctx, expected, bits)));
        dest += 1;
    }
    // the second byte is the sign of a 16-bit load from one byte up
    assert_eq!(state.add_instr(&load(30, Opcode::Sload16, 0, 2, 32)), Ok(Step::Defined(30)));
    let got = state.lookup(30, None).unwrap();
    assert!(proves_equal(&ctx, got, &BV::from_u64(&ctx, 0xffff_8765, 32)));
}

#[test]
fn narrow_stores_write_the_low_bits_only() {
    let ctx = Context::new(&Config::new());
    let mut state = Z3State::new(&ctx);
    let a = BV::new_const(&ctx, "A", 32);
    state.define(0, a, Sort::scalar(32)).unwrap();
    state.add_instr(&Instr::Constant { dest: 1, width: 32, imm: 0x1122_3344 }).unwrap();
    state.add_instr(&Instr::Constant { dest: 2, width: 32, imm: 0x5566_7788 }).unwrap();
    assert_eq!(state.add_instr(&store(Opcode::Store, 1, 0, 0)), Ok(Step::Stored(1)));
    assert_eq!(state.add_instr(&store(Opcode::Istore8, 2, 0, 0)), Ok(Step::Stored(2)));
    state.add_instr(&load(3, Opcode::Load, 0, 0, 32)).unwrap();
    let got = state.lookup(3, None).unwrap();
    assert!(proves_equal(&ctx, got, &BV::from_u64(&ctx, 0x1122_3388, 32)));
    assert_eq!(state.add_instr(&store(Opcode::Istore16, 2, 0, 2)), Ok(Step::Stored(3)));
    state.add_instr(&load(4, Opcode::Load, 0, 0, 32)).unwrap();
    let got = state.lookup(4, None).unwrap();
    assert!(proves_equal(&ctx, got, &BV::from_u64(&ctx, 0x7788_3388, 32)));
    state.add_instr(&Instr::Constant { dest: 5, width: 64, imm: 0x0102_0304_0506_0708 }).unwrap();
    assert_eq!(state.add_instr(&store(Opcode::Istore32, 5, 0, 0)), Ok(Step::Stored(4)));
    state.add_instr(&load(6, Opcode::Load, 0, 0, 32)).unwrap();
    let got = state.lookup(6, None).unwrap();
    assert!(proves_equal(&ctx, got, &BV::from_u64(&ctx, 0x0506_0708, 32)));
    assert_eq!(state.memory_version(), 4);
}

#[test]
fn memory_is_little_endian() {
    let ctx = Context::new(&Config::new());
    let mut state = Z3State::new(&ctx);
    let a = BV::new_const(&ctx, "A", 32);
    state.define(0, a, Sort::scalar(32)).unwrap();
    state.add_instr(&Instr::Constant { dest: 1, width: 32, imm: 0x1122_3344 }).unwrap();
    state.add_instr(&store(Opcode::Store, 1, 0, 0)).unwrap();
    let bytes: [u64; 4] = [0x44, 0x33, 0x22, 0x11];
    for (k, expected) in bytes.iter().enumerate() {
        let dest = 10 + k as u32;
        state.add_instr(&load(dest, Opcode::Load, 0, k as i32, 8)).unwrap();
        let got = state.lookup(dest, None).unwrap();
        assert!(proves_equal(&ctx, got, &BV::from_u64(&ctx, *expected, 8)));
    }
}

#[test]
fn addresses_wrap_around_at_the_address_width() {
    let ctx = Context::new(&Config::new());
    let mut state = Z3State::with_widths(&ctx, 8, 8).unwrap();
    let addr = Sort::scalar(8);
    state.add_instr(&Instr::Constant { dest: 0, width: 8, imm: 250 }).unwrap();
    state.add_instr(&Instr::Constant { dest: 1, width: 8, imm: 4 }).unwrap();
    state.add_instr(&Instr::Constant { dest: 2, width: 8, imm: 0xab }).unwrap();
    assert_eq!(
        state.add_instr(&Instr::Store { op: Opcode::Store, value: 2, base: 0, addr_sort: addr, offset: 10 }),
        Ok(Step::Stored(1))
    );
    let at_four = Instr::Load { dest: 3, op: Opcode::Load, base: 1, addr_sort: addr, offset: 0, dest_sort: addr };
    assert_eq!(state.add_instr(&at_four), Ok(Step::Defined(3)));
    let got = state.lookup(3, None).unwrap();
    assert!(proves_equal(&ctx, got, &BV::from_u64(&ctx, 0xab, 8)));
    // the address itself
    let base = state.lookup(0, None).unwrap();
    let effective = base.bvadd(&BV::from_i64(&ctx, 10, 8)).simplify();
    assert_eq!(effective.as_u64(), Some(4));
    // a negative offset wraps the same way
    let below = Instr::Load { dest: 4, op: Opcode::Load, base: 0, addr_sort: addr, offset: -246, dest_sort: addr };
    assert_eq!(state.add_instr(&below), Ok(Step::Defined(4)));
    let got = state.lookup(4, None).unwrap();
    assert!(proves_equal(&ctx, got, &BV::from_u64(&ctx, 0xab, 8)));
}

#[test]
fn a_wide_access_wraps_around_the_end_of_memory() {
    let ctx = Context::new(&Config::new());
    let mut state = Z3State::with_widths(&ctx, 8, 8).unwrap();
    let addr = Sort::scalar(8);
    state.add_instr(&Instr::Constant { dest: 0, width: 8, imm: 255 }).unwrap();
    state.add_instr(&Instr::Constant { dest: 1, width: 8, imm: 0 }).unwrap();
    state.add_instr(&Instr::Constant { dest: 2, width: 16, imm: 0x1234 }).unwrap();
    state
        .add_instr(&Instr::Store { op: Opcode::Store, value: 2, base: 0, addr_sort: addr, offset: 0 })
        .unwrap();
    let at_zero = Instr::Load { dest: 3, op: Opcode::Load, base: 1, addr_sort: addr, offset: 0, dest_sort: addr };
    state.add_instr(&at_zero).unwrap();
    let got = state.lookup(3, None).unwrap();
    assert!(proves_equal(&ctx, got, &BV::from_u64(&ctx, 0x12, 8)));
}

#[test]
fn an_access_that_is_no_multiple_of_the_cell_width_is_rejected() {
    let ctx = Context::new(&Config::new());
    let mut state = Z3State::with_widths(&ctx, 32, 16).unwrap();
    let a = BV::new_const(&ctx, "A", 32);
    state.define(0, a, Sort::scalar(32)).unwrap();
    state.add_instr(&Instr::Constant { dest: 1, width: 8, imm: 1 }).unwrap();
    state.add_instr(&Instr::Constant { dest: 2, width: 24, imm: 1 }).unwrap();
    state.add_instr(&Instr::Constant { dest: 3, width: 32, imm: 1 }).unwrap();
    let logged = state.definitions().len();

    // smaller than one cell
    assert_eq!(state.add_instr(&load(9, Opcode::Uload8, 0, 0, 32)), Err(TranslateError::TypeError));
    assert_eq!(state.add_instr(&load(9, Opcode::Load, 0, 0, 8)), Err(TranslateError::TypeError));
    assert_eq!(state.add_instr(&store(Opcode::Store, 1, 0, 0)), Err(TranslateError::TypeError));
    assert_eq!(state.add_instr(&store(Opcode::Istore8, 3, 0, 0)), Err(TranslateError::TypeError));
    // larger, but no multiple
    assert_eq!(state.add_instr(&load(9, Opcode::Load, 0, 0, 24)), Err(TranslateError::TypeError));
    assert_eq!(state.add_instr(&store(Opcode::Store, 2, 0, 0)), Err(TranslateError::TypeError));
    // zero bits
    let zero = Instr::Load {
        dest: 9,
        op: Opcode::Load,
        base: 0,
        addr_sort: Sort::scalar(32),
        offset: 0,
        dest_sort: Sort::scalar(0),
    };
    assert_eq!(state.add_instr(&zero), Err(TranslateError::StructuralError));

    assert!(!state.is_defined(9));
    assert_eq!(state.definitions().len(), logged);
    assert_eq!(state.memory_version(), 0);

    // whole cells pass
    assert_eq!(state.add_instr(&load(9, Opcode::Uload16, 0, 0, 32)), Ok(Step::Defined(9)));
    assert_eq!(state.add_instr(&store(Opcode::Istore16, 3, 0, 0)), Ok(Step::Stored(1)));
}

#[test]
fn load_errors_bind_nothing() {
    let ctx = Context::new(&Config::new());
    let mut state = Z3State::new(&ctx);
    let a = BV::new_const(&ctx, "A", 32);
    state.define(0, a, Sort::scalar(32)).unwrap();
    state.add_instr(&Instr::Constant { dest: 1, width: 16, imm: 1 }).unwrap();
    state.define(2, BV::new_const(&ctx, "W", 32), Sort::vector(2, 16)).unwrap();
    let logged = state.definitions().len();

    // a 16-bit value as an address
    let short = Instr::Load {
        dest: 9,
        op: Opcode::Load,
        base: 1,
        addr_sort: Sort::scalar(16),
        offset: 0,
        dest_sort: Sort::scalar(32),
    };
    assert_eq!(state.add_instr(&short), Err(TranslateError::TypeError));
    // a vector as an address
    let vector = Instr::Load {
        dest: 9,
        op: Opcode::Load,
        base: 2,
        addr_sort: Sort::vector(2, 16),
        offset: 0,
        dest_sort: Sort::scalar(32),
    };
    assert_eq!(state.add_instr(&vector), Err(TranslateError::TypeError));
    // the base bound at another sort than stated
    assert_eq!(state.add_instr(&load(9, Opcode::Load, 2, 0, 32)), Err(TranslateError::TypeError));
    assert_eq!(
        state.add_instr(&load(9, Opcode::Load, 5, 0, 32)),
        Err(TranslateError::UndefinedValueError(5))
    );
    assert_eq!(
        state.add_instr(&load(9, Opcode::Store, 0, 0, 32)),
        Err(TranslateError::UnsupportedOpcodeError(Opcode::Store))
    );
    // an extending load into fewer bits than it reads
    assert_eq!(state.add_instr(&load(9, Opcode::Uload32, 0, 0, 16)), Err(TranslateError::TypeError));
    // an extending load into a vector
    let into_vector = Instr::Load {
        dest: 9,
        op: Opcode::Sload8,
        base: 0,
        addr_sort: Sort::scalar(32),
        offset: 0,
        dest_sort: Sort::vector(2, 16),
    };
    assert_eq!(state.add_instr(&into_vector), Err(TranslateError::TypeError));
    assert_eq!(state.add_instr(&load(0, Opcode::Load, 0, 0, 32)), Err(TranslateError::RedefinitionError(0)));
    let malformed = Instr::Load {
        dest: 9,
        op: Opcode::Load,
        base: 0,
        addr_sort: Sort::vector(0, 32),
        offset: 0,
        dest_sort: Sort::scalar(32),
    };
    assert_eq!(state.add_instr(&malformed), Err(TranslateError::StructuralError));

    assert!(!state.is_defined(9));
    assert_eq!(state.definitions().len(), logged);

    // a plain load into a vector is fine
    let plain = Instr::Load {
        dest: 9,
        op: Opcode::Load,
        base: 0,
        addr_sort: Sort::scalar(32),
        offset: 0,
        dest_sort: Sort::vector(2, 16),
    };
    assert_eq!(state.add_instr(&plain), Ok(Step::Defined(9)));
    // and an extending load of exactly its width adds no bits
    assert_eq!(state.add_instr(&load(10, Opcode::Uload32, 0, 0, 32)), Ok(Step::Defined(10)));
    assert_eq!(state.lookup(10, None).unwrap().get_size(), 32);
}

#[test]
fn store_errors_leave_memory_alone() {
    let ctx = Context::new(&Config::new());
    let mut state = Z3State::new(&ctx);
    let a = BV::new_const(&ctx, "A", 32);
    state.define(0, a, Sort::scalar(32)).unwrap();
    state.add_instr(&Instr::Constant { dest: 1, width: 16, imm: 1 }).unwrap();
    let logged = state.definitions().len();
    let before = format!("{}", state.lookup_mem());

    assert_eq!(
        state.add_instr(&store(Opcode::Store, 7, 0, 0)),
        Err(TranslateError::UndefinedValueError(7))
    );
    assert_eq!(
        state.add_instr(&store(Opcode::Store, 1, 7, 0)),
        Err(TranslateError::UndefinedValueError(7))
    );
    assert_eq!(
        state.add_instr(&store(Opcode::Load, 1, 0, 0)),
        Err(TranslateError::UnsupportedOpcodeError(Opcode::Load))
    );
    // more bits than the value has
    assert_eq!(state.add_instr(&store(Opcode::Istore32, 1, 0, 0)), Err(TranslateError::TypeError));
    // the base bound at another sort than stated
    assert_eq!(state.add_instr(&store(Opcode::Store, 1, 1, 0)), Err(TranslateError::TypeError));
    let short = Instr::Store { op: Opcode::Store, value: 1, base: 1, addr_sort: Sort::scalar(16), offset: 0 };
    assert_eq!(state.add_instr(&short), Err(TranslateError::TypeError));
    let malformed = Instr::Store { op: Opcode::Store, value: 1, base: 0, addr_sort: Sort::scalar(0), offset: 0 };
    assert_eq!(state.add_instr(&malformed), Err(TranslateError::StructuralError));

    assert_eq!(state.memory_version(), 0);
    assert_eq!(state.definitions().len(), logged);
    assert_eq!(format!("{}", state.lookup_mem()), before);
}

#[test]
fn stores_are_logged_as_mem_n() {
    let ctx = Context::new(&Config::new());
    let mut state = Z3State::new(&ctx);
    state.add_instr(&Instr::Constant { dest: 0, width: 32, imm: 16 }).unwrap();
    state.add_instr(&Instr::Constant { dest: 1, width: 8, imm: 7 }).unwrap();
    for n in 1..=11u64 {
        assert_eq!(state.add_instr(&store(Opcode::Store, 1, 0, n as i32)), Ok(Step::Stored(n)));
    }
    state.add_instr(&Instr::Constant { dest: 2, width: 8, imm: 7 }).unwrap();
    let log = state.definitions();
    assert_eq!(log.len(), 15);
    assert_eq!(log[0].name, "mem_0");
    assert_eq!(log[1].name, "ssa_0");
    assert_eq!(log[2].name, "ssa_1");
    assert_eq!(log[3].name, "mem_1");
    assert_eq!(log[12].name, "mem_10");
    assert_eq!(log[13].name, "mem_11");
    assert_eq!(log[14].name, "ssa_2");
    assert_eq!(log[13].text, format!("{}", state.lookup_mem()));
    assert_eq!(state.memory_version(), 11);
    // earlier versions are kept
    assert_eq!(state.lookup_mem_version(11), Some(state.lookup_mem()));
    assert_eq!(log[0].text, format!("{}", state.lookup_mem_version(0).unwrap()));
    assert_eq!(log[3].text, format!("{}", state.lookup_mem_version(1).unwrap()));
    assert_ne!(state.lookup_mem_version(0), state.lookup_mem_version(1));
    assert_eq!(state.lookup_mem_version(12), None);
    assert_eq!(state.lookup_mem_version(u64::MAX), None);
}

#[test]
fn an_access_longer_than_the_address_space_overwrites_itself() {
    let ctx = Context::new(&Config::new());
    // two addresses only
    let mut state = Z3State::with_widths(&ctx, 1, 8).unwrap();
    let addr = Sort::scalar(1);
    state.add_instr(&Instr::Constant { dest: 0, width: 1, imm: 0 }).unwrap();
    state.add_instr(&Instr::Constant { dest: 1, width: 32, imm: 0x1122_3344 }).unwrap();
    state.add_instr(&Instr::Constant { dest: 2, width: 16, imm: 0x1234 }).unwrap();
    // two cells fit
    state
        .add_instr(&Instr::Store { op: Opcode::Store, value: 2, base: 0, addr_sort: addr, offset: 0 })
        .unwrap();
    let back = Instr::Load { dest: 3, op: Opcode::Load, base: 0, addr_sort: addr, offset: 0, dest_sort: Sort::scalar(16) };
    state.add_instr(&back).unwrap();
    assert!(proves_equal(&ctx, state.lookup(3, None).unwrap(), &BV::from_u64(&ctx, 0x1234, 16)));
    // four cells do not: the upper two land on the lower two
    state
        .add_instr(&Instr::Store { op: Opcode::Store, value: 1, base: 0, addr_sort: addr, offset: 0 })
        .unwrap();
    let back = Instr::Load { dest: 4, op: Opcode::Load, base: 0, addr_sort: addr, offset: 0, dest_sort: Sort::scalar(32) };
    state.add_instr(&back).unwrap();
    assert!(proves_equal(&ctx, state.lookup(4, None).unwrap(), &BV::from_u64(&ctx, 0x1122_1122, 32)));
}
