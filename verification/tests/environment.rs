use cretonne_semantics::error::TranslateError;
use cretonne_semantics::sort::Sort;
use cretonne_semantics::state::Z3State;
use z3::ast::BV;
use z3::{Config, Context};

#[test]
fn lookup_after_define_returns_the_formula() {
    let ctx = Context::new(&Config::new());
    let mut state = Z3State::new(&ctx);
    let f = BV::new_const(&ctx, "f", 32);
    assert_eq!(state.define(7, f.clone(), Sort::scalar(32)), Ok(()));
    let found = state.lookup(7, Some(Sort::scalar(32))).unwrap();
    assert_eq!(*found, f);
    let found = state.lookup(7, None).unwrap();
    assert_eq!(*found, f);
}

#[test]
fn second_define_is_a_redefinition_and_keeps_the_first() {
    let ctx = Context::new(&Config::new());
    let mut state = Z3State::new(&ctx);
    let first = BV::new_const(&ctx, "first", 16);
    let second = BV::new_const(&ctx, "second", 16);
    assert_eq!(state.define(3, first.clone(), Sort::scalar(16)), Ok(()));
    let logged = state.definitions().len();
    assert_eq!(
        state.define(3, second.clone(), Sort::scalar(16)),
        Err(TranslateError::RedefinitionError(3))
    );
    // also where the second formula has another sort
    assert_eq!(
        state.define(3, BV::new_const(&ctx, "third", 8), Sort::scalar(8)),
        Err(TranslateError::RedefinitionError(3))
    );
    assert_eq!(*state.lookup(3, Some(Sort::scalar(16))).unwrap(), first);
    assert_eq!(state.definitions().len(), logged);
    assert_eq!(state.sort_of(3), Some(Sort::scalar(16)));
}

#[test]
fn lookup_of_an_unbound_value_is_undefined() {
    let ctx = Context::new(&Config::new());
    let mut state = Z3State::new(&ctx);
    assert_eq!(state.lookup(0, None).err(), Some(TranslateError::UndefinedValueError(0)));
    assert_eq!(
        state.lookup(9, Some(Sort::scalar(32))).err(),
        Some(TranslateError::UndefinedValueError(9))
    );
    state.define(1, BV::from_i64(&ctx, 1, 32), Sort::scalar(32)).unwrap();
    assert_eq!(state.lookup(2, None).err(), Some(TranslateError::UndefinedValueError(2)));
    assert!(!state.is_defined(2));
    assert!(state.is_defined(1));
    assert_eq!(state.sort_of(2), None);
}

#[test]
fn lookup_at_another_sort_is_a_type_error() {
    let ctx = Context::new(&Config::new());
    let mut state = Z3State::new(&ctx);
    state.define(1, BV::from_i64(&ctx, 1, 32), Sort::scalar(32)).unwrap();
    assert_eq!(
        state.lookup(1, Some(Sort::scalar(16))).err(),
        Some(TranslateError::TypeError)
    );
    // same width, other shape
    assert_eq!(
        state.lookup(1, Some(Sort::vector(4, 8))).err(),
        Some(TranslateError::TypeError)
    );
}

#[test]
fn define_rejects_a_formula_of_another_width() {
    let ctx = Context::new(&Config::new());
    let mut state = Z3State::new(&ctx);
    let narrow = BV::new_const(&ctx, "narrow", 8);
    assert_eq!(state.define(1, narrow, Sort::scalar(32)), Err(TranslateError::TypeError));
    assert!(!state.is_defined(1));
    assert_eq!(state.definitions().len(), 1);
}

#[test]
fn define_rejects_a_formula_of_another_context() {
    let ctx = Context::new(&Config::new());
    let other = Context::new(&Config::new());
    let mut state = Z3State::new(&ctx);
    let foreign = BV::new_const(&other, "foreign", 32);
    assert_eq!(state.define(1, foreign, Sort::scalar(32)), Err(TranslateError::TypeError));
    assert!(!state.is_defined(1));
}

#[test]
fn define_rejects_a_malformed_sort() {
    let ctx = Context::new(&Config::new());
    let mut state = Z3State::new(&ctx);
    let f = BV::new_const(&ctx, "f", 8);
    assert_eq!(
        state.define(1, f.clone(), Sort::vector(0, 8)),
        Err(TranslateError::StructuralError)
    );
    assert_eq!(
        state.define(1, f.clone(), Sort::vector(8, 0)),
        Err(TranslateError::StructuralError)
    );
    assert_eq!(
        state.define(1, f.clone(), Sort::vector(65536, 65536)),
        Err(TranslateError::StructuralError)
    );
    assert_eq!(
        state.define(1, f, Sort::scalar(65536)),
        Err(TranslateError::StructuralError)
    );
}

#[test]
fn a_new_environment_has_memory_version_zero_and_default_widths() {
    let ctx = Context::new(&Config::new());
    let state = Z3State::new(&ctx);
    assert_eq!(state.addr_bits(), 32);
    assert_eq!(state.cell_bits(), 8);
    assert_eq!(state.memory_version(), 0);
    let log = state.definitions();
    assert_eq!(log.len(), 1);
    assert_eq!(log[0].name, "mem_0");
    assert_eq!(log[0].text, format!("{}", state.lookup_mem()));
    assert!(std::ptr::eq(state.solver_context(), &ctx));
}

#[test]
fn two_environments_get_different_memory_constants() {
    let ctx = Context::new(&Config::new());
    let a = Z3State::new(&ctx);
    let b = Z3State::new(&ctx);
    assert_ne!(a.lookup_mem(), b.lookup_mem());
}

#[test]
fn widths_of_zero_are_rejected() {
    let ctx = Context::new(&Config::new());
    assert_eq!(
        Z3State::with_widths(&ctx, 0, 8).err(),
        Some(TranslateError::StructuralError)
    );
    assert_eq!(
        Z3State::with_widths(&ctx, 32, 0).err(),
        Some(TranslateError::StructuralError)
    );
    assert_eq!(
        Z3State::with_widths(&ctx, 65536, 8).err(),
        Some(TranslateError::StructuralError)
    );
    assert_eq!(
        Z3State::with_widths(&ctx, 32, u32::MAX).err(),
        Some(TranslateError::StructuralError)
    );
    let state = Z3State::with_widths(&ctx, 16, 4).unwrap();
    assert_eq!(state.addr_bits(), 16);
    assert_eq!(state.cell_bits(), 4);
    assert_eq!(state.memory_version(), 0);
}

#[test]
fn values_are_logged_as_ssa_n_in_order() {
    let ctx = Context::new(&Config::new());
    let mut state = Z3State::new(&ctx);
    let x = BV::new_const(&ctx, "x", 8);
    let y = BV::from_i64(&ctx, 5, 8);
    state.define(40, x.clone(), Sort::scalar(8)).unwrap();
    state.define(2, y.clone(), Sort::scalar(8)).unwrap();
    let log = state.definitions();
    assert_eq!(log.len(), 3);
    assert_eq!(log[1].name, "ssa_0");
    assert_eq!(log[1].text, "x");
    assert_eq!(log[2].name, "ssa_1");
    assert_eq!(log[2].text, "#x05");
    assert_eq!(log[2].text, format!("{}", y));
}
