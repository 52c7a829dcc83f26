//! Translation of straight-line SSA instructions into formulas of an SMT
//! solver: fixed-width bit-vectors for values, and one array from
//! addresses to cells for memory.
//!
//! A [`state::Z3State`] is the symbolic environment of one instruction
//! sequence. Instructions are handed to [`state::Z3State::add_instr`] in
//! program order, as [`instr::Instr`] records; each one binds a value to a
//! formula or makes the next version of memory. The formulas are handles of
//! the `z3` crate and can be given to a solver as they are.
//!
//! Contracts speak of the mathematical model of an environment,
//! [`env::Env`], in which a formula is the [`term::Term`] that its handle
//! stands for. [`translate::translate`] says what each instruction does to
//! the model, [`semantics::eval`] what a term means, and the module
//! [`theorems`] what follows: a load after a store reads the stored value,
//! a store leaves other cells alone, lanes of a vector do not mix.
//!
//! - [`sort`], [`opcode`], [`instr`], [`error`]: the plain data.
//! - [`typecheck`]: the checks on the sorts of a memory access.
//! - [`state`], [`env`], [`naming`]: the environment, its model and the
//!   names in its definition log.
//! - [`lanes`]: applying an operator to each lane of a vector.
//! - [`memory`]: loads and stores over cells.
//! - [`translate`]: the instruction translator.
//! - [`smt`]: the calls into the solver crate, which are believed.
//! - [`term`], [`semantics`], [`theorems`]: terms, their meaning, and
//!   theorems about the encodings.

pub mod env;
pub mod error;
pub mod instr;
pub mod lanes;
pub mod memory;
pub mod naming;
pub mod opcode;
pub mod semantics;
pub mod smt;
pub mod sort;
pub mod state;
pub mod term;
pub mod theorems;
pub mod translate;
pub mod typecheck;
