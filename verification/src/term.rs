//! The mathematical model of solver formulas.
//!
//! A [`Term`] is the syntax tree that a solver handle stands for. Contracts
//! speak of terms; executable code only ever holds handles.

use crate::opcode::Z3BinOps;
use vstd::arithmetic::power2::pow2;
use vstd::prelude::*;

verus! {

/// The syntax tree of a formula over bit-vectors and memories.
///
/// A memory is an array from addresses of `addr_bits` bits to cells of
/// `cell_bits` bits.
pub enum Term {
    /// The bit-vector constant of the given width and value.
    Numeral { width: nat, value: nat },
    /// A bit-vector leaf without structure, told apart by its key.
    Symbol { key: int, width: nat },
    /// A binary operator applied to two bit-vectors of one width.
    Binary { op: Z3BinOps, lhs: Box<Term>, rhs: Box<Term> },
    /// Bits `high` down to `low` of a bit-vector.
    Extract { high: nat, low: nat, arg: Box<Term> },
    /// Two bit-vectors side by side, `upper` in the most significant bits.
    Concat { upper: Box<Term>, lower: Box<Term> },
    /// A bit-vector widened by `extra` zero bits.
    ZeroExt { extra: nat, arg: Box<Term> },
    /// A bit-vector widened by `extra` copies of its sign bit.
    SignExt { extra: nat, arg: Box<Term> },
    /// The cell of a memory at an address.
    Select { mem: Box<Term>, index: Box<Term> },
    /// A memory leaf without structure, told apart by its key.
    Memory { key: int, addr_bits: nat, cell_bits: nat },
    /// A memory with one cell replaced.
    Store { mem: Box<Term>, index: Box<Term>, cell: Box<Term> },
}

/// Width of the addresses of a memory term; 0 for a bit-vector term.
pub open spec fn addr_bits(t: Term) -> nat
    decreases t,
{
    match t {
        Term::Memory { key, addr_bits, cell_bits } => addr_bits,
        Term::Store { mem, index, cell } => self::addr_bits(*mem),
        _ => 0,
    }
}

/// Width of the cells of a memory term; 0 for a bit-vector term.
pub open spec fn cell_bits(t: Term) -> nat
    decreases t,
{
    match t {
        Term::Memory { key, addr_bits, cell_bits } => cell_bits,
        Term::Store { mem, index, cell } => self::cell_bits(*mem),
        _ => 0,
    }
}

/// Width in bits of a bit-vector term; 0 for a memory term.
pub open spec fn width(t: Term) -> nat
    decreases t,
{
    match t {
        Term::Numeral { width, value } => width,
        Term::Symbol { key, width } => width,
        Term::Binary { op, lhs, rhs } => self::width(*lhs),
        Term::Extract { high, low, arg } => if low <= high {
            (high - low + 1) as nat
        } else {
            0
        },
        Term::Concat { upper, lower } => self::width(*upper) + self::width(*lower),
        Term::ZeroExt { extra, arg } => self::width(*arg) + extra,
        Term::SignExt { extra, arg } => self::width(*arg) + extra,
        Term::Select { mem, index } => cell_bits(*mem),
        Term::Memory { key, addr_bits, cell_bits } => 0,
        Term::Store { mem, index, cell } => 0,
    }
}

/// The constant of `width` bits that holds `value` modulo `2^width`.
pub open spec fn numeral(width: nat, value: int) -> Term {
    Term::Numeral { width, value: (value % pow2(width) as int) as nat }
}

/// `op` applied to `lhs` and `rhs`.
pub open spec fn binary(op: Z3BinOps, lhs: Term, rhs: Term) -> Term {
    Term::Binary { op, lhs: Box::new(lhs), rhs: Box::new(rhs) }
}

/// Bits `high` down to `low` of `arg`.
pub open spec fn extract(high: nat, low: nat, arg: Term) -> Term {
    Term::Extract { high, low, arg: Box::new(arg) }
}

/// `high` and `low` side by side.
pub open spec fn concat(high: Term, low: Term) -> Term {
    Term::Concat { upper: Box::new(high), lower: Box::new(low) }
}

/// `arg` widened by `extra` zero bits.
pub open spec fn zero_ext(extra: nat, arg: Term) -> Term {
    Term::ZeroExt { extra, arg: Box::new(arg) }
}

/// `arg` widened by `extra` copies of its sign bit.
pub open spec fn sign_ext(extra: nat, arg: Term) -> Term {
    Term::SignExt { extra, arg: Box::new(arg) }
}

/// The cell of `mem` at `index`.
pub open spec fn select(mem: Term, index: Term) -> Term {
    Term::Select { mem: Box::new(mem), index: Box::new(index) }
}

/// `mem` with the cell at `index` replaced by `value`.
pub open spec fn store(mem: Term, index: Term, value: Term) -> Term {
    Term::Store { mem: Box::new(mem), index: Box::new(index), cell: Box::new(value) }
}

} // verus!
