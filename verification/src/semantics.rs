//! What a term denotes: the value of a bit-vector term, and the contents
//! of a memory term, once its leaves are given values.
//!
//! Bit-vectors are natural numbers below `2^width`. The operators follow
//! the SMT-LIB theory of fixed-size bit-vectors, division by zero
//! included.

use crate::opcode::Z3BinOps;
use crate::term::{cell_bits, width, Term};
use vstd::arithmetic::power2::{lemma_pow2_pos, pow2};
use vstd::arithmetic::div_mod::{lemma_mod_bound, lemma_small_mod};
use vstd::prelude::*;

verus! {

/// Values for the leaves of a term: one number for each bit-vector
/// symbol, and the contents of each memory symbol by address.
pub struct Assignment {
    pub symbols: spec_fn(int) -> nat,
    pub memories: spec_fn(int, nat) -> nat,
}

/// `v` reduced to `w` bits.
pub open spec fn wrapped(w: nat, v: int) -> nat {
    (v % pow2(w) as int) as nat
}

/// The two's complement reading of `x` at `w` bits.
pub open spec fn signed(w: nat, x: nat) -> int {
    if w >= 1 && x >= pow2((w - 1) as nat) {
        x - pow2(w)
    } else {
        x as int
    }
}

/// The quotient rounded towards zero. By zero: -1 for a dividend that is
/// not negative, 1 for a negative one.
pub open spec fn quotient_towards_zero(x: int, y: int) -> int {
    if y == 0 {
        if x >= 0 {
            -1
        } else {
            1
        }
    } else if x >= 0 && y > 0 {
        x / y
    } else if x >= 0 && y < 0 {
        -(x / (-y))
    } else if x < 0 && y > 0 {
        -((-x) / y)
    } else {
        (-x) / (-y)
    }
}

/// The remainder whose sign follows the dividend. By zero: the dividend.
pub open spec fn remainder_towards_zero(x: int, y: int) -> int {
    if y == 0 {
        x
    } else {
        x - y * quotient_towards_zero(x, y)
    }
}

/// Bit `i` of `x`.
pub open spec fn bit(x: nat, i: nat) -> bool {
    (x / pow2(i)) % 2 == 1
}

/// The number whose bit `i`, for `i < w`, is `f` of the bits `i` of `x`
/// and `y`.
pub open spec fn bitwise(f: spec_fn(bool, bool) -> bool, w: nat, x: nat, y: nat) -> nat
    decreases w,
{
    if w == 0 {
        0
    } else {
        let i = (w - 1) as nat;
        let low = bitwise(f, i, x, y);
        if f(bit(x, i), bit(y, i)) {
            low + pow2(i)
        } else {
            low
        }
    }
}

/// The value of `op` on two bit-vectors of `w` bits.
pub open spec fn apply(op: Z3BinOps, w: nat, x: nat, y: nat) -> nat {
    match op {
        Z3BinOps::BVAdd => wrapped(w, (x + y) as int),
        Z3BinOps::BVSub => wrapped(w, x - y),
        Z3BinOps::BVMul => wrapped(w, (x * y) as int),
        Z3BinOps::BVUdiv => if y == 0 {
            wrapped(w, -1)
        } else {
            wrapped(w, x as int / y as int)
        },
        Z3BinOps::BVSdiv => wrapped(w, quotient_towards_zero(signed(w, x), signed(w, y))),
        Z3BinOps::BVUrem => if y == 0 {
            wrapped(w, x as int)
        } else {
            wrapped(w, x as int % y as int)
        },
        Z3BinOps::BVSrem => wrapped(w, remainder_towards_zero(signed(w, x), signed(w, y))),
        Z3BinOps::BVAnd => wrapped(w, bitwise(|a: bool, b: bool| a && b, w, x, y) as int),
        Z3BinOps::BVOr => wrapped(w, bitwise(|a: bool, b: bool| a || b, w, x, y) as int),
        Z3BinOps::BVXor => wrapped(w, bitwise(|a: bool, b: bool| a != b, w, x, y) as int),
        Z3BinOps::BVShl => wrapped(w, (x * pow2(y)) as int),
        Z3BinOps::BVLshr => wrapped(w, x as int / pow2(y) as int),
        Z3BinOps::BVAshr => wrapped(w, signed(w, x) / pow2(y) as int),
    }
}

/// The value of a bit-vector term; 0 for a memory term.
pub open spec fn eval(t: Term, a: Assignment) -> nat
    decreases t, 0nat,
{
    match t {
        Term::Numeral { width, value } => wrapped(width, value as int),
        Term::Symbol { key, width } => wrapped(width, (a.symbols)(key) as int),
        Term::Binary { op, lhs, rhs } => apply(op, width(*lhs), eval(*lhs, a), eval(*rhs, a)),
        Term::Extract { high, low, arg } => wrapped(width(t), eval(*arg, a) as int / pow2(low) as int),
        Term::Concat { upper, lower } => eval(*upper, a) * pow2(width(*lower)) + eval(*lower, a),
        Term::ZeroExt { extra, arg } => eval(*arg, a),
        Term::SignExt { extra, arg } => wrapped(width(t), signed(width(*arg), eval(*arg, a))),
        Term::Select { mem, index } => cell(*mem, a, eval(*index, a)),
        Term::Memory { key, addr_bits, cell_bits } => 0,
        Term::Store { mem, index, cell } => 0,
    }
}

/// The cell of a memory term at an address; 0 for a bit-vector term.
pub open spec fn cell(t: Term, a: Assignment, address: nat) -> nat
    decreases t, 1nat,
{
    match t {
        Term::Memory { key, addr_bits, cell_bits } => wrapped(cell_bits, (a.memories)(key, address) as int),
        Term::Store { mem, index, cell } => if address == eval(*index, a) {
            wrapped(cell_bits(*mem), eval(*cell, a) as int)
        } else {
            self::cell(*mem, a, address)
        },
        _ => 0,
    }
}

/// A number reduced to `w` bits is below `2^w`.
pub proof fn wrapped_in_range(w: nat, v: int)
    ensures
        wrapped(w, v) < pow2(w),
{
    lemma_pow2_pos(w);
    lemma_mod_bound(v, pow2(w) as int);
}

/// A number below `2^w` is itself when reduced to `w` bits.
pub proof fn wrapped_small(w: nat, v: nat)
    requires
        v < pow2(w),
    ensures
        wrapped(w, v as int) == v,
{
    lemma_pow2_pos(w);
    lemma_small_mod(v, pow2(w));
}

/// Every cell of a memory term is below `2^cell_bits`.
pub proof fn cell_in_range(t: Term, a: Assignment, address: nat)
    ensures
        cell(t, a, address) < pow2(cell_bits(t)),
    decreases t,
{
    lemma_pow2_pos(cell_bits(t));
    match t {
        Term::Memory { key, addr_bits, cell_bits } => {
            wrapped_in_range(cell_bits, (a.memories)(key, address) as int);
        },
        Term::Store { mem, index, cell } => {
            if address == eval(*index, a) {
                wrapped_in_range(cell_bits(*mem), eval(*cell, a) as int);
            } else {
                cell_in_range(*mem, a, address);
            }
        },
        _ => {},
    }
}

} // verus!
