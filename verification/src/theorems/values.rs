//! The values of terms: every value is in range, addresses wrap around,
//! and cutting and widening do what their names say.

use crate::memory::{cell_address, effective_address, truncated, widened};
use crate::opcode::{Z3BinOps, Z3UnOps};
use crate::semantics::{
    apply, Assignment, cell_in_range, eval, signed, wrapped, wrapped_in_range, wrapped_small,
};
use crate::term::{extract, numeral, Term, width};
use vstd::arithmetic::div_mod::{
    lemma_add_mod_noop_right, lemma_fundamental_div_mod, lemma_mod_bound, lemma_mod_twice,
    lemma_small_mod,
};
use vstd::arithmetic::power2::{
    lemma2_to64, lemma_pow2_adds, lemma_pow2_pos, lemma_pow2_strictly_increases, pow2,
};
use vstd::prelude::*;

verus! {

/// The value of an operator on `w` bits is below `2^w`.
pub proof fn apply_in_range(op: Z3BinOps, w: nat, x: nat, y: nat)
    ensures
        apply(op, w, x, y) < pow2(w),
{
    assert forall|v: int| wrapped(w, v) < pow2(w) by {
        wrapped_in_range(w, v);
    }
}

/// The value of a term is below two to its width.
pub proof fn eval_in_range(t: Term, a: Assignment)
    ensures
        eval(t, a) < pow2(width(t)),
    decreases t,
{
    lemma_pow2_pos(width(t));
    match t {
        Term::Numeral { width, value } => {
            wrapped_in_range(width, value as int);
        },
        Term::Symbol { key, width } => {
            wrapped_in_range(width, (a.symbols)(key) as int);
        },
        Term::Binary { op, lhs, rhs } => {
            apply_in_range(op, width(*lhs), eval(*lhs, a), eval(*rhs, a));
        },
        Term::Extract { high, low, arg } => {
            wrapped_in_range(width(t), eval(*arg, a) as int / pow2(low) as int);
        },
        Term::Concat { upper, lower } => {
            eval_in_range(*upper, a);
            eval_in_range(*lower, a);
            lemma_pow2_adds(width(*upper), width(*lower));
            let u = eval(*upper, a);
            let l = eval(*lower, a);
            let pu = pow2(width(*upper));
            let pl = pow2(width(*lower));
            assert(u * pl + l < pu * pl) by (nonlinear_arith)
                requires
                    u < pu,
                    l < pl,
            ;
        },
        Term::ZeroExt { extra, arg } => {
            eval_in_range(*arg, a);
            lemma_pow2_adds(width(*arg), extra);
            lemma_pow2_pos(extra);
            let v = eval(*arg, a);
            let pw = pow2(width(*arg));
            let pe = pow2(extra);
            assert(v < pw * pe) by (nonlinear_arith)
                requires
                    v < pw,
                    pe >= 1,
            ;
        },
        Term::SignExt { extra, arg } => {
            wrapped_in_range(width(t), signed(width(*arg), eval(*arg, a)));
        },
        Term::Select { mem, index } => {
            cell_in_range(*mem, a, eval(*index, a));
        },
        Term::Memory { key, addr_bits, cell_bits } => {},
        Term::Store { mem, index, cell } => {},
    }
}

/// The address that an access starts at is base plus offset modulo two to
/// the address width.
pub proof fn effective_address_wraps(base: Term, addr_width: nat, offset: int, a: Assignment)
    requires
        width(base) == addr_width,
    ensures
        eval(effective_address(base, addr_width, offset), a) == wrapped(addr_width, eval(base, a) + offset),
{
    let m = pow2(addr_width) as int;
    lemma_pow2_pos(addr_width);
    let b = eval(base, a) as int;
    let o = wrapped(addr_width, offset) as int;
    assert(eval(numeral(addr_width, offset), a) == o) by {
        lemma_mod_bound(offset, m);
        wrapped_small(addr_width, o as nat);
    }
    assert((b + o) % m == (b + offset) % m) by {
        lemma_add_mod_noop_right(b, offset, m);
    }
}

/// The address of cell `k` of an access is the start plus `k` modulo two
/// to the address width.
pub proof fn cell_address_wraps(start: Term, addr_width: nat, k: nat, a: Assignment)
    requires
        width(start) == addr_width,
    ensures
        eval(cell_address(start, addr_width, k), a) == wrapped(addr_width, (eval(start, a) + k) as int),
{
    effective_address_wraps(start, addr_width, k as int, a);
}

/// Two cells of one access have different addresses, as long as the
/// access is no longer than the address space.
pub proof fn cell_addresses_differ(start: Term, addr_width: nat, k: nat, j: nat, a: Assignment)
    requires
        width(start) == addr_width,
        k < pow2(addr_width),
        j < pow2(addr_width),
        k != j,
    ensures
        eval(cell_address(start, addr_width, k), a) != eval(cell_address(start, addr_width, j), a),
{
    cell_address_wraps(start, addr_width, k, a);
    cell_address_wraps(start, addr_width, j, a);
    let m = pow2(addr_width) as int;
    lemma_pow2_pos(addr_width);
    let e = eval(start, a) as int;
    lemma_fundamental_div_mod(e + k, m);
    lemma_fundamental_div_mod(e + j, m);
    let qk = (e + k) / m;
    let qj = (e + j) / m;
    if (e + k) % m == (e + j) % m {
        assert(k - j == m * qk - m * qj);
        assert(false) by (nonlinear_arith)
            requires
                k - j == m * qk - m * qj,
                -m < k - j < m,
                k != j,
        ;
    }
}

/// The value of an extract: the argument shifted down and cut.
pub proof fn extract_value(cell_width: nat, k: nat, value: Term, a: Assignment)
    requires
        cell_width >= 1,
    ensures
        width(extract(((k + 1) * cell_width - 1) as nat, k * cell_width, value)) == cell_width,
        eval(extract(((k + 1) * cell_width - 1) as nat, k * cell_width, value), a) == (eval(value, a) / pow2(
            k * cell_width,
        )) % pow2(cell_width),
{
    assert((k + 1) * cell_width == k * cell_width + cell_width) by (nonlinear_arith);
    assert(0 <= k * cell_width) by (nonlinear_arith);
    lemma_pow2_pos(cell_width);
    lemma_pow2_pos(k * cell_width);
    let shifted = eval(value, a) as int / pow2(k * cell_width) as int;
    lemma_mod_bound(shifted, pow2(cell_width) as int);
    let piece = extract(((k + 1) * cell_width - 1) as nat, k * cell_width, value);
    assert(width(piece) == cell_width);
    assert(eval(piece, a) == wrapped(cell_width, shifted));
}

/// The value of a term cut to its low bits.
pub proof fn truncated_value(value: Term, bits: nat, a: Assignment)
    requires
        bits >= 1,
    ensures
        eval(truncated(value, bits), a) == eval(value, a) % pow2(bits),
        width(truncated(value, bits)) == if bits < width(value) {
            bits
        } else {
            width(value)
        },
{
    let v = eval(value, a);
    lemma_pow2_pos(bits);
    assert(pow2(0) == 1) by {
        lemma2_to64();
    }
    if bits < width(value) {
        assert(v as int / 1 == v);
        lemma_mod_bound(v as int, pow2(bits) as int);
    } else {
        eval_in_range(value, a);
        if width(value) < bits {
            lemma_pow2_strictly_increases(width(value), bits);
        }
        lemma_small_mod(v, pow2(bits));
    }
}

/// What widening does to a value: none and zero extension keep it, sign
/// extension keeps its two's complement reading.
pub proof fn widened_meaning(ext: Option<Z3UnOps>, extra: nat, t: Term, a: Assignment)
    ensures
        ext is None ==> eval(widened(ext, extra, t), a) == eval(t, a),
        ext == Some(Z3UnOps::BVZeroExt) ==> eval(widened(ext, extra, t), a) == eval(t, a),
        ext == Some(Z3UnOps::BVSignExt) ==> eval(widened(ext, extra, t), a) == wrapped(
            width(t) + extra,
            signed(width(t), eval(t, a)),
        ),
{
}

/// The value of a widened term depends only on the value and the width
/// of what is widened.
pub proof fn widened_value(ext: Option<Z3UnOps>, extra: nat, t1: Term, t2: Term, a: Assignment)
    requires
        width(t1) == width(t2),
        eval(t1, a) == eval(t2, a),
    ensures
        eval(widened(ext, extra, t1), a) == eval(widened(ext, extra, t2), a),
{
}

/// A numeral depends on its value only modulo two to its width.
pub proof fn numeral_is_cut(width: nat, value: int)
    ensures
        numeral(width, value) == numeral(width, value % pow2(width) as int),
{
    lemma_pow2_pos(width);
    lemma_mod_twice(value, pow2(width) as int);
}

} // verus!
