//! Lanes of a vector: an operator applied lane by lane does not mix
//! lanes and keeps them in place.

use crate::lanes::{lane, lane_width, lanes_down_to, lanewise};
use crate::opcode::Z3BinOps;
use crate::semantics::{apply, Assignment, eval};
use crate::term::{concat, Term, width};
use crate::theorems::values::{apply_in_range, eval_in_range, extract_value};
use vstd::arithmetic::div_mod::{
    lemma_div_denominator, lemma_fundamental_div_mod_converse, lemma_mod_bound, lemma_small_mod,
};
use vstd::arithmetic::power2::{lemma2_to64, lemma_pow2_adds, lemma_pow2_pos, pow2};
use vstd::prelude::*;

verus! {

/// Lane `i` of a number: its bits `(i + 1) * lane_bits - 1` down to
/// `i * lane_bits`.
pub open spec fn lane_of(lane_bits: nat, x: nat, i: nat) -> nat {
    ((x as int / pow2(i * lane_bits) as int) % pow2(lane_bits) as int) as nat
}

/// The value of an operand's lane, as `lane` extracts it.
pub proof fn lane_value(op: Z3BinOps, lhs: Term, rhs: Term, lane_bits: nat, i: nat, a: Assignment)
    requires
        lane_bits >= 1,
    ensures
        eval(lane(op, lhs, rhs, lane_bits, i), a) == apply(
            op,
            lane_bits,
            lane_of(lane_bits, eval(lhs, a), i),
            lane_of(lane_bits, eval(rhs, a), i),
        ),
{
    extract_value(lane_bits, i, lhs, a);
    extract_value(lane_bits, i, rhs, a);
    lemma_pow2_pos(lane_bits);
    lemma_pow2_pos(i * lane_bits);
    lemma_mod_bound(eval(lhs, a) as int / pow2(i * lane_bits) as int, pow2(lane_bits) as int);
    lemma_mod_bound(eval(rhs, a) as int / pow2(i * lane_bits) as int, pow2(lane_bits) as int);
}

/// Lanes put side by side can be read back one by one: lane `j` of the
/// whole is lane `j` as it was built.
pub proof fn lanes_assembled(
    op: Z3BinOps,
    lhs: Term,
    rhs: Term,
    lane_bits: nat,
    top: nat,
    i: nat,
    j: nat,
    a: Assignment,
)
    requires
        lane_bits >= 1,
        i <= j <= top,
    ensures
        lane_of(lane_bits, eval(lanes_down_to(op, lhs, rhs, lane_bits, top, i), a), (j - i) as nat) == eval(
            lane(op, lhs, rhs, lane_bits, j),
            a,
        ),
    decreases top - i,
{
    let pw = pow2(lane_bits) as int;
    lemma_pow2_pos(lane_bits);
    assert(pow2(0) == 1) by {
        lemma2_to64();
    }
    assert(0 * lane_bits == 0) by (nonlinear_arith);
    let low = lane(op, lhs, rhs, lane_bits, i);
    lane_width(op, lhs, rhs, lane_bits, i);
    eval_in_range(low, a);
    let li = eval(low, a) as int;
    if i == top {
        lemma_small_mod(li as nat, pw as nat);
        assert(li / 1 == li);
    } else {
        let high = lanes_down_to(op, lhs, rhs, lane_bits, top, i + 1);
        let h = eval(high, a) as int;
        let x = eval(concat(high, low), a) as int;
        assert(x == h * pw + li);
        lemma_fundamental_div_mod_converse(x, pw, h, li);
        if j == i {
            assert(x / 1 == x);
        } else {
            lanes_assembled(op, lhs, rhs, lane_bits, top, i + 1, j, a);
            let rest = ((j - i - 1) * lane_bits) as nat;
            assert(0 <= (j - i - 1) * lane_bits) by (nonlinear_arith)
                requires
                    j - i - 1 >= 0,
            ;
            assert((j - i) * lane_bits == lane_bits + rest) by (nonlinear_arith)
                requires
                    rest == (j - i - 1) * lane_bits,
            ;
            assert((j - (i + 1)) * lane_bits == rest);
            lemma_pow2_adds(lane_bits, rest);
            lemma_pow2_pos(rest);
            lemma_div_denominator(x, pw, pow2(rest) as int);
            assert(x / pow2(((j - i) * lane_bits) as nat) as int == h / pow2(rest) as int);
        }
    }
}

/// With two lanes the result is the two lanes side by side, lane 1 in the
/// upper half.
pub proof fn two_lanes_side_by_side(op: Z3BinOps, lhs: Term, rhs: Term, lane_bits: nat)
    ensures
        lanewise(op, lhs, rhs, 2, lane_bits) == concat(
            lane(op, lhs, rhs, lane_bits, 1),
            lane(op, lhs, rhs, lane_bits, 0),
        ),
{
    reveal_with_fuel(lanes_down_to, 2);
}

/// Applying an operator lane by lane gives, in every lane, the operator's
/// value on that lane of the operands: lanes do not mix and keep their
/// place.
pub proof fn lanes_are_independent(
    op: Z3BinOps,
    lhs: Term,
    rhs: Term,
    nlanes: nat,
    lane_bits: nat,
    i: nat,
    a: Assignment,
)
    requires
        nlanes >= 1,
        lane_bits >= 1,
        i < nlanes,
        width(lhs) == nlanes * lane_bits,
        width(rhs) == width(lhs),
    ensures
        lane_of(lane_bits, eval(lanewise(op, lhs, rhs, nlanes, lane_bits), a), i) == apply(
            op,
            lane_bits,
            lane_of(lane_bits, eval(lhs, a), i),
            lane_of(lane_bits, eval(rhs, a), i),
        ),
{
    if nlanes == 1 {
        assert(nlanes * lane_bits == lane_bits) by (nonlinear_arith)
            requires
                nlanes == 1,
        ;
        assert(i * lane_bits == 0) by (nonlinear_arith)
            requires
                i == 0,
        ;
        assert(pow2(0) == 1) by {
            lemma2_to64();
        }
        let x = eval(lhs, a);
        let y = eval(rhs, a);
        let r = apply(op, lane_bits, x, y);
        eval_in_range(lhs, a);
        eval_in_range(rhs, a);
        apply_in_range(op, lane_bits, x, y);
        lemma_small_mod(x, pow2(lane_bits));
        lemma_small_mod(y, pow2(lane_bits));
        lemma_small_mod(r, pow2(lane_bits));
        assert(x as int / 1 == x);
        assert(y as int / 1 == y);
        assert(r as int / 1 == r);
    } else {
        lanes_assembled(op, lhs, rhs, lane_bits, (nlanes - 1) as nat, 0, i, a);
        lane_value(op, lhs, rhs, lane_bits, i, a);
    }
}

} // verus!
