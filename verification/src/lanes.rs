//! Applying a scalar operator to each lane of a vector.

use crate::error::TranslateError;
use crate::opcode::Z3BinOps;
use crate::smt::{
    bv_add, bv_and, bv_ashr, bv_concat, bv_context, bv_extract, bv_get_ctx, bv_lshr, bv_mul,
    bv_or, bv_sdiv, bv_shl, bv_size, bv_srem, bv_sub, bv_term, bv_udiv, bv_urem, bv_xor,
    compatible, same_context,
};
use crate::sort::MAX_WIDTH;
use crate::term::{binary, concat, extract, width, Term};
use vstd::prelude::*;
use z3::ast::BV;

verus! {

/// Lane `i` of the result: `op` applied to bits `(i + 1) * lane_bits - 1`
/// down to `i * lane_bits` of each operand.
pub open spec fn lane(op: Z3BinOps, lhs: Term, rhs: Term, lane_bits: nat, i: nat) -> Term {
    binary(
        op,
        extract(((i + 1) * lane_bits - 1) as nat, i * lane_bits, lhs),
        extract(((i + 1) * lane_bits - 1) as nat, i * lane_bits, rhs),
    )
}

/// Lanes `top` down to `i` of the result side by side, lane `top` in the
/// most significant bits and lane `i` in the least significant ones.
pub open spec fn lanes_down_to(
    op: Z3BinOps,
    lhs: Term,
    rhs: Term,
    lane_bits: nat,
    top: nat,
    i: nat,
) -> Term
    decreases top - i,
{
    if i >= top {
        lane(op, lhs, rhs, lane_bits, top)
    } else {
        concat(
            lanes_down_to(op, lhs, rhs, lane_bits, top, i + 1),
            lane(op, lhs, rhs, lane_bits, i),
        )
    }
}

/// `op` applied lane by lane. With one lane this is `op` applied to the
/// operands themselves. With more, every lane of the result sits at the
/// bit offset that it has in the operands.
pub open spec fn lanewise(op: Z3BinOps, lhs: Term, rhs: Term, nlanes: nat, lane_bits: nat) -> Term {
    if nlanes <= 1 {
        binary(op, lhs, rhs)
    } else {
        lanes_down_to(op, lhs, rhs, lane_bits, (nlanes - 1) as nat, 0)
    }
}

/// The operands share a context and a width of at most `MAX_WIDTH`, and
/// that width is `nlanes` lanes of `lane_bits` bits.
pub open spec fn lanes_fit(lhs: &BV, rhs: &BV, nlanes: u32, lane_bits: u32) -> bool {
    &&& compatible(lhs, rhs)
    &&& nlanes >= 1
    &&& lane_bits >= 1
    &&& nlanes * lane_bits == width(bv_term(lhs))
    &&& width(bv_term(lhs)) <= MAX_WIDTH
}

/// One lane is `lane_bits` wide.
pub proof fn lane_width(op: Z3BinOps, lhs: Term, rhs: Term, lane_bits: nat, i: nat)
    requires
        lane_bits >= 1,
    ensures
        width(lane(op, lhs, rhs, lane_bits, i)) == lane_bits,
{
    let high = ((i + 1) * lane_bits - 1) as nat;
    let low = i * lane_bits;
    assert((i + 1) * lane_bits == i * lane_bits + lane_bits) by (nonlinear_arith);
    assert(width(extract(high, low, lhs)) == lane_bits);
}

/// The width of `lanes_down_to` is the number of lanes times the width of
/// one.
pub proof fn lanes_width(op: Z3BinOps, lhs: Term, rhs: Term, lane_bits: nat, top: nat, i: nat)
    requires
        lane_bits >= 1,
        i <= top,
    ensures
        width(lanes_down_to(op, lhs, rhs, lane_bits, top, i)) == (top - i + 1) * lane_bits,
    decreases top - i,
{
    if i < top {
        lanes_width(op, lhs, rhs, lane_bits, top, i + 1);
        lane_width(op, lhs, rhs, lane_bits, i);
        assert((top - (i + 1) + 1) * lane_bits + lane_bits == (top - i + 1) * lane_bits)
            by (nonlinear_arith);
    } else {
        lane_width(op, lhs, rhs, lane_bits, top);
        assert((top - i + 1) * lane_bits == lane_bits) by (nonlinear_arith)
            requires
                top == i,
        ;
    }
}

/// Applies a scalar operator of the solver to two formulas of one width.
pub(crate) fn apply_scalar<'ctx>(op: Z3BinOps, lhs: &BV<'ctx>, rhs: &BV<'ctx>) -> (r: BV<'ctx>)
    requires
        compatible(lhs, rhs),
    ensures
        bv_context(&r) == bv_context(lhs),
        bv_term(&r) == binary(op, bv_term(lhs), bv_term(rhs)),
{
    match op {
        Z3BinOps::BVAdd => bv_add(lhs, rhs),
        Z3BinOps::BVSub => bv_sub(lhs, rhs),
        Z3BinOps::BVMul => bv_mul(lhs, rhs),
        Z3BinOps::BVUdiv => bv_udiv(lhs, rhs),
        Z3BinOps::BVSdiv => bv_sdiv(lhs, rhs),
        Z3BinOps::BVUrem => bv_urem(lhs, rhs),
        Z3BinOps::BVSrem => bv_srem(lhs, rhs),
        Z3BinOps::BVAnd => bv_and(lhs, rhs),
        Z3BinOps::BVOr => bv_or(lhs, rhs),
        Z3BinOps::BVXor => bv_xor(lhs, rhs),
        Z3BinOps::BVShl => bv_shl(lhs, rhs),
        Z3BinOps::BVLshr => bv_lshr(lhs, rhs),
        Z3BinOps::BVAshr => bv_ashr(lhs, rhs),
    }
}

/// Builds one lane of the result.
fn lane_op<'ctx>(
    op: Z3BinOps,
    lhs: &BV<'ctx>,
    rhs: &BV<'ctx>,
    lane_bits: u32,
    i: u32,
) -> (r: BV<'ctx>)
    requires
        compatible(lhs, rhs),
        lane_bits >= 1,
        (i + 1) * lane_bits <= width(bv_term(lhs)),
        width(bv_term(lhs)) <= u32::MAX,
    ensures
        bv_context(&r) == bv_context(lhs),
        bv_term(&r) == lane(op, bv_term(lhs), bv_term(rhs), lane_bits as nat, i as nat),
        width(bv_term(&r)) == lane_bits,
{
    proof {
        assert(i * lane_bits + lane_bits == (i + 1) * lane_bits) by (nonlinear_arith);
        assert(0 <= i * lane_bits) by (nonlinear_arith);
        lane_width(op, bv_term(lhs), bv_term(rhs), lane_bits as nat, i as nat);
    }
    let low: u32 = i * lane_bits;
    let high: u32 = low + (lane_bits - 1);
    let lhs1 = bv_extract(lhs, high, low);
    let rhs1 = bv_extract(rhs, high, low);
    apply_scalar(op, &lhs1, &rhs1)
}

/// Applies `op` to each of the `nlanes` lanes of `lane_bits` bits of two
/// operands and reassembles the results in lane order: lane 0 of the
/// operands gives lane 0 of the result, in the least significant bits.
///
/// Fails with `TypeError` where the operands differ in context or width,
/// where their width is not `nlanes * lane_bits` with both positive, or
/// where it is more than `MAX_WIDTH`.
pub fn z3_lanewise_binop<'ctx>(
    lhs: &BV<'ctx>,
    rhs: &BV<'ctx>,
    op: Z3BinOps,
    nlanes: u32,
    lane_bits: u32,
) -> (r: Result<BV<'ctx>, TranslateError>)
    ensures
        match r {
            Ok(res) => {
                &&& lanes_fit(lhs, rhs, nlanes, lane_bits)
                &&& bv_context(&res) == bv_context(lhs)
                &&& bv_term(&res) == lanewise(op, bv_term(lhs), bv_term(rhs), nlanes as nat, lane_bits as nat)
                &&& width(bv_term(&res)) == width(bv_term(lhs))
            },
            Err(e) => e == TranslateError::TypeError && !lanes_fit(lhs, rhs, nlanes, lane_bits),
        },
{
    let size: u32 = bv_size(lhs);
    if !same_context(bv_get_ctx(lhs), bv_get_ctx(rhs)) || bv_size(rhs) != size {
        return Err(TranslateError::TypeError);
    }
    if nlanes == 0 || lane_bits == 0 || size > MAX_WIDTH {
        return Err(TranslateError::TypeError);
    }
    match nlanes.checked_mul(lane_bits) {
        Some(total) => {
            if total != size {
                return Err(TranslateError::TypeError);
            }
        },
        None => {
            return Err(TranslateError::TypeError);
        },
    }
    if nlanes == 1 {
        return Ok(apply_scalar(op, lhs, rhs));
    }
    let top: u32 = nlanes - 1;
    proof {
        assert((top + 1) * lane_bits == nlanes * lane_bits) by (nonlinear_arith)
            requires
                top + 1 == nlanes,
        ;
    }
    let mut res = lane_op(op, lhs, rhs, lane_bits, top);
    let mut i: u32 = top;
    proof {
        lanes_width(op, bv_term(lhs), bv_term(rhs), lane_bits as nat, top as nat, top as nat);
    }
    while i > 0
        invariant
            compatible(lhs, rhs),
            lane_bits >= 1,
            top + 1 == nlanes,
            i <= top,
            nlanes * lane_bits == width(bv_term(lhs)),
            width(bv_term(lhs)) <= MAX_WIDTH,
            bv_context(&res) == bv_context(lhs),
            bv_term(&res) == lanes_down_to(op, bv_term(lhs), bv_term(rhs), lane_bits as nat, top as nat, i as nat),
            width(bv_term(&res)) == (top - i + 1) * lane_bits,
        decreases i,
    {
        i = i - 1;
        proof {
            assert((i + 1) * lane_bits <= nlanes * lane_bits) by (nonlinear_arith)
                requires
                    i + 1 <= nlanes,
                    lane_bits >= 1,
            ;
            assert((top - (i + 1) + 1) * lane_bits + lane_bits <= nlanes * lane_bits) by (nonlinear_arith)
                requires
                    i + 1 <= top,
                    top + 1 == nlanes,
                    lane_bits >= 1,
            ;
            lanes_width(op, bv_term(lhs), bv_term(rhs), lane_bits as nat, top as nat, i as nat);
        }
        let low_lane = lane_op(op, lhs, rhs, lane_bits, i);
        res = bv_concat(&res, &low_lane);
    }
    proof {
        assert((top - 0 + 1) * lane_bits == nlanes * lane_bits) by (nonlinear_arith)
            requires
                top + 1 == nlanes,
        ;
    }
    Ok(res)
}

} // verus!
