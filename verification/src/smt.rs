//! The solver's handles and the calls that build formulas.
//!
//! Everything in this file is believed, not proved: each function hands
//! its arguments to one constructor of the `z3` crate, and its contract
//! says which [`Term`] the handle that comes back stands for.
//!
//! The solver answers an ill-sorted call with an error, which the crate
//! turns into a panic, and it keeps tables that grow with the widest sort
//! in use. So every function here asks for operands of fitting sorts in
//! one context, and for a result of at most [`MAX_WIDTH`] bits where it
//! may make a new sort.

use crate::opcode::Z3BinOps;
use crate::sort::MAX_WIDTH;
use crate::term::{
    addr_bits, binary, cell_bits, concat, extract, numeral, select, sign_ext, store, width,
    zero_ext, Term,
};
use vstd::prelude::*;
use z3::ast::{Array, BV};
use z3::Context;

verus! {

/// `z3::Context`: owns every formula built in it.
#[verifier::external_type_specification]
#[verifier::external_body]
pub struct ExContext(Context);

/// `z3::ast::BV`: a handle to a bit-vector formula.
#[verifier::external_type_specification]
#[verifier::external_body]
pub struct ExBV<'ctx>(BV<'ctx>);

/// `z3::ast::Array`: a handle to an array formula.
#[verifier::external_type_specification]
#[verifier::external_body]
pub struct ExArray<'ctx>(Array<'ctx>);

/// The syntax tree that a bit-vector handle stands for.
pub uninterp spec fn bv_term(a: &BV) -> Term;

/// The context that a bit-vector handle belongs to, as `Ast::get_ctx`
/// returns it.
pub uninterp spec fn bv_context(a: &BV) -> Context;

/// The syntax tree that an array handle stands for.
pub uninterp spec fn mem_term(a: &Array) -> Term;

/// The context that an array handle belongs to, as `Ast::get_ctx` returns
/// it.
pub uninterp spec fn mem_context(a: &Array) -> Context;

/// The text that the solver prints for a bit-vector formula.
pub uninterp spec fn bv_text(t: Term) -> Seq<char>;

/// The text that the solver prints for an array formula.
pub uninterp spec fn mem_text(t: Term) -> Seq<char>;

/// Two bit-vector handles that one binary operator accepts: same context,
/// same width.
pub open spec fn compatible(a: &BV, b: &BV) -> bool {
    &&& bv_context(a) == bv_context(b)
    &&& width(bv_term(a)) == width(bv_term(b))
}

/// `BV::from_i64`: the constant of `width` bits whose value is `value`
/// modulo `2^width`. A width of zero is an error of the solver.
#[verifier::external_body]
pub(crate) fn bv_from_i64<'ctx>(ctx: &'ctx Context, value: i64, width: u32) -> (r: BV<'ctx>)
    requires
        1 <= width <= MAX_WIDTH,
    ensures
        bv_context(&r) == *ctx,
        bv_term(&r) == numeral(width as nat, value as int),
{
    BV::from_i64(ctx, value, width)
}

/// `BV::get_size`: the width of the formula's sort.
#[verifier::external_body]
pub(crate) fn bv_size(a: &BV) -> (r: u32)
    ensures
        r == width(bv_term(a)),
{
    a.get_size()
}

/// `Ast::get_ctx` of a `BV`: the context that the handle was built in.
#[verifier::external_body]
pub(crate) fn bv_get_ctx<'ctx>(a: &BV<'ctx>) -> (r: &'ctx Context)
    ensures
        *r == bv_context(a),
{
    z3::ast::Ast::get_ctx(a)
}

/// `PartialEq::eq` of `Context`: whether the two are one context.
#[verifier::external_body]
pub(crate) fn same_context(a: &Context, b: &Context) -> (r: bool)
    ensures
        r == (*a == *b),
{
    a == b
}

/// `BV::bvadd`: the sum. The solver rejects operands of different widths
/// or contexts.
#[verifier::external_body]
pub(crate) fn bv_add<'ctx>(a: &BV<'ctx>, b: &BV<'ctx>) -> (r: BV<'ctx>)
    requires
        compatible(a, b),
    ensures
        bv_context(&r) == bv_context(a),
        bv_term(&r) == binary(Z3BinOps::BVAdd, bv_term(a), bv_term(b)),
{
    a.bvadd(b)
}

/// `BV::bvsub`: the difference; operands as for `bvadd`.
#[verifier::external_body]
pub(crate) fn bv_sub<'ctx>(a: &BV<'ctx>, b: &BV<'ctx>) -> (r: BV<'ctx>)
    requires
        compatible(a, b),
    ensures
        bv_context(&r) == bv_context(a),
        bv_term(&r) == binary(Z3BinOps::BVSub, bv_term(a), bv_term(b)),
{
    a.bvsub(b)
}

/// `BV::bvmul`: the product; operands as for `bvadd`.
#[verifier::external_body]
pub(crate) fn bv_mul<'ctx>(a: &BV<'ctx>, b: &BV<'ctx>) -> (r: BV<'ctx>)
    requires
        compatible(a, b),
    ensures
        bv_context(&r) == bv_context(a),
        bv_term(&r) == binary(Z3BinOps::BVMul, bv_term(a), bv_term(b)),
{
    a.bvmul(b)
}

/// `BV::bvudiv`: the unsigned quotient; operands as for `bvadd`.
#[verifier::external_body]
pub(crate) fn bv_udiv<'ctx>(a: &BV<'ctx>, b: &BV<'ctx>) -> (r: BV<'ctx>)
    requires
        compatible(a, b),
    ensures
        bv_context(&r) == bv_context(a),
        bv_term(&r) == binary(Z3BinOps::BVUdiv, bv_term(a), bv_term(b)),
{
    a.bvudiv(b)
}

/// `BV::bvsdiv`: the signed quotient; operands as for `bvadd`.
#[verifier::external_body]
pub(crate) fn bv_sdiv<'ctx>(a: &BV<'ctx>, b: &BV<'ctx>) -> (r: BV<'ctx>)
    requires
        compatible(a, b),
    ensures
        bv_context(&r) == bv_context(a),
        bv_term(&r) == binary(Z3BinOps::BVSdiv, bv_term(a), bv_term(b)),
{
    a.bvsdiv(b)
}

/// `BV::bvurem`: the unsigned remainder; operands as for `bvadd`.
#[verifier::external_body]
pub(crate) fn bv_urem<'ctx>(a: &BV<'ctx>, b: &BV<'ctx>) -> (r: BV<'ctx>)
    requires
        compatible(a, b),
    ensures
        bv_context(&r) == bv_context(a),
        bv_term(&r) == binary(Z3BinOps::BVUrem, bv_term(a), bv_term(b)),
{
    a.bvurem(b)
}

/// `BV::bvsrem`: the signed remainder, whose sign follows the dividend;
/// operands as for `bvadd`.
#[verifier::external_body]
pub(crate) fn bv_srem<'ctx>(a: &BV<'ctx>, b: &BV<'ctx>) -> (r: BV<'ctx>)
    requires
        compatible(a, b),
    ensures
        bv_context(&r) == bv_context(a),
        bv_term(&r) == binary(Z3BinOps::BVSrem, bv_term(a), bv_term(b)),
{
    a.bvsrem(b)
}

/// `BV::bvand`: bitwise and; operands as for `bvadd`.
#[verifier::external_body]
pub(crate) fn bv_and<'ctx>(a: &BV<'ctx>, b: &BV<'ctx>) -> (r: BV<'ctx>)
    requires
        compatible(a, b),
    ensures
        bv_context(&r) == bv_context(a),
        bv_term(&r) == binary(Z3BinOps::BVAnd, bv_term(a), bv_term(b)),
{
    a.bvand(b)
}

/// `BV::bvor`: bitwise or; operands as for `bvadd`.
#[verifier::external_body]
pub(crate) fn bv_or<'ctx>(a: &BV<'ctx>, b: &BV<'ctx>) -> (r: BV<'ctx>)
    requires
        compatible(a, b),
    ensures
        bv_context(&r) == bv_context(a),
        bv_term(&r) == binary(Z3BinOps::BVOr, bv_term(a), bv_term(b)),
{
    a.bvor(b)
}

/// `BV::bvxor`: bitwise exclusive or; operands as for `bvadd`.
#[verifier::external_body]
pub(crate) fn bv_xor<'ctx>(a: &BV<'ctx>, b: &BV<'ctx>) -> (r: BV<'ctx>)
    requires
        compatible(a, b),
    ensures
        bv_context(&r) == bv_context(a),
        bv_term(&r) == binary(Z3BinOps::BVXor, bv_term(a), bv_term(b)),
{
    a.bvxor(b)
}

/// `BV::bvshl`: shift left; operands as for `bvadd`.
#[verifier::external_body]
pub(crate) fn bv_shl<'ctx>(a: &BV<'ctx>, b: &BV<'ctx>) -> (r: BV<'ctx>)
    requires
        compatible(a, b),
    ensures
        bv_context(&r) == bv_context(a),
        bv_term(&r) == binary(Z3BinOps::BVShl, bv_term(a), bv_term(b)),
{
    a.bvshl(b)
}

/// `BV::bvlshr`: logical shift right; operands as for `bvadd`.
#[verifier::external_body]
pub(crate) fn bv_lshr<'ctx>(a: &BV<'ctx>, b: &BV<'ctx>) -> (r: BV<'ctx>)
    requires
        compatible(a, b),
    ensures
        bv_context(&r) == bv_context(a),
        bv_term(&r) == binary(Z3BinOps::BVLshr, bv_term(a), bv_term(b)),
{
    a.bvlshr(b)
}

/// `BV::bvashr`: arithmetic shift right; operands as for `bvadd`.
#[verifier::external_body]
pub(crate) fn bv_ashr<'ctx>(a: &BV<'ctx>, b: &BV<'ctx>) -> (r: BV<'ctx>)
    requires
        compatible(a, b),
    ensures
        bv_context(&r) == bv_context(a),
        bv_term(&r) == binary(Z3BinOps::BVAshr, bv_term(a), bv_term(b)),
{
    a.bvashr(b)
}

/// `BV::extract`: bits `high` down to `low`. The solver rejects a range
/// that is empty or reaches beyond the operand.
#[verifier::external_body]
pub(crate) fn bv_extract<'ctx>(a: &BV<'ctx>, high: u32, low: u32) -> (r: BV<'ctx>)
    requires
        low <= high < width(bv_term(a)),
    ensures
        bv_context(&r) == bv_context(a),
        bv_term(&r) == extract(high as nat, low as nat, bv_term(a)),
{
    a.extract(high, low)
}

/// `BV::concat`: `high` in the most significant bits, `low` below it. The
/// two must share a context.
#[verifier::external_body]
pub(crate) fn bv_concat<'ctx>(high: &BV<'ctx>, low: &BV<'ctx>) -> (r: BV<'ctx>)
    requires
        bv_context(high) == bv_context(low),
        width(bv_term(high)) + width(bv_term(low)) <= MAX_WIDTH,
    ensures
        bv_context(&r) == bv_context(high),
        bv_term(&r) == concat(bv_term(high), bv_term(low)),
{
    high.concat(low)
}

/// `BV::zero_ext`: `extra` zero bits added above the operand.
#[verifier::external_body]
pub(crate) fn bv_zero_ext<'ctx>(a: &BV<'ctx>, extra: u32) -> (r: BV<'ctx>)
    requires
        width(bv_term(a)) + extra <= MAX_WIDTH,
    ensures
        bv_context(&r) == bv_context(a),
        bv_term(&r) == zero_ext(extra as nat, bv_term(a)),
{
    a.zero_ext(extra)
}

/// `BV::sign_ext`: `extra` copies of the sign bit added above the operand.
#[verifier::external_body]
pub(crate) fn bv_sign_ext<'ctx>(a: &BV<'ctx>, extra: u32) -> (r: BV<'ctx>)
    requires
        width(bv_term(a)) + extra <= MAX_WIDTH,
    ensures
        bv_context(&r) == bv_context(a),
        bv_term(&r) == sign_ext(extra as nat, bv_term(a)),
{
    a.sign_ext(extra)
}

/// `Array::fresh_const` over `Sort::bitvector` for domain and range: a
/// memory constant that the solver names itself, from the prefix and a
/// counter of the context. The prefix becomes a C string, so it holds no
/// NUL.
#[verifier::external_body]
pub(crate) fn mem_fresh<'ctx>(
    ctx: &'ctx Context,
    prefix: &str,
    addr_width: u32,
    cell_width: u32,
) -> (r: Array<'ctx>)
    requires
        1 <= addr_width <= MAX_WIDTH,
        1 <= cell_width <= MAX_WIDTH,
        forall|i: int| 0 <= i < prefix@.len() ==> prefix@[i] != '\0',
    ensures
        mem_context(&r) == *ctx,
        mem_term(&r) is Memory,
        addr_bits(mem_term(&r)) == addr_width,
        cell_bits(mem_term(&r)) == cell_width,
{
    let domain = z3::Sort::bitvector(ctx, addr_width);
    let range = z3::Sort::bitvector(ctx, cell_width);
    Array::fresh_const(ctx, prefix, &domain, &range)
}

/// `Array::select`, read back as a bit-vector by `Dynamic::as_bv`: the
/// cell at `index`. The index must have the sort of the memory's
/// addresses, and the cells must be bit-vectors.
#[verifier::external_body]
pub(crate) fn mem_select<'ctx>(mem: &Array<'ctx>, index: &BV<'ctx>) -> (r: BV<'ctx>)
    requires
        mem_context(mem) == bv_context(index),
        addr_bits(mem_term(mem)) == width(bv_term(index)),
        cell_bits(mem_term(mem)) >= 1,
    ensures
        bv_context(&r) == mem_context(mem),
        bv_term(&r) == select(mem_term(mem), bv_term(index)),
{
    mem.select(index).as_bv().unwrap()
}

/// `Array::store`: the memory with the cell at `index` replaced. Index and
/// value must have the sorts of the memory's addresses and cells.
#[verifier::external_body]
pub(crate) fn mem_store<'ctx>(
    mem: &Array<'ctx>,
    index: &BV<'ctx>,
    value: &BV<'ctx>,
) -> (r: Array<'ctx>)
    requires
        mem_context(mem) == bv_context(index),
        mem_context(mem) == bv_context(value),
        addr_bits(mem_term(mem)) == width(bv_term(index)),
        cell_bits(mem_term(mem)) == width(bv_term(value)),
    ensures
        mem_context(&r) == mem_context(mem),
        mem_term(&r) == store(mem_term(mem), bv_term(index), bv_term(value)),
{
    mem.store(index, value)
}

/// `Display` of `BV`: the solver's text for the formula.
#[verifier::external_body]
pub(crate) fn bv_to_string(a: &BV) -> (r: String)
    ensures
        r@ == bv_text(bv_term(a)),
{
    a.to_string()
}

/// `Display` of `Array`: the solver's text for the formula.
#[verifier::external_body]
pub(crate) fn mem_to_string(a: &Array) -> (r: String)
    ensures
        r@ == mem_text(mem_term(a)),
{
    a.to_string()
}

} // verus!
