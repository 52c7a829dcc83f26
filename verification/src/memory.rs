//! The memory model: loads and stores as reads and updates of an array of
//! cells, least significant cell at the lowest address.

use crate::opcode::{Z3BinOps, Z3UnOps};
use crate::smt::{
    bv_add, bv_concat, bv_context, bv_extract, bv_from_i64, bv_sign_ext, bv_size, bv_term,
    bv_zero_ext, mem_context, mem_select, mem_store, mem_term,
};
use crate::sort::MAX_WIDTH;
use crate::term::{
    addr_bits, binary, cell_bits, concat, extract, numeral, select, sign_ext, store, width,
    zero_ext, Term,
};
use vstd::prelude::*;
use z3::ast::{Array, BV};
use z3::Context;

verus! {

/// The address that an access starts at: base plus byte offset, in
/// arithmetic that wraps at the width of addresses.
pub open spec fn effective_address(base: Term, addr_width: nat, offset: int) -> Term {
    binary(Z3BinOps::BVAdd, base, numeral(addr_width, offset))
}

/// The address of cell `k` of an access that starts at `start`.
pub open spec fn cell_address(start: Term, addr_width: nat, k: nat) -> Term {
    binary(Z3BinOps::BVAdd, start, numeral(addr_width, k as int))
}

/// Cells `top` down to `i` of an access side by side, cell `top` in the
/// most significant bits and cell `i` in the least significant ones.
pub open spec fn cells_down_to(mem: Term, start: Term, addr_width: nat, top: nat, i: nat) -> Term
    decreases top - i,
{
    if i >= top {
        select(mem, cell_address(start, addr_width, top))
    } else {
        concat(
            cells_down_to(mem, start, addr_width, top, i + 1),
            select(mem, cell_address(start, addr_width, i)),
        )
    }
}

/// The value of `ncells` consecutive cells of `mem` from `start` on: the
/// cell at the lowest address gives the least significant bits.
pub open spec fn loaded(mem: Term, start: Term, addr_width: nat, ncells: nat) -> Term {
    cells_down_to(mem, start, addr_width, (ncells - 1) as nat, 0)
}

/// A loaded value widened by `extra` bits as the load asks.
pub open spec fn widened(ext: Option<Z3UnOps>, extra: nat, value: Term) -> Term {
    match ext {
        None => value,
        Some(Z3UnOps::BVSignExt) => sign_ext(extra, value),
        Some(Z3UnOps::BVZeroExt) => zero_ext(extra, value),
    }
}

/// The low `bits` bits of `value`; `value` itself where it has no more.
pub open spec fn truncated(value: Term, bits: nat) -> Term {
    if 1 <= bits < width(value) {
        extract((bits - 1) as nat, 0, value)
    } else {
        value
    }
}

/// `mem` after the low `ncells` cells of `value` were written from
/// `start` on: cell `k` holds bits `(k + 1) * cell_width - 1` down to
/// `k * cell_width` of the value and goes to address `start + k`.
pub open spec fn stored(
    mem: Term,
    start: Term,
    value: Term,
    addr_width: nat,
    cell_width: nat,
    ncells: nat,
) -> Term
    decreases ncells,
{
    if ncells == 0 {
        mem
    } else {
        store(
            stored(mem, start, value, addr_width, cell_width, (ncells - 1) as nat),
            cell_address(start, addr_width, (ncells - 1) as nat),
            extract((ncells * cell_width - 1) as nat, ((ncells - 1) * cell_width) as nat, value),
        )
    }
}

/// The width of `cells_down_to` is the number of cells times the width of
/// one.
pub proof fn cells_width(mem: Term, start: Term, addr_width: nat, top: nat, i: nat)
    requires
        i <= top,
    ensures
        width(cells_down_to(mem, start, addr_width, top, i)) == (top - i + 1) * cell_bits(mem),
    decreases top - i,
{
    let c = cell_bits(mem);
    if i < top {
        cells_width(mem, start, addr_width, top, i + 1);
        assert(width(select(mem, cell_address(start, addr_width, i))) == c);
        assert((top - (i + 1) + 1) * c + c == (top - i + 1) * c) by (nonlinear_arith);
    } else {
        assert(width(select(mem, cell_address(start, addr_width, top))) == c);
        assert((top - i + 1) * c == c) by (nonlinear_arith)
            requires
                top == i,
        ;
    }
}

/// A store leaves the widths of the memory as they were.
pub proof fn stored_widths(
    mem: Term,
    start: Term,
    value: Term,
    addr_width: nat,
    cell_width: nat,
    ncells: nat,
)
    ensures
        addr_bits(stored(mem, start, value, addr_width, cell_width, ncells)) == addr_bits(mem),
        cell_bits(stored(mem, start, value, addr_width, cell_width, ncells)) == cell_bits(mem),
    decreases ncells,
{
    if ncells > 0 {
        stored_widths(mem, start, value, addr_width, cell_width, (ncells - 1) as nat);
    }
}

/// Builds the address of cell `k` of an access.
fn encode_cell_address<'ctx>(
    ctx: &'ctx Context,
    start: &BV<'ctx>,
    addr_width: u32,
    k: u32,
) -> (r: BV<'ctx>)
    requires
        bv_context(start) == *ctx,
        width(bv_term(start)) == addr_width,
        1 <= addr_width <= MAX_WIDTH,
    ensures
        bv_context(&r) == *ctx,
        bv_term(&r) == cell_address(bv_term(start), addr_width as nat, k as nat),
        width(bv_term(&r)) == addr_width,
{
    let cell_addr = bv_from_i64(ctx, k as i64, addr_width);
    bv_add(start, &cell_addr)
}

/// Reads `ncells` consecutive cells from `start` on and puts them side by
/// side, the cell at the lowest address in the least significant bits.
pub(crate) fn read_cells<'ctx>(
    ctx: &'ctx Context,
    mem: &Array<'ctx>,
    start: &BV<'ctx>,
    ncells: u32,
) -> (r: BV<'ctx>)
    requires
        mem_context(mem) == *ctx,
        bv_context(start) == *ctx,
        addr_bits(mem_term(mem)) == width(bv_term(start)),
        1 <= addr_bits(mem_term(mem)) <= MAX_WIDTH,
        cell_bits(mem_term(mem)) >= 1,
        ncells >= 1,
        ncells * cell_bits(mem_term(mem)) <= MAX_WIDTH,
    ensures
        bv_context(&r) == *ctx,
        bv_term(&r) == loaded(mem_term(mem), bv_term(start), addr_bits(mem_term(mem)), ncells as nat),
        width(bv_term(&r)) == ncells * cell_bits(mem_term(mem)),
{
    let ghost a = addr_bits(mem_term(mem));
    let ghost c = cell_bits(mem_term(mem));
    let addr_width: u32 = bv_size(start);
    let top: u32 = ncells - 1;
    let top_addr = encode_cell_address(ctx, start, addr_width, top);
    let mut z3_val = mem_select(mem, &top_addr);
    let mut i: u32 = top;
    proof {
        cells_width(mem_term(mem), bv_term(start), a, top as nat, top as nat);
    }
    while i > 0
        invariant
            mem_context(mem) == *ctx,
            bv_context(start) == *ctx,
            a == addr_bits(mem_term(mem)),
            c == cell_bits(mem_term(mem)),
            a == width(bv_term(start)),
            a == addr_width,
            1 <= addr_width <= MAX_WIDTH,
            c >= 1,
            top + 1 == ncells,
            ncells * c <= MAX_WIDTH,
            i <= top,
            bv_context(&z3_val) == *ctx,
            bv_term(&z3_val) == cells_down_to(mem_term(mem), bv_term(start), a, top as nat, i as nat),
            width(bv_term(&z3_val)) == (top - i + 1) * c,
        decreases i,
    {
        i = i - 1;
        proof {
            assert((top - (i + 1) + 1) * c + c <= ncells * c) by (nonlinear_arith)
                requires
                    i + 1 <= top,
                    top + 1 == ncells,
                    c >= 1,
            ;
            cells_width(mem_term(mem), bv_term(start), a, top as nat, i as nat);
        }
        let addr = encode_cell_address(ctx, start, addr_width, i);
        let cell = mem_select(mem, &addr);
        z3_val = bv_concat(&z3_val, &cell);
    }
    proof {
        assert((top - 0 + 1) * c == ncells * c) by (nonlinear_arith)
            requires
                top + 1 == ncells,
        ;
    }
    z3_val
}

/// Widens a loaded value by `extra` bits as the load asks.
pub(crate) fn widen<'ctx>(ext: Option<Z3UnOps>, extra: u32, value: BV<'ctx>) -> (r: BV<'ctx>)
    requires
        width(bv_term(&value)) + extra <= MAX_WIDTH,
    ensures
        bv_context(&r) == bv_context(&value),
        bv_term(&r) == widened(ext, extra as nat, bv_term(&value)),
        ext is None ==> width(bv_term(&r)) == width(bv_term(&value)),
        ext is Some ==> width(bv_term(&r)) == width(bv_term(&value)) + extra,
{
    match ext {
        None => value,
        Some(Z3UnOps::BVSignExt) => bv_sign_ext(&value, extra),
        Some(Z3UnOps::BVZeroExt) => bv_zero_ext(&value, extra),
    }
}

/// Writes the low `bits` bits of `value`, in `ncells` cells, to
/// consecutive addresses from `start` on. A value that is wider than
/// `bits` is cut first.
pub(crate) fn write_value<'ctx>(
    ctx: &'ctx Context,
    mem: &Array<'ctx>,
    start: &BV<'ctx>,
    value: &BV<'ctx>,
    bits: u32,
    cell_width: u32,
    ncells: u32,
) -> (r: Array<'ctx>)
    requires
        mem_context(mem) == *ctx,
        bv_context(start) == *ctx,
        bv_context(value) == *ctx,
        addr_bits(mem_term(mem)) == width(bv_term(start)),
        1 <= addr_bits(mem_term(mem)) <= MAX_WIDTH,
        cell_bits(mem_term(mem)) == cell_width,
        cell_width >= 1,
        ncells >= 1,
        ncells * cell_width == bits,
        bits <= width(bv_term(value)) <= u32::MAX,
    ensures
        mem_context(&r) == *ctx,
        mem_term(&r) == stored(
            mem_term(mem),
            bv_term(start),
            truncated(bv_term(value), bits as nat),
            addr_bits(mem_term(mem)),
            cell_width as nat,
            ncells as nat,
        ),
        addr_bits(mem_term(&r)) == addr_bits(mem_term(mem)),
        cell_bits(mem_term(&r)) == cell_bits(mem_term(mem)),
{
    proof {
        assert(bits >= 1) by (nonlinear_arith)
            requires
                ncells >= 1,
                cell_width >= 1,
                ncells * cell_width == bits,
        ;
    }
    if bits < bv_size(value) {
        let cut = bv_extract(value, bits - 1, 0);
        write_cells(ctx, mem, start, &cut, cell_width, ncells)
    } else {
        write_cells(ctx, mem, start, value, cell_width, ncells)
    }
}

/// Writes one cell of `value` to its address.
fn write_cell<'ctx>(
    ctx: &'ctx Context,
    mem: &Array<'ctx>,
    start: &BV<'ctx>,
    value: &BV<'ctx>,
    cell_width: u32,
    k: u32,
) -> (r: Array<'ctx>)
    requires
        mem_context(mem) == *ctx,
        bv_context(start) == *ctx,
        bv_context(value) == *ctx,
        addr_bits(mem_term(mem)) == width(bv_term(start)),
        1 <= addr_bits(mem_term(mem)) <= MAX_WIDTH,
        cell_bits(mem_term(mem)) == cell_width,
        cell_width >= 1,
        (k + 1) * cell_width <= width(bv_term(value)),
        width(bv_term(value)) <= u32::MAX,
    ensures
        mem_context(&r) == *ctx,
        mem_term(&r) == store(
            mem_term(mem),
            cell_address(bv_term(start), addr_bits(mem_term(mem)), k as nat),
            extract(((k + 1) * cell_width - 1) as nat, (k * cell_width) as nat, bv_term(value)),
        ),
{
    proof {
        assert(k * cell_width + cell_width == (k + 1) * cell_width) by (nonlinear_arith);
        assert(0 <= k * cell_width) by (nonlinear_arith);
    }
    let addr_width: u32 = bv_size(start);
    let low: u32 = k * cell_width;
    let high: u32 = low + (cell_width - 1);
    let store_val = bv_extract(value, high, low);
    let store_addr = encode_cell_address(ctx, start, addr_width, k);
    mem_store(mem, &store_addr, &store_val)
}

/// Writes the low `ncells` cells of `value` to consecutive addresses from
/// `start` on, the least significant cell first.
fn write_cells<'ctx>(
    ctx: &'ctx Context,
    mem: &Array<'ctx>,
    start: &BV<'ctx>,
    value: &BV<'ctx>,
    cell_width: u32,
    ncells: u32,
) -> (r: Array<'ctx>)
    requires
        mem_context(mem) == *ctx,
        bv_context(start) == *ctx,
        bv_context(value) == *ctx,
        addr_bits(mem_term(mem)) == width(bv_term(start)),
        1 <= addr_bits(mem_term(mem)) <= MAX_WIDTH,
        cell_bits(mem_term(mem)) == cell_width,
        cell_width >= 1,
        ncells >= 1,
        ncells * cell_width <= width(bv_term(value)),
        width(bv_term(value)) <= u32::MAX,
    ensures
        mem_context(&r) == *ctx,
        mem_term(&r) == stored(
            mem_term(mem),
            bv_term(start),
            bv_term(value),
            addr_bits(mem_term(mem)),
            cell_width as nat,
            ncells as nat,
        ),
        addr_bits(mem_term(&r)) == addr_bits(mem_term(mem)),
        cell_bits(mem_term(&r)) == cell_bits(mem_term(mem)),
{
    let ghost m0 = mem_term(mem);
    let ghost a = addr_bits(m0);
    proof {
        assert((0 + 1) * cell_width <= ncells * cell_width) by (nonlinear_arith)
            requires
                ncells >= 1,
        ;
    }
    let mut cur = write_cell(ctx, mem, start, value, cell_width, 0);
    let mut k: u32 = 1;
    proof {
        assert(stored(m0, bv_term(start), bv_term(value), a, cell_width as nat, 0) == m0);
        assert(1 * cell_width - 1 == (0 + 1) * cell_width - 1) by (nonlinear_arith);
        assert((1 - 1) * cell_width == 0 * cell_width) by (nonlinear_arith);
        stored_widths(m0, bv_term(start), bv_term(value), a, cell_width as nat, 1);
    }
    while k < ncells
        invariant
            mem_context(&cur) == *ctx,
            bv_context(start) == *ctx,
            bv_context(value) == *ctx,
            m0 == mem_term(mem),
            a == addr_bits(m0),
            a == width(bv_term(start)),
            1 <= a <= MAX_WIDTH,
            cell_bits(m0) == cell_width,
            cell_width >= 1,
            1 <= k <= ncells,
            ncells * cell_width <= width(bv_term(value)),
            width(bv_term(value)) <= u32::MAX,
            mem_term(&cur) == stored(m0, bv_term(start), bv_term(value), a, cell_width as nat, k as nat),
            addr_bits(mem_term(&cur)) == a,
            cell_bits(mem_term(&cur)) == cell_width,
        decreases ncells - k,
    {
        proof {
            assert((k + 1) * cell_width <= ncells * cell_width) by (nonlinear_arith)
                requires
                    k + 1 <= ncells,
            ;
            stored_widths(m0, bv_term(start), bv_term(value), a, cell_width as nat, (k + 1) as nat);
        }
        cur = write_cell(ctx, &cur, start, value, cell_width, k);
        k = k + 1;
    }
    cur
}

} // verus!
