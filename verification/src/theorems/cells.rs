//! Memory as cells: what a store writes, what it leaves alone, and what
//! a load puts together.

use crate::memory::{cell_address, cells_down_to, loaded, stored, stored_widths};
use crate::semantics::{Assignment, cell, eval, wrapped_small};
use crate::term::{cell_bits, concat, extract, select, Term, width};
use crate::theorems::values::{cell_addresses_differ, eval_in_range, extract_value};
use vstd::arithmetic::div_mod::{lemma_div_denominator, lemma_mod_breakdown};
use vstd::arithmetic::power2::{lemma2_to64, lemma_pow2_adds, lemma_pow2_pos, pow2};
use vstd::prelude::*;

verus! {

/// A store does not change a cell at an address that it does not write
/// to.
pub proof fn stored_cell_elsewhere(
    mem: Term,
    start: Term,
    value: Term,
    addr_width: nat,
    cell_width: nat,
    ncells: nat,
    a: Assignment,
    address: nat,
)
    requires
        forall|k: nat| k < ncells ==> eval(#[trigger] cell_address(start, addr_width, k), a) != address,
    ensures
        cell(stored(mem, start, value, addr_width, cell_width, ncells), a, address) == cell(mem, a, address),
    decreases ncells,
{
    if ncells > 0 {
        let k = (ncells - 1) as nat;
        assert(eval(cell_address(start, addr_width, k), a) != address);
        stored_cell_elsewhere(mem, start, value, addr_width, cell_width, k, a, address);
    }
}

/// After a store, cell `j` of the access holds bits `(j + 1) * cell_width
/// - 1` down to `j * cell_width` of the stored value.
pub proof fn stored_cell_written(
    mem: Term,
    start: Term,
    value: Term,
    addr_width: nat,
    cell_width: nat,
    ncells: nat,
    a: Assignment,
    j: nat,
)
    requires
        width(start) == addr_width,
        cell_bits(mem) == cell_width,
        cell_width >= 1,
        j < ncells <= pow2(addr_width),
    ensures
        cell(
            stored(mem, start, value, addr_width, cell_width, ncells),
            a,
            eval(cell_address(start, addr_width, j), a),
        ) == (eval(value, a) / pow2(j * cell_width)) % pow2(cell_width),
    decreases ncells,
{
    let k = (ncells - 1) as nat;
    let before = stored(mem, start, value, addr_width, cell_width, k);
    stored_widths(mem, start, value, addr_width, cell_width, k);
    if j == k {
        extract_value(cell_width, k, value, a);
        let piece = extract(((k + 1) * cell_width - 1) as nat, k * cell_width, value);
        assert(ncells * cell_width - 1 == (k + 1) * cell_width - 1);
        assert((ncells - 1) * cell_width == k * cell_width);
        eval_in_range(piece, a);
        wrapped_small(cell_width, eval(piece, a));
    } else {
        cell_addresses_differ(start, addr_width, k, j, a);
        stored_cell_written(mem, start, value, addr_width, cell_width, k, a, j);
    }
}

/// Cells that hold the pieces of a number, put side by side, give that
/// number back: shifted down by the cells below and cut to the cells
/// read.
pub proof fn cells_assembled(
    mem: Term,
    start: Term,
    addr_width: nat,
    top: nat,
    i: nat,
    a: Assignment,
    v: nat,
)
    requires
        i <= top,
        cell_bits(mem) >= 1,
        forall|k: nat|
            i <= k <= top ==> cell(mem, a, eval(#[trigger] cell_address(start, addr_width, k), a)) == (v / pow2(
                k * cell_bits(mem),
            )) % pow2(cell_bits(mem)),
    ensures
        eval(cells_down_to(mem, start, addr_width, top, i), a) == (v / pow2(i * cell_bits(mem))) % pow2(
            ((top - i + 1) * cell_bits(mem)) as nat,
        ),
    decreases top - i,
{
    let c = cell_bits(mem);
    let pc = pow2(c) as int;
    lemma_pow2_pos(c);
    let low = select(mem, cell_address(start, addr_width, i));
    assert(eval(low, a) == cell(mem, a, eval(cell_address(start, addr_width, i), a)));
    assert(0 <= i * c) by (nonlinear_arith);
    if i < top {
        let m = (top - i) as nat;
        cells_assembled(mem, start, addr_width, top, i + 1, a, v);
        let high = cells_down_to(mem, start, addr_width, top, i + 1);
        let below = pow2(i * c) as int;
        let above = pow2(m * c) as int;
        lemma_pow2_pos(i * c);
        lemma_pow2_pos(m * c);
        let x = v as int / below;
        assert(0 <= x) by (nonlinear_arith)
            requires
                x == v as int / below,
                0 <= v,
                0 < below,
        ;
        assert((i + 1) * c == i * c + c) by (nonlinear_arith);
        assert((top - (i + 1) + 1) * c == m * c);
        assert((top - i + 1) * c == c + m * c) by (nonlinear_arith)
            requires
                m == top - i,
        ;
        lemma_pow2_adds(i * c, c);
        lemma_pow2_adds(c, m * c);
        lemma_div_denominator(v as int, below, pc);
        assert(v as int / pow2((i + 1) * c) as int == x / pc);
        lemma_mod_breakdown(x, pc, above);
        assert(eval(high, a) == (x / pc) % above);
        assert(eval(low, a) == x % pc);
        assert(width(low) == c);
        assert(eval(high, a) * pc == pc * ((x / pc) % above)) by (nonlinear_arith)
            requires
                eval(high, a) == (x / pc) % above,
        ;
        assert(eval(concat(high, low), a) == eval(high, a) * pc + eval(low, a));
    } else {
        assert((top - i + 1) * c == c) by (nonlinear_arith)
            requires
                top == i,
        ;
    }
}

/// Loading what was just stored, at the same address and with the same
/// number of cells, yields the low cells of the stored value. The access
/// must be no longer than the address space, or its cells would overwrite
/// each other.
pub proof fn load_of_store(
    mem: Term,
    start: Term,
    value: Term,
    addr_width: nat,
    cell_width: nat,
    ncells: nat,
    a: Assignment,
)
    requires
        width(start) == addr_width,
        cell_bits(mem) == cell_width,
        cell_width >= 1,
        1 <= ncells <= pow2(addr_width),
    ensures
        eval(
            loaded(stored(mem, start, value, addr_width, cell_width, ncells), start, addr_width, ncells),
            a,
        ) == eval(value, a) % pow2(ncells * cell_width),
{
    let after = stored(mem, start, value, addr_width, cell_width, ncells);
    let v = eval(value, a);
    stored_widths(mem, start, value, addr_width, cell_width, ncells);
    let top = (ncells - 1) as nat;
    assert forall|k: nat| 0 <= k <= top implies cell(
        after,
        a,
        eval(#[trigger] cell_address(start, addr_width, k), a),
    ) == (v / pow2(k * cell_bits(after))) % pow2(cell_bits(after)) by {
        stored_cell_written(mem, start, value, addr_width, cell_width, ncells, a, k);
    }
    cells_assembled(after, start, addr_width, top, 0, a, v);
    let c = cell_bits(after);
    assert(c == cell_width);
    assert(0 * c == 0) by (nonlinear_arith);
    assert(pow2(0) == 1) by {
        lemma2_to64();
    }
    assert(((top - 0 + 1) * c) as nat == ncells * cell_width) by (nonlinear_arith)
        requires
            top + 1 == ncells,
            c == cell_width,
    ;
    assert(v as int / 1 == v);
    assert(loaded(after, start, addr_width, ncells) == cells_down_to(after, start, addr_width, top, 0));
    assert(eval(cells_down_to(after, start, addr_width, top, 0), a) == (v / pow2(0 * c)) % pow2(
        ((top - 0 + 1) * c) as nat,
    ));
}

/// Two memories that agree on the cells of an access give the same
/// loaded value.
pub proof fn load_of_equal_cells(
    m1: Term,
    m2: Term,
    start: Term,
    addr_width: nat,
    top: nat,
    i: nat,
    a: Assignment,
)
    requires
        i <= top,
        cell_bits(m1) == cell_bits(m2),
        forall|k: nat|
            i <= k <= top ==> cell(m1, a, eval(#[trigger] cell_address(start, addr_width, k), a)) == cell(
                m2,
                a,
                eval(cell_address(start, addr_width, k), a),
            ),
    ensures
        eval(cells_down_to(m1, start, addr_width, top, i), a) == eval(
            cells_down_to(m2, start, addr_width, top, i),
            a,
        ),
    decreases top - i,
{
    let low1 = select(m1, cell_address(start, addr_width, i));
    let low2 = select(m2, cell_address(start, addr_width, i));
    assert(eval(low1, a) == cell(m1, a, eval(cell_address(start, addr_width, i), a)));
    assert(eval(low2, a) == cell(m2, a, eval(cell_address(start, addr_width, i), a)));
    if i < top {
        load_of_equal_cells(m1, m2, start, addr_width, top, i + 1, a);
        assert(width(low1) == width(low2));
    }
}

/// A load reads what was there before a store, where none of its cells
/// has the address of a cell that the store wrote.
pub proof fn load_past_store(
    mem: Term,
    start: Term,
    value: Term,
    addr_width: nat,
    cell_width: nat,
    ncells: nat,
    other: Term,
    nloaded: nat,
    a: Assignment,
)
    requires
        nloaded >= 1,
        forall|k: nat, j: nat|
            k < ncells && j < nloaded ==> eval(#[trigger] cell_address(start, addr_width, k), a) != eval(
                #[trigger] cell_address(other, addr_width, j),
                a,
            ),
    ensures
        eval(loaded(stored(mem, start, value, addr_width, cell_width, ncells), other, addr_width, nloaded), a)
            == eval(loaded(mem, other, addr_width, nloaded), a),
{
    let after = stored(mem, start, value, addr_width, cell_width, ncells);
    stored_widths(mem, start, value, addr_width, cell_width, ncells);
    let top = (nloaded - 1) as nat;
    assert forall|j: nat| 0 <= j <= top implies cell(
        after,
        a,
        eval(#[trigger] cell_address(other, addr_width, j), a),
    ) == cell(mem, a, eval(cell_address(other, addr_width, j), a)) by {
        let address = eval(cell_address(other, addr_width, j), a);
        assert forall|k: nat| k < ncells implies eval(#[trigger] cell_address(start, addr_width, k), a)
            != address by {}
        stored_cell_elsewhere(mem, start, value, addr_width, cell_width, ncells, a, address);
    }
    load_of_equal_cells(after, mem, other, addr_width, top, 0, a);
}

} // verus!
