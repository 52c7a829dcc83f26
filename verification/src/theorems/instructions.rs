//! What instructions mean: theorems about the formulas that the
//! translator binds.

use crate::env::Env;
use crate::error::TranslateError;
use crate::memory::{
    cell_address, cells_width, effective_address, loaded, stored, stored_widths, truncated,
    widened,
};
use crate::opcode::{
    binary_operator, load_extension, load_shape, loaded_width, stored_width, Opcode, Z3BinOps,
    Z3UnOps,
};
use crate::instr::Instr;
use crate::lanes::{lanes_width, lanewise};
use crate::semantics::{apply, Assignment, eval, signed, wrapped};
use crate::sort::Sort;
use crate::term::{numeral, Term, width};
use crate::theorems::cells::{load_of_store, load_past_store};
use crate::theorems::values::{
    eval_in_range, numeral_is_cut, truncated_value, widened_meaning, widened_value,
};
use crate::theorems::vectors::{lane_of, lanes_are_independent};
use crate::translate::{
    outcome, translate, translate_binary, translate_binary_imm, translate_load, translate_store,
};
use crate::typecheck::access_sound;
use vstd::arithmetic::div_mod::{lemma_mod_twice, lemma_small_mod};
use vstd::arithmetic::power2::{lemma_pow2_pos, pow2};
use vstd::prelude::*;

verus! {

/// The term of the address that an access through `base` starts at.
pub open spec fn access_start(env: Env, base: u32, offset: i32) -> Term {
    effective_address(env.values[base].term, env.addr_bits, offset as int)
}

/// The term that a store of `value` with opcode `op` writes: the value
/// cut to the stored width.
pub open spec fn value_stored(env: Env, op: Opcode, value: u32) -> Term {
    truncated(env.values[value].term, stored_width(op, env.values[value].sort.width())->0)
}

/// The number of cells that a store of `value` with opcode `op` writes.
pub open spec fn cells_stored(env: Env, op: Opcode, value: u32) -> nat {
    stored_width(op, env.values[value].sort.width())->0 / env.cell_bits
}

/// The number of cells that a load with opcode `op` into `dest_sort`
/// reads.
pub open spec fn cells_loaded(env: Env, op: Opcode, dest_sort: Sort) -> nat {
    loaded_width(op, dest_sort.width())->0 / env.cell_bits
}

/// What a store that succeeds has checked, and what it makes of the
/// environment.
pub proof fn store_succeeds(
    env: Env,
    op: Opcode,
    value: u32,
    base: u32,
    addr_sort: Sort,
    offset: i32,
)
    requires
        env.wf(),
        translate_store(env, op, value, base, addr_sort, offset) is Ok,
    ensures
        env.values.contains_key(value),
        env.values.contains_key(base),
        width(access_start(env, base, offset)) == env.addr_bits,
        stored_width(op, env.values[value].sort.width()) is Some,
        cells_stored(env, op, value) >= 1,
        cells_stored(env, op, value) * env.cell_bits == stored_width(op, env.values[value].sort.width())->0,
        cells_stored(env, op, value) * env.cell_bits <= env.values[value].sort.width(),
        translate_store(env, op, value, base, addr_sort, offset)->Ok_0 == env.with_memory(
            stored(
                env.current_memory(),
                access_start(env, base, offset),
                value_stored(env, op, value),
                env.addr_bits,
                env.cell_bits,
                cells_stored(env, op, value),
            ),
        ),
{
    let c = env.cell_bits as int;
    let s = stored_width(op, env.values[value].sort.width())->0 as int;
    assert(s / c >= 1 && (s / c) * c == s) by (nonlinear_arith)
        requires
            s >= c,
            c >= 1,
            s % c == 0,
    ;
}

/// What a load that succeeds has checked, and the term that it binds.
pub proof fn load_succeeds(
    env: Env,
    dest: u32,
    op: Opcode,
    base: u32,
    addr_sort: Sort,
    offset: i32,
    dest_sort: Sort,
)
    requires
        env.wf(),
        translate_load(env, dest, op, base, addr_sort, offset, dest_sort) is Ok,
    ensures
        env.values.contains_key(base),
        width(access_start(env, base, offset)) == env.addr_bits,
        load_shape(op, dest_sort) is Ok,
        loaded_width(op, dest_sort.width()) is Some,
        cells_loaded(env, op, dest_sort) >= 1,
        cells_loaded(env, op, dest_sort) * env.cell_bits == loaded_width(op, dest_sort.width())->0,
        loaded_width(op, dest_sort.width())->0 <= dest_sort.width(),
        translate_load(env, dest, op, base, addr_sort, offset, dest_sort)->Ok_0.values.contains_key(dest),
        translate_load(env, dest, op, base, addr_sort, offset, dest_sort)->Ok_0.values[dest].term == widened(
            load_shape(op, dest_sort)->Ok_0.2,
            (dest_sort.width() - loaded_width(op, dest_sort.width())->0) as nat,
            loaded(env.current_memory(), access_start(env, base, offset), env.addr_bits, cells_loaded(env, op, dest_sort)),
        ),
{
    let c = env.cell_bits as int;
    let l = loaded_width(op, dest_sort.width())->0 as int;
    assert(l / c >= 1 && (l / c) * c == l) by (nonlinear_arith)
        requires
            l >= c,
            c >= 1,
            l % c == 0,
    ;
}

/// The low `bits` bits of `v`, widened to `returned` bits as a load
/// asks: as they are without extension or with zero extension, in two's
/// complement with sign extension.
pub open spec fn extended(ext: Option<Z3UnOps>, bits: nat, returned: nat, v: nat) -> nat {
    match ext {
        Some(Z3UnOps::BVSignExt) => wrapped(returned, signed(bits, (v % pow2(bits)) as nat)),
        _ => (v % pow2(bits)) as nat,
    }
}

/// Storing a value and loading back as many bits as were stored,
/// through the same base and offset, binds a formula that has the low
/// bits of the stored value, as many as were stored, widened as the load
/// asks: kept as they are by a plain or zero-extending load, read in
/// two's complement by a sign-extending one. This holds whatever the
/// address and the value are. The access must be no longer than the
/// address space.
pub proof fn store_then_load_cut(
    env: Env,
    op: Opcode,
    value: u32,
    base: u32,
    addr_sort: Sort,
    offset: i32,
    dest: u32,
    load_op: Opcode,
    dest_sort: Sort,
    a: Assignment,
)
    requires
        env.wf(),
        translate_store(env, op, value, base, addr_sort, offset) is Ok,
        translate_load(
            translate_store(env, op, value, base, addr_sort, offset)->Ok_0,
            dest,
            load_op,
            base,
            addr_sort,
            offset,
            dest_sort,
        ) is Ok,
        loaded_width(load_op, dest_sort.width()) == stored_width(op, env.values[value].sort.width()),
        cells_stored(env, op, value) <= pow2(env.addr_bits),
    ensures
        eval(
            translate_load(
                translate_store(env, op, value, base, addr_sort, offset)->Ok_0,
                dest,
                load_op,
                base,
                addr_sort,
                offset,
                dest_sort,
            )->Ok_0.values[dest].term,
            a,
        ) == extended(
            load_extension(load_op),
            stored_width(op, env.values[value].sort.width())->0,
            dest_sort.width(),
            eval(env.values[value].term, a),
        ),
{
    let after = translate_store(env, op, value, base, addr_sort, offset)->Ok_0;
    store_succeeds(env, op, value, base, addr_sort, offset);
    let n = cells_stored(env, op, value);
    let bits = stored_width(op, env.values[value].sort.width())->0;
    let start = access_start(env, base, offset);
    let term = value_stored(env, op, value);
    let after_mem = stored(env.current_memory(), start, term, env.addr_bits, env.cell_bits, n);
    stored_widths(env.current_memory(), start, term, env.addr_bits, env.cell_bits, n);
    assert(after.wf());
    load_succeeds(after, dest, load_op, base, addr_sort, offset, dest_sort);
    assert(after.current_memory() == after_mem);
    assert(access_start(after, base, offset) == start);
    assert(cells_loaded(after, load_op, dest_sort) == n);
    let read = loaded(after_mem, start, env.addr_bits, n);
    load_of_store(env.current_memory(), start, term, env.addr_bits, env.cell_bits, n, a);
    truncated_value(env.values[value].term, bits, a);
    lemma_pow2_pos(bits);
    lemma_mod_twice(eval(env.values[value].term, a) as int, pow2(bits) as int);
    cells_width(after_mem, start, env.addr_bits, (n - 1) as nat, 0);
    assert(width(read) == bits);
    widened_meaning(load_extension(load_op), (dest_sort.width() - bits) as nat, read, a);
    assert(load_shape(load_op, dest_sort)->Ok_0.2 == load_extension(load_op));
}

/// Storing a value and loading it back with a plain load of the same
/// sort, through the same base and offset, binds a formula that has the
/// stored value, whatever the address and the value are. The access must
/// be no longer than the address space.
pub proof fn store_then_load(
    env: Env,
    value: u32,
    base: u32,
    addr_sort: Sort,
    offset: i32,
    dest: u32,
    a: Assignment,
)
    requires
        env.wf(),
        translate_store(env, Opcode::Store, value, base, addr_sort, offset) is Ok,
        translate_load(
            translate_store(env, Opcode::Store, value, base, addr_sort, offset)->Ok_0,
            dest,
            Opcode::Load,
            base,
            addr_sort,
            offset,
            env.values[value].sort,
        ) is Ok,
        cells_stored(env, Opcode::Store, value) <= pow2(env.addr_bits),
    ensures
        eval(
            translate_load(
                translate_store(env, Opcode::Store, value, base, addr_sort, offset)->Ok_0,
                dest,
                Opcode::Load,
                base,
                addr_sort,
                offset,
                env.values[value].sort,
            )->Ok_0.values[dest].term,
            a,
        ) == eval(env.values[value].term, a),
{
    let sort = env.values[value].sort;
    store_succeeds(env, Opcode::Store, value, base, addr_sort, offset);
    store_then_load_cut(env, Opcode::Store, value, base, addr_sort, offset, dest, Opcode::Load, sort, a);
    eval_in_range(env.values[value].term, a);
    lemma_small_mod(eval(env.values[value].term, a), pow2(sort.width()));
}

/// A load is not affected by a store that writes to none of its cells:
/// after the store it binds a formula with the value that it would have
/// bound before.
pub proof fn store_keeps_other_cells(
    env: Env,
    store_op: Opcode,
    value: u32,
    store_base: u32,
    store_sort: Sort,
    store_offset: i32,
    dest: u32,
    load_op: Opcode,
    load_base: u32,
    load_sort: Sort,
    load_offset: i32,
    dest_sort: Sort,
    a: Assignment,
)
    requires
        env.wf(),
        translate_store(env, store_op, value, store_base, store_sort, store_offset) is Ok,
        translate_load(env, dest, load_op, load_base, load_sort, load_offset, dest_sort) is Ok,
        forall|k: nat, j: nat|
            k < cells_stored(env, store_op, value) && j < cells_loaded(env, load_op, dest_sort) ==> eval(
                #[trigger] cell_address(access_start(env, store_base, store_offset), env.addr_bits, k),
                a,
            ) != eval(#[trigger] cell_address(access_start(env, load_base, load_offset), env.addr_bits, j), a),
    ensures
        translate_load(
            translate_store(env, store_op, value, store_base, store_sort, store_offset)->Ok_0,
            dest,
            load_op,
            load_base,
            load_sort,
            load_offset,
            dest_sort,
        ) is Ok,
        eval(
            translate_load(
                translate_store(env, store_op, value, store_base, store_sort, store_offset)->Ok_0,
                dest,
                load_op,
                load_base,
                load_sort,
                load_offset,
                dest_sort,
            )->Ok_0.values[dest].term,
            a,
        ) == eval(
            translate_load(env, dest, load_op, load_base, load_sort, load_offset, dest_sort)->Ok_0.values[dest].term,
            a,
        ),
{
    let after = translate_store(env, store_op, value, store_base, store_sort, store_offset)->Ok_0;
    store_succeeds(env, store_op, value, store_base, store_sort, store_offset);
    let n = cells_stored(env, store_op, value);
    let start = access_start(env, store_base, store_offset);
    let term = value_stored(env, store_op, value);
    let before_mem = env.current_memory();
    let after_mem = stored(before_mem, start, term, env.addr_bits, env.cell_bits, n);
    stored_widths(before_mem, start, term, env.addr_bits, env.cell_bits, n);
    assert(after.wf());
    assert(after.current_memory() == after_mem);
    load_succeeds(env, dest, load_op, load_base, load_sort, load_offset, dest_sort);
    assert(translate_load(after, dest, load_op, load_base, load_sort, load_offset, dest_sort) is Ok);
    load_succeeds(after, dest, load_op, load_base, load_sort, load_offset, dest_sort);
    let other = access_start(env, load_base, load_offset);
    assert(access_start(after, load_base, load_offset) == other);
    let m = cells_loaded(env, load_op, dest_sort);
    assert(cells_loaded(after, load_op, dest_sort) == m);
    load_past_store(before_mem, start, term, env.addr_bits, env.cell_bits, n, other, m, a);
    let t1 = loaded(after_mem, other, env.addr_bits, m);
    let t2 = loaded(before_mem, other, env.addr_bits, m);
    cells_width(after_mem, other, env.addr_bits, (m - 1) as nat, 0);
    cells_width(before_mem, other, env.addr_bits, (m - 1) as nat, 0);
    widened_value(
        load_shape(load_op, dest_sort)->Ok_0.2,
        (dest_sort.width() - loaded_width(load_op, dest_sort.width())->0) as nat,
        t1,
        t2,
        a,
    );
}

/// A load whose access is no positive whole number of cells is rejected
/// as ill-typed or malformed, before anything is looked up.
pub proof fn malformed_load_is_rejected(
    env: Env,
    dest: u32,
    op: Opcode,
    base: u32,
    addr_sort: Sort,
    offset: i32,
    dest_sort: Sort,
)
    requires
        loaded_width(op, dest_sort.width()) is Some,
        !access_sound(env.cell_bits, loaded_width(op, dest_sort.width())->0),
    ensures
        translate_load(env, dest, op, base, addr_sort, offset, dest_sort) == Err::<Env, TranslateError>(
            TranslateError::TypeError,
        ) || translate_load(env, dest, op, base, addr_sort, offset, dest_sort) == Err::<Env, TranslateError>(
            TranslateError::StructuralError,
        ),
{
}

/// A store of a bound value whose access is no positive whole number of
/// cells is rejected as ill-typed or malformed.
pub proof fn malformed_store_is_rejected(
    env: Env,
    op: Opcode,
    value: u32,
    base: u32,
    addr_sort: Sort,
    offset: i32,
)
    requires
        env.wf(),
        env.values.contains_key(value),
        stored_width(op, env.values[value].sort.width()) is Some,
        !access_sound(env.cell_bits, stored_width(op, env.values[value].sort.width())->0),
    ensures
        translate_store(env, op, value, base, addr_sort, offset) == Err::<Env, TranslateError>(
            TranslateError::TypeError,
        ) || translate_store(env, op, value, base, addr_sort, offset) == Err::<Env, TranslateError>(
            TranslateError::StructuralError,
        ),
{
}

/// A binary instruction with an immediate does what its plain form does
/// on a second operand that is bound to the immediate cut to the
/// operand's width.
pub proof fn immediate_is_cut(
    env: Env,
    dest: u32,
    op: Opcode,
    plain: Opcode,
    arg: u32,
    sort: Sort,
    imm: i64,
    constant: u32,
)
    requires
        binary_operator(op) is Some,
        binary_operator(op) == binary_operator(plain),
        env.lookup(constant, Some(sort)) == Ok::<Term, TranslateError>(
            numeral(sort.width(), imm as int % pow2(sort.width()) as int),
        ),
    ensures
        translate_binary_imm(env, dest, op, arg, sort, imm) == translate_binary(env, dest, plain, arg, constant, sort),
{
    numeral_is_cut(sort.width(), imm as int);
}

/// A binary instruction binds a formula that has, in every lane, the
/// operator's value on that lane of the operands.
pub proof fn binary_is_lanewise(
    env: Env,
    dest: u32,
    op: Opcode,
    lhs: u32,
    rhs: u32,
    sort: Sort,
    i: nat,
    a: Assignment,
)
    requires
        env.wf(),
        translate_binary(env, dest, op, lhs, rhs, sort) is Ok,
        i < sort.lanes,
    ensures
        lane_of(
            sort.lane_bits as nat,
            eval(translate_binary(env, dest, op, lhs, rhs, sort)->Ok_0.values[dest].term, a),
            i,
        ) == apply(
            binary_operator(op)->0,
            sort.lane_bits as nat,
            lane_of(sort.lane_bits as nat, eval(env.values[lhs].term, a), i),
            lane_of(sort.lane_bits as nat, eval(env.values[rhs].term, a), i),
        ),
{
    lanes_are_independent(
        binary_operator(op)->0,
        env.values[lhs].term,
        env.values[rhs].term,
        sort.lanes as nat,
        sort.lane_bits as nat,
        i,
        a,
    );
}

/// The width of what an operator applied lane by lane gives is the
/// width of its operands.
pub proof fn lanewise_width(op: Z3BinOps, lhs: Term, rhs: Term, nlanes: nat, lane_bits: nat)
    requires
        nlanes >= 1,
        lane_bits >= 1,
        width(lhs) == nlanes * lane_bits,
    ensures
        width(lanewise(op, lhs, rhs, nlanes, lane_bits)) == width(lhs),
{
    if nlanes > 1 {
        lanes_width(op, lhs, rhs, lane_bits, (nlanes - 1) as nat, 0);
    }
}

/// Translating an instruction keeps the environment well formed: every
/// value still has the width of its sort, and every memory version the
/// configured widths.
pub proof fn translate_keeps_wf(env: Env, instr: Instr)
    requires
        env.wf(),
        translate(env, instr) is Ok,
    ensures
        translate(env, instr)->Ok_0.wf(),
{
    match instr {
        Instr::Constant { dest, width, imm } => {
            assert(1 * width == width) by (nonlinear_arith);
        },
        Instr::Binary { dest, op, lhs, rhs, sort } => {
            lanewise_width(
                binary_operator(op)->0,
                env.values[lhs].term,
                env.values[rhs].term,
                sort.lanes as nat,
                sort.lane_bits as nat,
            );
        },
        Instr::BinaryImmediate { dest, op, arg, sort, imm } => {
            lanewise_width(
                binary_operator(op)->0,
                env.values[arg].term,
                numeral(sort.width(), imm as int),
                sort.lanes as nat,
                sort.lane_bits as nat,
            );
        },
        Instr::Load { dest, op, base, addr_sort, offset, dest_sort } => {
            load_succeeds(env, dest, op, base, addr_sort, offset, dest_sort);
            let n = cells_loaded(env, op, dest_sort);
            cells_width(
                env.current_memory(),
                access_start(env, base, offset),
                env.addr_bits,
                (n - 1) as nat,
                0,
            );
        },
        Instr::Store { op, value, base, addr_sort, offset } => {
            store_succeeds(env, op, value, base, addr_sort, offset);
            stored_widths(
                env.current_memory(),
                access_start(env, base, offset),
                value_stored(env, op, value),
                env.addr_bits,
                env.cell_bits,
                cells_stored(env, op, value),
            );
        },
        Instr::Other { op } => {},
    }
}

/// Translating an instruction only adds: every binding, every memory
/// version and every line of the log that was there is still there,
/// unchanged, and the configuration is the same. At most one value or one
/// memory version is new, with one line of the log.
pub proof fn translate_only_adds(env: Env, instr: Instr)
    requires
        env.wf(),
        translate(env, instr) is Ok,
    ensures
        translate(env, instr)->Ok_0.addr_bits == env.addr_bits,
        translate(env, instr)->Ok_0.cell_bits == env.cell_bits,
        forall|id: u32| #[trigger]
            env.values.contains_key(id) ==> translate(env, instr)->Ok_0.values.contains_key(id) && translate(
                env,
                instr,
            )->Ok_0.values[id] == env.values[id],
        env.memory.is_prefix_of(translate(env, instr)->Ok_0.memory),
        env.log.is_prefix_of(translate(env, instr)->Ok_0.log),
        outcome(env, instr) is Skipped ==> translate(env, instr)->Ok_0 == env,
        outcome(env, instr) is Stored ==> {
            &&& translate(env, instr)->Ok_0.memory.len() == env.memory.len() + 1
            &&& translate(env, instr)->Ok_0.value_count() == env.value_count()
            &&& translate(env, instr)->Ok_0.log.len() == env.log.len() + 1
        },
        outcome(env, instr) is Defined ==> {
            &&& translate(env, instr)->Ok_0.memory == env.memory
            &&& translate(env, instr)->Ok_0.value_count() == env.value_count() + 1
            &&& translate(env, instr)->Ok_0.log.len() == env.log.len() + 1
        },
{
}

} // verus!
