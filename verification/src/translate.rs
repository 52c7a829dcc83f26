//! The instruction translator: one instruction in, one binding or one new
//! memory version out.

use crate::env::Env;
use crate::error::TranslateError;
use crate::instr::{Instr, Step};
use crate::lanes::{lanewise, z3_lanewise_binop};
use crate::memory::{
    effective_address, loaded, read_cells, stored, truncated, widen, widened, write_value,
};
use crate::opcode::{
    bin_opcode_to_z3op, binary_operator, load_info, load_shape, store_info, store_shape, Opcode,
};
use crate::smt::{bv_add, bv_context, bv_from_i64, bv_term};
use crate::sort::Sort;
use crate::state::Z3State;
use crate::term::numeral;
use crate::typecheck::{access_sound, address_sound, check_access, check_address};
use vstd::prelude::*;
use z3::ast::BV;

verus! {

/// What a constant does: binds `dest`, as a scalar of `width` bits, to
/// the numeral that holds `imm` modulo `2^width`. A width that no scalar
/// sort has is malformed.
pub open spec fn translate_constant(
    env: Env,
    dest: u32,
    width: u32,
    imm: i64,
) -> Result<Env, TranslateError> {
    if !(Sort { lanes: 1, lane_bits: width }).wf() {
        Err(TranslateError::StructuralError)
    } else {
        env.define(dest, numeral(width as nat, imm as int), Sort { lanes: 1, lane_bits: width }, true)
    }
}

/// What a binary instruction does: looks both operands up at `sort`,
/// applies the operator lane by lane and binds `dest` at `sort`.
pub open spec fn translate_binary(
    env: Env,
    dest: u32,
    op: Opcode,
    lhs: u32,
    rhs: u32,
    sort: Sort,
) -> Result<Env, TranslateError> {
    if !sort.wf() {
        Err(TranslateError::StructuralError)
    } else if env.lookup(lhs, Some(sort)) is Err {
        Err(env.lookup(lhs, Some(sort))->Err_0)
    } else if env.lookup(rhs, Some(sort)) is Err {
        Err(env.lookup(rhs, Some(sort))->Err_0)
    } else if binary_operator(op) is None {
        Err(TranslateError::UnsupportedOpcodeError(op))
    } else {
        env.define(
            dest,
            lanewise(
                binary_operator(op)->0,
                env.lookup(lhs, Some(sort))->Ok_0,
                env.lookup(rhs, Some(sort))->Ok_0,
                sort.lanes as nat,
                sort.lane_bits as nat,
            ),
            sort,
            true,
        )
    }
}

/// What a binary instruction with an immediate does: as the plain form,
/// with the numeral that holds `imm` modulo `2^sort.width()` for the second
/// operand.
pub open spec fn translate_binary_imm(
    env: Env,
    dest: u32,
    op: Opcode,
    arg: u32,
    sort: Sort,
    imm: i64,
) -> Result<Env, TranslateError> {
    if !sort.wf() {
        Err(TranslateError::StructuralError)
    } else if env.lookup(arg, Some(sort)) is Err {
        Err(env.lookup(arg, Some(sort))->Err_0)
    } else if binary_operator(op) is None {
        Err(TranslateError::UnsupportedOpcodeError(op))
    } else {
        env.define(
            dest,
            lanewise(
                binary_operator(op)->0,
                env.lookup(arg, Some(sort))->Ok_0,
                numeral(sort.width(), imm as int),
                sort.lanes as nat,
                sort.lane_bits as nat,
            ),
            sort,
            true,
        )
    }
}

/// What a load does: reads the loaded width, cell by cell, from the
/// current memory at `base + offset`, widens it to the width of
/// `dest_sort` as the opcode asks, and binds `dest`.
///
/// The sorts and the access are checked before anything is looked up.
pub open spec fn translate_load(
    env: Env,
    dest: u32,
    op: Opcode,
    base: u32,
    addr_sort: Sort,
    offset: i32,
    dest_sort: Sort,
) -> Result<Env, TranslateError> {
    if !addr_sort.wf() || !dest_sort.wf() {
        Err(TranslateError::StructuralError)
    } else if load_shape(op, dest_sort) is Err {
        Err(load_shape(op, dest_sort)->Err_0)
    } else {
        let (access, returned, ext) = load_shape(op, dest_sort)->Ok_0;
        if !access_sound(env.cell_bits, access as nat) || access > returned {
            Err(TranslateError::TypeError)
        } else if !address_sound(env.addr_bits, addr_sort) {
            Err(TranslateError::TypeError)
        } else if env.lookup(base, Some(addr_sort)) is Err {
            Err(env.lookup(base, Some(addr_sort))->Err_0)
        } else {
            env.define(
                dest,
                widened(
                    ext,
                    (returned - access) as nat,
                    loaded(
                        env.current_memory(),
                        effective_address(env.lookup(base, Some(addr_sort))->Ok_0, env.addr_bits, offset as int),
                        env.addr_bits,
                        access as nat / env.cell_bits,
                    ),
                ),
                dest_sort,
                true,
            )
        }
    }
}

/// What a store does: cuts `value` to the stored width, writes it cell
/// by cell to the current memory at `base + offset`, and makes the result
/// the next memory version.
///
/// The stored width of a plain store is the width that `value` is bound
/// at, so `value` is looked up first; the access is checked before the
/// address is looked up.
pub open spec fn translate_store(
    env: Env,
    op: Opcode,
    value: u32,
    base: u32,
    addr_sort: Sort,
    offset: i32,
) -> Result<Env, TranslateError> {
    if !addr_sort.wf() {
        Err(TranslateError::StructuralError)
    } else if env.lookup(value, None) is Err {
        Err(env.lookup(value, None)->Err_0)
    } else if store_shape(op, env.values[value].sort) is Err {
        Err(store_shape(op, env.values[value].sort)->Err_0)
    } else {
        let (access, operand) = store_shape(op, env.values[value].sort)->Ok_0;
        if !access_sound(env.cell_bits, access as nat) || access > operand {
            Err(TranslateError::TypeError)
        } else if !address_sound(env.addr_bits, addr_sort) {
            Err(TranslateError::TypeError)
        } else if env.lookup(base, Some(addr_sort)) is Err {
            Err(env.lookup(base, Some(addr_sort))->Err_0)
        } else {
            Ok(
                env.with_memory(
                    stored(
                        env.current_memory(),
                        effective_address(env.lookup(base, Some(addr_sort))->Ok_0, env.addr_bits, offset as int),
                        truncated(env.lookup(value, None)->Ok_0, access as nat),
                        env.addr_bits,
                        env.cell_bits,
                        access as nat / env.cell_bits,
                    ),
                ),
            )
        }
    }
}

/// The environment after one instruction, or the error that stops its
/// translation.
pub open spec fn translate(env: Env, instr: Instr) -> Result<Env, TranslateError> {
    match instr {
        Instr::Constant { dest, width, imm } => translate_constant(env, dest, width, imm),
        Instr::Binary { dest, op, lhs, rhs, sort } => translate_binary(env, dest, op, lhs, rhs, sort),
        Instr::BinaryImmediate { dest, op, arg, sort, imm } => translate_binary_imm(env, dest, op, arg, sort, imm),
        Instr::Load { dest, op, base, addr_sort, offset, dest_sort } => translate_load(
            env,
            dest,
            op,
            base,
            addr_sort,
            offset,
            dest_sort,
        ),
        Instr::Store { op, value, base, addr_sort, offset } => translate_store(env, op, value, base, addr_sort, offset),
        Instr::Other { op } => Ok(env),
    }
}

/// What is reported for an instruction that was translated.
pub open spec fn outcome(env: Env, instr: Instr) -> Step {
    match instr {
        Instr::Constant { dest, width, imm } => Step::Defined(dest),
        Instr::Binary { dest, op, lhs, rhs, sort } => Step::Defined(dest),
        Instr::BinaryImmediate { dest, op, arg, sort, imm } => Step::Defined(dest),
        Instr::Load { dest, op, base, addr_sort, offset, dest_sort } => Step::Defined(dest),
        Instr::Store { op, value, base, addr_sort, offset } => Step::Stored(env.memory.len() as u64),
        Instr::Other { op } => Step::Skipped(op),
    }
}

impl<'ctx> Z3State<'ctx> {
    /// The constant of the width of `typ` that holds `v` modulo
    /// `2^typ.width()`. A sort that is not well formed is malformed.
    pub fn z3_bv_i64(&self, typ: &Sort, v: i64) -> (r: Result<BV<'ctx>, TranslateError>)
        ensures
            match r {
                Ok(val) => {
                    &&& typ.wf()
                    &&& bv_context(&val) == self.context()
                    &&& bv_term(&val) == numeral(typ.width(), v as int)
                },
                Err(e) => e == TranslateError::StructuralError && !typ.wf(),
            },
    {
        match typ.bits() {
            Some(nbits) => Ok(bv_from_i64(self.solver_context(), v, nbits)),
            None => Err(TranslateError::StructuralError),
        }
    }

    /// The constant for a byte offset, as `z3_bv_i64` makes it.
    pub fn z3_bv_off(&self, typ: &Sort, off: i32) -> (r: Result<BV<'ctx>, TranslateError>)
        ensures
            match r {
                Ok(val) => {
                    &&& typ.wf()
                    &&& bv_context(&val) == self.context()
                    &&& bv_term(&val) == numeral(typ.width(), off as int)
                },
                Err(e) => e == TranslateError::StructuralError && !typ.wf(),
            },
    {
        self.z3_bv_i64(typ, off as i64)
    }

    fn add_constant(&mut self, dest: u32, width: u32, imm: i64) -> (r: Result<Step, TranslateError>)
        requires
            old(self).wf(),
        ensures
            final(self).wf(),
            final(self).context() == old(self).context(),
            match r {
                Ok(step) => {
                    &&& translate_constant(old(self)@, dest, width, imm) == Ok::<Env, TranslateError>(final(self)@)
                    &&& step == Step::Defined(dest)
                },
                Err(e) => {
                    &&& translate_constant(old(self)@, dest, width, imm) == Err::<Env, TranslateError>(e)
                    &&& *final(self) == *old(self)
                },
            },
    {
        let sort = Sort::scalar(width);
        let z3_val = match self.z3_bv_i64(&sort, imm) {
            Ok(val) => val,
            Err(e) => {
                return Err(e);
            },
        };
        proof {
            assert(sort.width() == width) by (nonlinear_arith)
                requires
                    sort.lanes == 1,
                    sort.lane_bits == width,
            ;
        }
        match self.define_int(dest, z3_val, sort) {
            Ok(()) => Ok(Step::Defined(dest)),
            Err(e) => Err(e),
        }
    }

    fn add_binary(
        &mut self,
        dest: u32,
        op: Opcode,
        lhs: u32,
        rhs: u32,
        sort: Sort,
    ) -> (r: Result<Step, TranslateError>)
        requires
            old(self).wf(),
        ensures
            final(self).wf(),
            final(self).context() == old(self).context(),
            match r {
                Ok(step) => {
                    &&& translate_binary(old(self)@, dest, op, lhs, rhs, sort) == Ok::<Env, TranslateError>(final(self)@)
                    &&& step == Step::Defined(dest)
                },
                Err(e) => {
                    &&& translate_binary(old(self)@, dest, op, lhs, rhs, sort) == Err::<Env, TranslateError>(e)
                    &&& *final(self) == *old(self)
                },
            },
    {
        if sort.bits().is_none() {
            return Err(TranslateError::StructuralError);
        }
        proof {
            self.handles_agree();
        }
        let z3_lhs = match self.lookup(lhs, Some(sort)) {
            Ok(formula) => formula,
            Err(e) => {
                return Err(e);
            },
        };
        let z3_rhs = match self.lookup(rhs, Some(sort)) {
            Ok(formula) => formula,
            Err(e) => {
                return Err(e);
            },
        };
        let z3_op = match bin_opcode_to_z3op(op) {
            Ok(z3_op) => z3_op,
            Err(e) => {
                return Err(e);
            },
        };
        let res = match z3_lanewise_binop(z3_lhs, z3_rhs, z3_op, sort.lane_count(), sort.lane_width()) {
            Ok(res) => res,
            Err(e) => {
                return Err(e);
            },
        };
        match self.define_int(dest, res, sort) {
            Ok(()) => Ok(Step::Defined(dest)),
            Err(e) => Err(e),
        }
    }

    fn add_binary_imm(
        &mut self,
        dest: u32,
        op: Opcode,
        arg: u32,
        sort: Sort,
        imm: i64,
    ) -> (r: Result<Step, TranslateError>)
        requires
            old(self).wf(),
        ensures
            final(self).wf(),
            final(self).context() == old(self).context(),
            match r {
                Ok(step) => {
                    &&& translate_binary_imm(old(self)@, dest, op, arg, sort, imm) == Ok::<Env, TranslateError>(final(self)@)
                    &&& step == Step::Defined(dest)
                },
                Err(e) => {
                    &&& translate_binary_imm(old(self)@, dest, op, arg, sort, imm) == Err::<Env, TranslateError>(e)
                    &&& *final(self) == *old(self)
                },
            },
    {
        if sort.bits().is_none() {
            return Err(TranslateError::StructuralError);
        }
        proof {
            self.handles_agree();
        }
        let z3_lhs = match self.lookup(arg, Some(sort)) {
            Ok(formula) => formula,
            Err(e) => {
                return Err(e);
            },
        };
        let z3_rhs = match self.z3_bv_i64(&sort, imm) {
            Ok(val) => val,
            Err(e) => {
                return Err(e);
            },
        };
        let z3_op = match bin_opcode_to_z3op(op) {
            Ok(z3_op) => z3_op,
            Err(e) => {
                return Err(e);
            },
        };
        let res = match z3_lanewise_binop(z3_lhs, &z3_rhs, z3_op, sort.lane_count(), sort.lane_width()) {
            Ok(res) => res,
            Err(e) => {
                return Err(e);
            },
        };
        match self.define_int(dest, res, sort) {
            Ok(()) => Ok(Step::Defined(dest)),
            Err(e) => Err(e),
        }
    }

    fn add_load(
        &mut self,
        dest: u32,
        op: Opcode,
        base: u32,
        addr_sort: Sort,
        offset: i32,
        dest_sort: Sort,
    ) -> (r: Result<Step, TranslateError>)
        requires
            old(self).wf(),
        ensures
            final(self).wf(),
            final(self).context() == old(self).context(),
            match r {
                Ok(step) => {
                    &&& translate_load(old(self)@, dest, op, base, addr_sort, offset, dest_sort) == Ok::<Env, TranslateError>(final(self)@)
                    &&& step == Step::Defined(dest)
                },
                Err(e) => {
                    &&& translate_load(old(self)@, dest, op, base, addr_sort, offset, dest_sort) == Err::<Env, TranslateError>(e)
                    &&& *final(self) == *old(self)
                },
            },
    {
        if addr_sort.bits().is_none() || dest_sort.bits().is_none() {
            return Err(TranslateError::StructuralError);
        }
        proof {
            self.handles_agree();
        }
        let (access_width, ret_w, ext_op) = match load_info(op, &dest_sort) {
            Ok(info) => info,
            Err(e) => {
                return Err(e);
            },
        };
        let n_cells: u32 = match check_access(self.cell_bits(), access_width) {
            Ok(n) => n,
            Err(e) => {
                return Err(e);
            },
        };
        if access_width > ret_w {
            return Err(TranslateError::TypeError);
        }
        match check_address(self.addr_bits(), &addr_sort) {
            Ok(()) => {},
            Err(e) => {
                return Err(e);
            },
        }
        let z3_base_addr = match self.lookup(base, Some(addr_sort)) {
            Ok(formula) => formula,
            Err(e) => {
                return Err(e);
            },
        };
        let z3_off = match self.z3_bv_off(&addr_sort, offset) {
            Ok(val) => val,
            Err(e) => {
                return Err(e);
            },
        };
        let z3_addr = bv_add(z3_base_addr, &z3_off);
        let ctx = self.solver_context();
        let mem = self.lookup_mem();
        let z3_val = read_cells(ctx, mem, &z3_addr, n_cells);
        let z3_val = widen(ext_op, ret_w - access_width, z3_val);
        match self.define_int(dest, z3_val, dest_sort) {
            Ok(()) => Ok(Step::Defined(dest)),
            Err(e) => Err(e),
        }
    }

    fn add_store(
        &mut self,
        op: Opcode,
        value: u32,
        base: u32,
        addr_sort: Sort,
        offset: i32,
    ) -> (r: Result<Step, TranslateError>)
        requires
            old(self).wf(),
        ensures
            final(self).wf(),
            final(self).context() == old(self).context(),
            match r {
                Ok(step) => {
                    &&& translate_store(old(self)@, op, value, base, addr_sort, offset) == Ok::<Env, TranslateError>(final(self)@)
                    &&& step == Step::Stored(old(self)@.memory.len() as u64)
                },
                Err(e) => {
                    &&& translate_store(old(self)@, op, value, base, addr_sort, offset) == Err::<Env, TranslateError>(e)
                    &&& *final(self) == *old(self)
                },
            },
    {
        if addr_sort.bits().is_none() {
            return Err(TranslateError::StructuralError);
        }
        proof {
            self.handles_agree();
        }
        let z3_arg = match self.lookup(value, None) {
            Ok(formula) => formula,
            Err(e) => {
                return Err(e);
            },
        };
        let val_sort = match self.sort_of(value) {
            Some(sort) => sort,
            None => {
                return Err(TranslateError::UndefinedValueError(value));
            },
        };
        let (stored_size, arg_size) = match store_info(op, &val_sort) {
            Ok(info) => info,
            Err(e) => {
                return Err(e);
            },
        };
        let n_cells: u32 = match check_access(self.cell_bits(), stored_size) {
            Ok(n) => n,
            Err(e) => {
                return Err(e);
            },
        };
        if stored_size > arg_size {
            return Err(TranslateError::TypeError);
        }
        match check_address(self.addr_bits(), &addr_sort) {
            Ok(()) => {},
            Err(e) => {
                return Err(e);
            },
        }
        let z3_addr = match self.lookup(base, Some(addr_sort)) {
            Ok(formula) => formula,
            Err(e) => {
                return Err(e);
            },
        };
        let z3_off = match self.z3_bv_off(&addr_sort, offset) {
            Ok(val) => val,
            Err(e) => {
                return Err(e);
            },
        };
        let z3_base_addr = bv_add(z3_addr, &z3_off);
        let ctx = self.solver_context();
        let mem = self.lookup_mem();
        let new_mem = write_value(ctx, mem, &z3_base_addr, z3_arg, stored_size, self.cell_bits(), n_cells);
        self.define_mem(new_mem);
        Ok(Step::Stored(self.memory_version()))
    }

    /// Translates one instruction.
    ///
    /// A constant, a binary instruction and a load bind their result; a
    /// store makes the next memory version; an instruction that is not
    /// modelled is reported as skipped and changes nothing. On an error
    /// nothing is bound and the environment is as before.
    pub fn add_instr(&mut self, instr: &Instr) -> (r: Result<Step, TranslateError>)
        requires
            old(self).wf(),
        ensures
            final(self).wf(),
            final(self).context() == old(self).context(),
            match r {
                Ok(step) => {
                    &&& translate(old(self)@, *instr) == Ok::<Env, TranslateError>(final(self)@)
                    &&& step == outcome(old(self)@, *instr)
                },
                Err(e) => {
                    &&& translate(old(self)@, *instr) == Err::<Env, TranslateError>(e)
                    &&& *final(self) == *old(self)
                },
            },
    {
        match *instr {
            Instr::Constant { dest, width, imm } => self.add_constant(dest, width, imm),
            Instr::Binary { dest, op, lhs, rhs, sort } => self.add_binary(dest, op, lhs, rhs, sort),
            Instr::BinaryImmediate { dest, op, arg, sort, imm } => self.add_binary_imm(dest, op, arg, sort, imm),
            Instr::Load { dest, op, base, addr_sort, offset, dest_sort } => self.add_load(
                dest,
                op,
                base,
                addr_sort,
                offset,
                dest_sort,
            ),
            Instr::Store { op, value, base, addr_sort, offset } => self.add_store(op, value, base, addr_sort, offset),
            Instr::Other { op } => Ok(Step::Skipped(op)),
        }
    }
}

} // verus!
