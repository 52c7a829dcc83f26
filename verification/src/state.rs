//! The symbolic environment that holds the solver's handles.

use crate::env::{Bound, Entry, Env};
use crate::error::TranslateError;
use crate::naming::{mem_name, ssa_name};
use crate::smt::{
    bv_context, bv_get_ctx, bv_size, bv_term, bv_to_string, mem_context, mem_fresh, mem_term,
    mem_to_string, same_context,
};
use crate::sort::{Sort, MAX_WIDTH};
use crate::term::{addr_bits, cell_bits, width, Term};
use std::collections::HashMap;
use vstd::prelude::*;
use z3::ast::{Array, BV};
use z3::Context;

verus! {

broadcast use vstd::std_specs::hash::group_hash_axioms;

/// A value's formula and the sort it was defined at.
struct ValueBinding<'ctx> {
    formula: BV<'ctx>,
    sort: Sort,
}

/// One line of the definition log.
#[derive(Debug, PartialEq, Eq)]
pub struct Definition {
    /// The generated name: `ssa_<n>` or `mem_<n>`.
    pub name: String,
    /// The solver's text of the formula.
    pub text: String,
}

/// The symbolic state of one straight-line instruction sequence: the
/// formulas of its values, the versions of memory, and the log of every
/// definition made.
///
/// A binding is never changed or removed. The environment is configured
/// with the width of addresses and of one memory cell.
pub struct Z3State<'ctx> {
    ctx: &'ctx Context,
    defs: HashMap<u32, ValueBinding<'ctx>>,
    memory: Vec<Array<'ctx>>,
    log: Vec<Definition>,
    addr_bits: u32,
    val_bits: u32,
}

impl<'ctx> View for Z3State<'ctx> {
    type V = Env;

    closed spec fn view(&self) -> Env {
        Env {
            addr_bits: self.addr_bits as nat,
            cell_bits: self.val_bits as nat,
            values: Map::new(
                |id: u32| self.defs@.contains_key(id),
                |id: u32| Bound { term: bv_term(&self.defs@[id].formula), sort: self.defs@[id].sort },
            ),
            memory: Seq::new(self.memory@.len(), |n: int| mem_term(&self.memory@[n])),
            log: Seq::new(
                self.log@.len(),
                |i: int| Entry { name: self.log@[i].name@, text: self.log@[i].text@ },
            ),
        }
    }
}

impl<'ctx> Z3State<'ctx> {
    /// The solver context in which the environment builds its formulas.
    pub closed spec fn context(&self) -> Context {
        *self.ctx
    }

    /// The handle that `id` is bound to.
    pub closed spec fn handle(&self, id: u32) -> BV<'ctx> {
        self.defs@[id].formula
    }

    /// The handle of memory version `n`.
    pub closed spec fn memory_handle(&self, n: int) -> Array<'ctx> {
        self.memory@[n]
    }

    /// Whether `val` is a formula of `sort.width()` bits in the
    /// environment's context.
    pub open spec fn fits(&self, val: &BV<'ctx>, sort: Sort) -> bool {
        &&& bv_context(val) == self.context()
        &&& width(bv_term(val)) == sort.width()
    }

    /// The model is well formed, and every handle belongs to the
    /// environment's context.
    pub closed spec fn wf(&self) -> bool {
        &&& self@.wf()
        &&& forall|id: u32| #[trigger]
            self.defs@.contains_key(id) ==> bv_context(&self.defs@[id].formula) == *self.ctx
        &&& forall|n: int|
            0 <= n < self.memory@.len() ==> mem_context(&#[trigger] self.memory@[n]) == *self.ctx
    }

    /// In a well-formed environment the handles stand for the terms of the
    /// model and belong to the environment's context.
    pub proof fn handles_agree(&self)
        requires
            self.wf(),
        ensures
            self@.wf(),
            forall|id: u32| #[trigger]
                self@.values.contains_key(id) ==> {
                    &&& bv_term(&self.handle(id)) == self@.values[id].term
                    &&& bv_context(&self.handle(id)) == self.context()
                },
            forall|n: int|
                0 <= n < self@.memory.len() ==> {
                    &&& mem_term(&#[trigger] self.memory_handle(n)) == self@.memory[n]
                    &&& mem_context(&self.memory_handle(n)) == self.context()
                },
    {
    }

    /// An environment with 32-bit addresses and 8-bit memory cells.
    ///
    /// Binds memory version 0 to a fresh array constant of the solver and
    /// logs it as `mem_0`.
    pub fn new(ctx: &'ctx Context) -> (s: Z3State<'ctx>)
        ensures
            s.wf(),
            s.context() == *ctx,
            s@.memory.len() == 1,
            s@.memory[0] is Memory,
            s@ == Env::fresh(32, 8, s@.memory[0]),
    {
        let mem = mem_fresh_named(ctx, 32, 8);
        Self::with_memory_zero(ctx, 32, 8, mem)
    }

    /// An environment with the given widths of addresses and memory cells.
    /// A width of zero, or of more than `MAX_WIDTH`, is malformed.
    pub fn with_widths(
        ctx: &'ctx Context,
        addr_bits: u32,
        cell_bits: u32,
    ) -> (r: Result<Z3State<'ctx>, TranslateError>)
        ensures
            match r {
                Ok(s) => {
                    &&& 1 <= addr_bits <= MAX_WIDTH
                    &&& 1 <= cell_bits <= MAX_WIDTH
                    &&& s.wf()
                    &&& s.context() == *ctx
                    &&& s@.memory.len() == 1
                    &&& s@.memory[0] is Memory
                    &&& s@ == Env::fresh(addr_bits as nat, cell_bits as nat, s@.memory[0])
                },
                Err(e) => {
                    &&& e == TranslateError::StructuralError
                    &&& !(1 <= addr_bits <= MAX_WIDTH && 1 <= cell_bits <= MAX_WIDTH)
                },
            },
    {
        if addr_bits == 0 || cell_bits == 0 || addr_bits > MAX_WIDTH || cell_bits > MAX_WIDTH {
            return Err(TranslateError::StructuralError);
        }
        let mem = mem_fresh_named(ctx, addr_bits, cell_bits);
        Ok(Self::with_memory_zero(ctx, addr_bits, cell_bits, mem))
    }

    fn with_memory_zero(
        ctx: &'ctx Context,
        addr_bits: u32,
        val_bits: u32,
        mem: Array<'ctx>,
    ) -> (s: Z3State<'ctx>)
        requires
            1 <= addr_bits <= MAX_WIDTH,
            1 <= val_bits <= MAX_WIDTH,
            mem_context(&mem) == *ctx,
            mem_term(&mem) is Memory,
            self::addr_bits(mem_term(&mem)) == addr_bits,
            self::cell_bits(mem_term(&mem)) == val_bits,
        ensures
            s.wf(),
            s.context() == *ctx,
            s@ == Env::fresh(addr_bits as nat, val_bits as nat, mem_term(&mem)),
            s@.memory.len() == 1,
            s@.memory[0] == mem_term(&mem),
    {
        let text = mem_to_string(&mem);
        let mut log: Vec<Definition> = Vec::new();
        log.push(Definition { name: mem_name(0), text });
        let mut memory: Vec<Array<'ctx>> = Vec::new();
        memory.push(mem);
        let s = Z3State { ctx, defs: HashMap::new(), memory, log, addr_bits, val_bits };
        proof {
            let model = Env::fresh(addr_bits as nat, val_bits as nat, mem_term(&mem));
            assert(s@.values =~= model.values);
            assert(s@.memory =~= model.memory);
            assert(s@.log =~= model.log);
        }
        s
    }

    /// The configured width of addresses.
    pub fn addr_bits(&self) -> (n: u32)
        ensures
            n == self@.addr_bits,
    {
        self.addr_bits
    }

    /// The configured width of one memory cell.
    pub fn cell_bits(&self) -> (n: u32)
        ensures
            n == self@.cell_bits,
    {
        self.val_bits
    }

    /// The solver context of the environment.
    pub fn solver_context(&self) -> (c: &'ctx Context)
        ensures
            *c == self.context(),
    {
        self.ctx
    }

    /// The definition log, in the order in which the bindings were made.
    pub fn definitions(&self) -> (log: &Vec<Definition>)
        ensures
            log@.len() == self@.log.len(),
            forall|i: int|
                0 <= i < log@.len() ==> {
                    &&& (#[trigger] log@[i]).name@ == self@.log[i].name
                    &&& log@[i].text@ == self@.log[i].text
                },
    {
        &self.log
    }

    /// The number of the current memory version.
    pub fn memory_version(&self) -> (n: u64)
        requires
            self.wf(),
        ensures
            n == self@.memory_version(),
    {
        (self.memory.len() - 1) as u64
    }

    /// Whether `cval` is bound.
    pub fn is_defined(&self, cval: u32) -> (b: bool)
        ensures
            b == self@.values.contains_key(cval),
    {
        self.defs.contains_key(&cval)
    }

    /// The sort that `cval` was defined at, if it is bound.
    pub fn sort_of(&self, cval: u32) -> (r: Option<Sort>)
        ensures
            r == if self@.values.contains_key(cval) {
                Some(self@.values[cval].sort)
            } else {
                None
            },
    {
        match self.defs.get(&cval) {
            Some(binding) => Some(binding.sort),
            None => None,
        }
    }

    /// Returns the formula that `cval` is bound to.
    ///
    /// Fails with `UndefinedValueError` for an unbound value, and with
    /// `TypeError` where a sort is expected and the value was defined at
    /// another one.
    pub fn lookup(&self, cval: u32, sort: Option<Sort>) -> (r: Result<&BV<'ctx>, TranslateError>)
        requires
            self.wf(),
        ensures
            match r {
                Ok(formula) => {
                    &&& self@.lookup(cval, sort) == Ok::<Term, TranslateError>(bv_term(formula))
                    &&& *formula == self.handle(cval)
                    &&& bv_context(formula) == self.context()
                },
                Err(e) => self@.lookup(cval, sort) == Err::<Term, TranslateError>(e),
            },
    {
        match self.defs.get(&cval) {
            Some(binding) => {
                if let Some(req_sort) = sort {
                    if !binding.sort.same_as(&req_sort) {
                        return Err(TranslateError::TypeError);
                    }
                }
                Ok(&binding.formula)
            },
            None => Err(TranslateError::UndefinedValueError(cval)),
        }
    }

    /// Returns the formula of the current memory version.
    pub fn lookup_mem(&self) -> (mem: &Array<'ctx>)
        requires
            self.wf(),
        ensures
            mem_term(mem) == self@.current_memory(),
            mem_context(mem) == self.context(),
            *mem == self.memory_handle(self@.memory_version() as int),
    {
        &self.memory[self.memory.len() - 1]
    }

    /// Returns the formula of memory version `version`, if there is one.
    /// Earlier versions stay as they were when later ones are made.
    pub fn lookup_mem_version(&self, version: u64) -> (r: Option<&Array<'ctx>>)
        requires
            self.wf(),
        ensures
            match r {
                Some(mem) => {
                    &&& version <= self@.memory_version()
                    &&& mem_term(mem) == self@.memory[version as int]
                    &&& mem_context(mem) == self.context()
                    &&& *mem == self.memory_handle(version as int)
                },
                None => version > self@.memory_version(),
            },
    {
        if version < self.memory.len() as u64 {
            Some(&self.memory[version as usize])
        } else {
            None
        }
    }

    /// Binds `cval` to a formula that is known to have the sort `sort` in
    /// the environment's context, and logs the definition as `ssa_<n>`.
    ///
    /// Fails with `RedefinitionError`, and changes nothing, where `cval`
    /// is already bound.
    pub(crate) fn define_int(
        &mut self,
        cval: u32,
        val: BV<'ctx>,
        sort: Sort,
    ) -> (r: Result<(), TranslateError>)
        requires
            old(self).wf(),
            sort.wf(),
            width(bv_term(&val)) == sort.width(),
            bv_context(&val) == old(self).context(),
        ensures
            final(self).wf(),
            final(self).context() == old(self).context(),
            match r {
                Ok(()) => {
                    &&& old(self)@.define(cval, bv_term(&val), sort, true) == Ok::<Env, TranslateError>(final(self)@)
                    &&& final(self).handle(cval) == val
                    &&& forall|id: u32| id != cval ==> final(self).handle(id) == old(self).handle(id)
                    &&& forall|n: int| final(self).memory_handle(n) == old(self).memory_handle(n)
                },
                Err(e) => {
                    &&& old(self)@.define(cval, bv_term(&val), sort, true) == Err::<Env, TranslateError>(e)
                    &&& *final(self) == *old(self)
                },
            },
    {
        if self.defs.contains_key(&cval) {
            return Err(TranslateError::RedefinitionError(cval));
        }
        let num_defs: usize = self.log.len() - self.memory.len();
        let name = ssa_name(num_defs as u64);
        let text = bv_to_string(&val);
        let ghost term = bv_term(&val);
        self.log.push(Definition { name, text });
        self.defs.insert(cval, ValueBinding { formula: val, sort });
        proof {
            let model = old(self)@.with_value(cval, term, sort);
            assert(self@.values =~= model.values);
            assert(self@.memory =~= model.memory);
            assert(self@.log =~= model.log);
        }
        Ok(())
    }

    /// Binds `cval` to `val` at `sort` and logs the definition as
    /// `ssa_<n>`, where `n` values were bound before.
    ///
    /// Fails, and changes nothing: with `RedefinitionError` where `cval` is
    /// already bound; with `StructuralError` where `sort` is not well
    /// formed; with `TypeError` where `val` is not a formula of `sort.width()`
    /// bits in the environment's context.
    pub fn define(
        &mut self,
        cval: u32,
        val: BV<'ctx>,
        sort: Sort,
    ) -> (r: Result<(), TranslateError>)
        requires
            old(self).wf(),
        ensures
            final(self).wf(),
            final(self).context() == old(self).context(),
            match r {
                Ok(()) => {
                    &&& old(self)@.define(cval, bv_term(&val), sort, old(self).fits(&val, sort)) == Ok::<Env, TranslateError>(final(self)@)
                    &&& final(self).handle(cval) == val
                    &&& forall|id: u32| id != cval ==> final(self).handle(id) == old(self).handle(id)
                    &&& forall|n: int| final(self).memory_handle(n) == old(self).memory_handle(n)
                },
                Err(e) => {
                    &&& old(self)@.define(cval, bv_term(&val), sort, old(self).fits(&val, sort)) == Err::<Env, TranslateError>(e)
                    &&& *final(self) == *old(self)
                },
            },
    {
        if self.defs.contains_key(&cval) {
            return Err(TranslateError::RedefinitionError(cval));
        }
        let bits: u32 = match sort.bits() {
            Some(bits) => bits,
            None => {
                return Err(TranslateError::StructuralError);
            },
        };
        if !same_context(bv_get_ctx(&val), self.ctx) || bv_size(&val) != bits {
            return Err(TranslateError::TypeError);
        }
        self.define_int(cval, val, sort)
    }

    /// Makes `mem` the next memory version and logs it as `mem_<n>`.
    pub(crate) fn define_mem(&mut self, mem: Array<'ctx>)
        requires
            old(self).wf(),
            mem_context(&mem) == old(self).context(),
            self::addr_bits(mem_term(&mem)) == old(self)@.addr_bits,
            self::cell_bits(mem_term(&mem)) == old(self)@.cell_bits,
        ensures
            final(self).wf(),
            final(self).context() == old(self).context(),
            final(self)@ == old(self)@.with_memory(mem_term(&mem)),
            forall|id: u32| final(self).handle(id) == old(self).handle(id),
            forall|n: int| 0 <= n < old(self)@.memory.len() ==> final(self).memory_handle(n) == old(self).memory_handle(n),
            final(self).memory_handle(old(self)@.memory.len() as int) == mem,
    {
        let version: usize = self.memory.len();
        let name = mem_name(version as u64);
        let text = mem_to_string(&mem);
        let ghost term = mem_term(&mem);
        self.log.push(Definition { name, text });
        self.memory.push(mem);
        proof {
            let model = old(self)@.with_memory(term);
            assert(self@.values =~= model.values);
            assert(self@.memory =~= model.memory);
            assert(self@.log =~= model.log);
        }
    }
}

/// The array constant for memory version 0.
fn mem_fresh_named<'ctx>(ctx: &'ctx Context, addr_bits: u32, val_bits: u32) -> (mem: Array<'ctx>)
    requires
        1 <= addr_bits <= MAX_WIDTH,
        1 <= val_bits <= MAX_WIDTH,
    ensures
        mem_context(&mem) == *ctx,
        mem_term(&mem) is Memory,
        self::addr_bits(mem_term(&mem)) == addr_bits,
        self::cell_bits(mem_term(&mem)) == val_bits,
{
    proof {
        reveal_strlit("mem");
    }
    mem_fresh(ctx, "mem", addr_bits, val_bits)
}

} // verus!
