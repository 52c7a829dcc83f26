//! The mathematical model of a symbolic environment: which values are
//! bound to which terms, the versions of memory, and the definition log.

use crate::error::TranslateError;
use crate::naming::{memory_name, value_name};
use crate::smt::{bv_text, mem_text};
use crate::sort::{Sort, MAX_WIDTH};
use crate::term::{addr_bits, cell_bits, width, Term};
use vstd::prelude::*;

verus! {

/// What a value is bound to: a term and the sort it was defined at.
pub struct Bound {
    pub term: Term,
    pub sort: Sort,
}

/// One line of the definition log: the generated name and the solver's
/// text of the formula.
pub struct Entry {
    pub name: Seq<char>,
    pub text: Seq<char>,
}

/// A symbolic environment.
///
/// `memory[n]` is memory version `n`; the last one is current. `log` holds
/// one entry for each binding ever made, values and memory versions
/// together, in the order in which they were made.
pub struct Env {
    pub addr_bits: nat,
    pub cell_bits: nat,
    pub values: Map<u32, Bound>,
    pub memory: Seq<Term>,
    pub log: Seq<Entry>,
}

impl Env {
    /// The environment right after construction: no value, and memory
    /// version 0 bound to `mem`.
    pub open spec fn fresh(addr_bits: nat, cell_bits: nat, mem: Term) -> Env {
        Env {
            addr_bits,
            cell_bits,
            values: Map::empty(),
            memory: seq![mem],
            log: seq![Entry { name: memory_name(0), text: mem_text(mem) }],
        }
    }

    /// Every value's term has the width of its sort, every memory version
    /// has the configured widths, and version 0 exists.
    pub open spec fn wf(self) -> bool {
        &&& 1 <= self.addr_bits <= MAX_WIDTH
        &&& 1 <= self.cell_bits <= MAX_WIDTH
        &&& 1 <= self.memory.len() <= self.log.len()
        &&& forall|n: int|
            0 <= n < self.memory.len() ==> {
                &&& addr_bits(#[trigger] self.memory[n]) == self.addr_bits
                &&& cell_bits(self.memory[n]) == self.cell_bits
            }
        &&& forall|id: u32| #[trigger]
            self.values.contains_key(id) ==> {
                &&& self.values[id].sort.wf()
                &&& width(self.values[id].term) == self.values[id].sort.width()
            }
    }

    /// How many values have been bound.
    pub open spec fn value_count(self) -> nat {
        (self.log.len() - self.memory.len()) as nat
    }

    /// The number of the current memory version: how many stores were
    /// made.
    pub open spec fn memory_version(self) -> nat {
        (self.memory.len() - 1) as nat
    }

    /// The term of the current memory version.
    pub open spec fn current_memory(self) -> Term {
        self.memory.last()
    }

    /// The environment with `id` bound to `term` at `sort`, logged under
    /// the next value name.
    pub open spec fn with_value(self, id: u32, term: Term, sort: Sort) -> Env {
        Env {
            values: self.values.insert(id, Bound { term, sort }),
            log: self.log.push(Entry { name: value_name(self.value_count()), text: bv_text(term) }),
            ..self
        }
    }

    /// The environment with `term` as the next memory version, logged
    /// under that version's name.
    pub open spec fn with_memory(self, term: Term) -> Env {
        Env {
            memory: self.memory.push(term),
            log: self.log.push(Entry { name: memory_name(self.memory.len()), text: mem_text(term) }),
            ..self
        }
    }

    /// What defining `id` as `term` at `sort` gives. `fits` says whether
    /// the formula has that sort in the environment's context.
    ///
    /// A bound `id` is a redefinition, whatever else is wrong; a sort that
    /// is not well formed is malformed; a formula of another sort is a type
    /// error.
    pub open spec fn define(
        self,
        id: u32,
        term: Term,
        sort: Sort,
        fits: bool,
    ) -> Result<Env, TranslateError> {
        if self.values.contains_key(id) {
            Err(TranslateError::RedefinitionError(id))
        } else if !sort.wf() {
            Err(TranslateError::StructuralError)
        } else if !fits {
            Err(TranslateError::TypeError)
        } else {
            Ok(self.with_value(id, term, sort))
        }
    }

    /// Defining a value keeps the environment well formed, as long as the
    /// term has the width of the sort.
    pub proof fn define_keeps_wf(self, id: u32, term: Term, sort: Sort)
        requires
            self.wf(),
            self.define(id, term, sort, true) is Ok,
            width(term) == sort.width(),
        ensures
            self.define(id, term, sort, true)->Ok_0.wf(),
    {
    }

    /// Looking a value up after defining it gives the term it was defined
    /// as, with or without the sort.
    pub proof fn lookup_after_define(self, id: u32, term: Term, sort: Sort, fits: bool)
        requires
            self.define(id, term, sort, fits) is Ok,
        ensures
            self.define(id, term, sort, fits)->Ok_0.lookup(id, Some(sort)) == Ok::<Term, TranslateError>(term),
            self.define(id, term, sort, fits)->Ok_0.lookup(id, None) == Ok::<Term, TranslateError>(term),
    {
    }

    /// Defining a value leaves every other value as it was.
    pub proof fn define_keeps_others(
        self,
        id: u32,
        term: Term,
        sort: Sort,
        fits: bool,
        other: u32,
        expected: Option<Sort>,
    )
        requires
            self.define(id, term, sort, fits) is Ok,
            other != id,
        ensures
            self.define(id, term, sort, fits)->Ok_0.lookup(other, expected) == self.lookup(other, expected),
    {
    }

    /// A value can be defined once: a second definition of the same value
    /// is a redefinition, whatever it would bind.
    pub proof fn define_twice(
        self,
        id: u32,
        first: Term,
        first_sort: Sort,
        first_fits: bool,
        second: Term,
        second_sort: Sort,
        second_fits: bool,
    )
        requires
            self.define(id, first, first_sort, first_fits) is Ok,
        ensures
            self.define(id, first, first_sort, first_fits)->Ok_0.define(id, second, second_sort, second_fits)
                == Err::<Env, TranslateError>(TranslateError::RedefinitionError(id)),
    {
    }

    /// Looking up a value that was never defined fails as undefined.
    pub proof fn lookup_of_unbound(self, id: u32, expected: Option<Sort>)
        requires
            !self.values.contains_key(id),
        ensures
            self.lookup(id, expected) == Err::<Term, TranslateError>(TranslateError::UndefinedValueError(id)),
    {
    }

    /// In a fresh environment no value is defined.
    pub proof fn fresh_has_no_values(
        addr_bits: nat,
        cell_bits: nat,
        mem: Term,
        id: u32,
        expected: Option<Sort>,
    )
        ensures
            Env::fresh(addr_bits, cell_bits, mem).lookup(id, expected) == Err::<Term, TranslateError>(
                TranslateError::UndefinedValueError(id),
            ),
    {
    }

    /// What looking `id` up gives: its term, an error for an unbound `id`,
    /// or an error where `expected` is given and is not the sort `id` was
    /// defined at.
    pub open spec fn lookup(self, id: u32, expected: Option<Sort>) -> Result<Term, TranslateError> {
        if !self.values.contains_key(id) {
            Err(TranslateError::UndefinedValueError(id))
        } else if expected is Some && expected->0 != self.values[id].sort {
            Err(TranslateError::TypeError)
        } else {
            Ok(self.values[id].term)
        }
    }
}

} // verus!
