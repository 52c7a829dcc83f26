//! Checks on sorts that every memory access must pass before any formula
//! is built.

use crate::error::TranslateError;
use crate::sort::Sort;
use vstd::prelude::*;

verus! {

/// An address has a well-formed scalar sort of exactly the configured
/// address width.
pub open spec fn address_sound(addr_bits: nat, addr_sort: Sort) -> bool {
    &&& addr_sort.wf()
    &&& addr_sort.scalar_shape()
    &&& addr_sort.width() == addr_bits
}

/// An access covers a positive whole number of memory cells.
pub open spec fn access_sound(cell_bits: nat, bits: nat) -> bool {
    &&& cell_bits >= 1
    &&& bits >= cell_bits
    &&& bits % cell_bits == 0
}

/// Checks that `addr_sort` can be the sort of an address in a memory with
/// addresses of `addr_bits` bits: a vector, or a scalar of another width,
/// is a type error.
pub fn check_address(addr_bits: u32, addr_sort: &Sort) -> (r: Result<(), TranslateError>)
    ensures
        match r {
            Ok(()) => address_sound(addr_bits as nat, *addr_sort),
            Err(e) => e == TranslateError::TypeError && !address_sound(addr_bits as nat, *addr_sort),
        },
{
    match addr_sort.bits() {
        Some(bits) => {
            if addr_sort.is_scalar() && bits == addr_bits {
                Ok(())
            } else {
                Err(TranslateError::TypeError)
            }
        },
        None => Err(TranslateError::TypeError),
    }
}

/// Checks that an access of `bits` bits covers whole cells of `cell_bits`
/// bits, at least one, and tells how many. Anything else is a type error.
pub fn check_access(cell_bits: u32, bits: u32) -> (r: Result<u32, TranslateError>)
    ensures
        match r {
            Ok(ncells) => {
                &&& access_sound(cell_bits as nat, bits as nat)
                &&& ncells == bits as nat / cell_bits as nat
                &&& ncells >= 1
                &&& ncells * cell_bits == bits
            },
            Err(e) => e == TranslateError::TypeError && !access_sound(cell_bits as nat, bits as nat),
        },
{
    if cell_bits == 0 || bits < cell_bits || bits % cell_bits != 0 {
        return Err(TranslateError::TypeError);
    }
    let ncells: u32 = bits / cell_bits;
    proof {
        assert(ncells >= 1 && ncells * cell_bits == bits) by (nonlinear_arith)
            requires
                ncells == bits / cell_bits,
                bits % cell_bits == 0,
                bits >= cell_bits,
                cell_bits >= 1,
        ;
    }
    Ok(ncells)
}

} // verus!
