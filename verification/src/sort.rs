//! Value types: a number of lanes, each a fixed number of bits wide.

use vstd::prelude::*;

verus! {

/// The widest sort, in bits. The solver keeps tables with one entry for
/// every width up to the widest in use, so widths cannot be arbitrary.
pub const MAX_WIDTH: u32 = 65535;

/// The type of an SSA value: `lanes` lanes of `lane_bits` bits each.
///
/// A scalar is a sort with exactly one lane. The total width of a sort is
/// `lanes * lane_bits`; a sort is well formed when both numbers are
/// positive and the total width is at most [`MAX_WIDTH`].
#[derive(Clone, Copy, Debug, PartialEq, Eq, Structural, Hash)]
pub struct Sort {
    pub lanes: u32,
    pub lane_bits: u32,
}

impl Sort {
    /// Both dimensions are positive and the total width is at most
    /// `MAX_WIDTH`.
    pub open spec fn wf(self) -> bool {
        &&& self.lanes >= 1
        &&& self.lane_bits >= 1
        &&& self.lanes * self.lane_bits <= MAX_WIDTH
    }

    /// Total width in bits.
    pub open spec fn width(self) -> nat {
        (self.lanes * self.lane_bits) as nat
    }

    /// The sort has a single lane.
    pub open spec fn scalar_shape(self) -> bool {
        self.lanes == 1
    }

    /// The scalar sort of the given width.
    pub fn scalar(bits: u32) -> (s: Sort)
        ensures
            s == (Sort { lanes: 1, lane_bits: bits }),
    {
        Sort { lanes: 1, lane_bits: bits }
    }

    /// The vector sort with `lanes` lanes of `lane_bits` bits.
    pub fn vector(lanes: u32, lane_bits: u32) -> (s: Sort)
        ensures
            s == (Sort { lanes, lane_bits }),
    {
        Sort { lanes, lane_bits }
    }

    /// Total width in bits, or `None` for a sort that is not well formed.
    pub fn bits(&self) -> (r: Option<u32>)
        ensures
            self.wf() ==> r == Some(self.width() as u32) && self.width() >= 1,
            !self.wf() ==> r.is_none(),
    {
        if self.lanes == 0 || self.lane_bits == 0 {
            return None;
        }
        proof {
            assert(self.lanes * self.lane_bits >= 1) by (nonlinear_arith)
                requires
                    self.lanes >= 1,
                    self.lane_bits >= 1,
            ;
        }
        match self.lanes.checked_mul(self.lane_bits) {
            Some(total) => {
                if total <= MAX_WIDTH {
                    Some(total)
                } else {
                    None
                }
            },
            None => None,
        }
    }

    /// Number of lanes.
    pub fn lane_count(&self) -> (n: u32)
        ensures
            n == self.lanes,
    {
        self.lanes
    }

    /// Width of one lane in bits.
    pub fn lane_width(&self) -> (n: u32)
        ensures
            n == self.lane_bits,
    {
        self.lane_bits
    }

    /// Whether the sort has exactly one lane.
    pub fn is_scalar(&self) -> (b: bool)
        ensures
            b == self.scalar_shape(),
    {
        self.lanes == 1
    }

    /// Whether two sorts are the same.
    pub fn same_as(&self, other: &Sort) -> (b: bool)
        ensures
            b == (*self == *other),
    {
        self.lanes == other.lanes && self.lane_bits == other.lane_bits
    }
}

} // verus!
