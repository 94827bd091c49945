//! A memory-request description: a size in bytes and a power-of-two
//! alignment, mirroring the invariants a well-formed request carries.

use vstd::prelude::*;

verus! {

use crate::align::{align_up_checked, spec_align_up, is_pow2};

/// The largest size a request may round up to; keeps every address
/// computation on a request representable.
pub const MAX_REQUEST_SIZE: usize = usize::MAX / 2;

#[derive(Clone, Copy)]
pub struct Layout {
    pub size: usize,
    pub align: usize,
}

impl Layout {
    /// A well-formed request: the alignment is a power of two and the
    /// size, rounded up to that alignment, stays representable.
    pub open spec fn wf(self) -> bool {
        &&& is_pow2(self.align as int)
        &&& spec_align_up(self.size as int, self.align as int) <= MAX_REQUEST_SIZE
    }

    /// Builds a request description, rejecting an alignment that is not
    /// a power of two and a size that would round out of range.
    pub fn from_size_align(size: usize, align: usize) -> (r: Option<Layout>)
        ensures
            match r {
                Some(l) => l.size == size && l.align == align && l.wf(),
                None => !(Layout { size, align }).wf(),
            },
    {
        if !is_power_of_two(align) {
            return None;
        }
        match align_up_checked(size, align) {
            Some(rounded) if rounded <= MAX_REQUEST_SIZE => Some(Layout { size, align }),
            _ => None,
        }
    }
}

/// Decides whether `n` is a power of two.
pub fn is_power_of_two(n: usize) -> (r: bool)
    ensures
        r == is_pow2(n as int),
    decreases n,
{
    if n == 0 {
        false
    } else if n == 1 {
        true
    } else if n % 2 == 1 {
        false
    } else {
        is_power_of_two(n / 2)
    }
}

} // verus!
