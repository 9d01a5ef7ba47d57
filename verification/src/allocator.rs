//! Instrumented allocator: a running net byte counter over an underlying
//! allocation strategy.
//!
//! The counter is adjusted *before* the underlying operation would be issued,
//! so it reflects the requested size, and it uses wrapping arithmetic so that
//! a shrink disguised as a "grow" with a smaller new size does not panic.
//! The counter is diagnostic telemetry, not a control input.

use vstd::prelude::*;

verus! {

/// Modular successor arithmetic of the byte counter: `c + n`, wrapped at
/// `usize::MAX + 1`.
pub open spec fn counter_plus(c: usize, n: usize) -> usize {
    if c + n > usize::MAX {
        (c + n - (usize::MAX + 1)) as usize
    } else {
        (c + n) as usize
    }
}

/// Modular subtraction of the byte counter: `c - n`, wrapped at
/// `usize::MAX + 1`.
pub open spec fn counter_minus(c: usize, n: usize) -> usize {
    if c >= n {
        (c - n) as usize
    } else {
        (c + (usize::MAX - n) + 1) as usize
    }
}

/// Two successive counter additions amount to adding the sum.
pub proof fn lemma_counter_plus_chain(c: usize, a: usize, b: usize)
    requires
        a + b <= usize::MAX,
    ensures
        counter_plus(counter_plus(c, a), b) == counter_plus(c, (a + b) as usize),
{
}

/// Tracks the net number of bytes handed out by the allocation strategy it
/// stands in front of. It owns no memory itself: it is purely an accounting
/// proxy, and every operation below only moves the counter.
pub struct Alloc {
    allocated_bytes: usize,
}

impl Alloc {
    /// Current value of the byte counter.
    pub closed spec fn spec_allocated_bytes(&self) -> usize {
        self.allocated_bytes
    }

    pub fn new() -> (r: Alloc)
        ensures
            r.spec_allocated_bytes() == 0,
    {
        Alloc { allocated_bytes: 0 }
    }

    /// Read accessor for the counter: a diagnostic snapshot.
    pub fn allocated_bytes(&self) -> (r: usize)
        ensures
            r == self.spec_allocated_bytes(),
    {
        self.allocated_bytes
    }

    /// Account for an allocation of `size` bytes.
    pub fn allocate(&mut self, size: usize)
        ensures
            final(self).spec_allocated_bytes() == counter_plus(
                old(self).spec_allocated_bytes(),
                size,
            ),
    {
        self.allocated_bytes = self.allocated_bytes.wrapping_add(size);
    }

    /// Account for a zero-initialized allocation of `size` bytes.
    pub fn allocate_zeroed(&mut self, size: usize)
        ensures
            final(self).spec_allocated_bytes() == counter_plus(
                old(self).spec_allocated_bytes(),
                size,
            ),
    {
        self.allocated_bytes = self.allocated_bytes.wrapping_add(size);
    }

    /// Account for freeing a block of `size` bytes.
    pub fn deallocate(&mut self, size: usize)
        ensures
            final(self).spec_allocated_bytes() == counter_minus(
                old(self).spec_allocated_bytes(),
                size,
            ),
    {
        self.allocated_bytes = self.allocated_bytes.wrapping_sub(size);
    }

    /// Account for growing a block from `old_size` to `new_size` bytes: the
    /// counter moves by `new_size - old_size`, wrapping.
    pub fn grow(&mut self, old_size: usize, new_size: usize)
        ensures
            final(self).spec_allocated_bytes() == counter_plus(
                old(self).spec_allocated_bytes(),
                counter_minus(new_size, old_size),
            ),
    {
        self.allocated_bytes = self.allocated_bytes.wrapping_add(new_size.wrapping_sub(old_size));
    }

    /// Account for growing a block with zero-initialized tail.
    pub fn grow_zeroed(&mut self, old_size: usize, new_size: usize)
        ensures
            final(self).spec_allocated_bytes() == counter_plus(
                old(self).spec_allocated_bytes(),
                counter_minus(new_size, old_size),
            ),
    {
        self.allocated_bytes = self.allocated_bytes.wrapping_add(new_size.wrapping_sub(old_size));
    }

    /// Account for shrinking a block from `old_size` to `new_size` bytes: the
    /// counter moves by `-(old_size - new_size)`, wrapping.
    pub fn shrink(&mut self, old_size: usize, new_size: usize)
        ensures
            final(self).spec_allocated_bytes() == counter_minus(
                old(self).spec_allocated_bytes(),
                counter_minus(old_size, new_size),
            ),
    {
        self.allocated_bytes = self.allocated_bytes.wrapping_sub(old_size.wrapping_sub(new_size));
    }
}

} // verus!
