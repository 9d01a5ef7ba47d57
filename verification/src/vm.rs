//! The virtual machine shell: it owns the allocator that every buffer and
//! chunk of one VM instance shares. The execution loop itself is outside
//! this core.

use vstd::prelude::*;
use crate::allocator::Alloc;

verus! {

/// Allocator type used by a VM instance.
pub type VmAlloc = Alloc;

pub struct VM {
    pub allocator: VmAlloc,
}

} // verus!
