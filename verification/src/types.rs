//! Primitive type choices of the virtual machine.

use vstd::prelude::*;

verus! {

/// Integer type of the language's runtime values.
pub type TxInt = i64;

} // verus!
