//! Runtime value representation at the boundary of this core: a closed
//! tagged union of primitive kinds, consumed as an opaque, copyable,
//! equality-comparable type. The constant pool requires exactly equality
//! and copy semantics of it. Floating-point values live outside this core.

use vstd::prelude::*;
use crate::types::TxInt;

verus! {

/// A runtime value of the language.
#[derive(Clone, Copy, PartialEq, Eq, Structural)]
pub enum Value {
    /// Absence marker, distinct from the language-level `Nil`.
    Unset,
    Nil,
    Bool(bool),
    Int(TxInt),
    Char(char),
    Object(usize),
}

} // verus!
