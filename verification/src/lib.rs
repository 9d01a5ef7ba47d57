//! Memory-management and bytecode-representation foundation of a small
//! dynamically-typed language's virtual machine: an allocation-tracking
//! counter, a growable buffer with an amortized growth policy, and a bytecode
//! chunk (instruction stream, deduplicated constant pool, run-length-encoded
//! line table).

pub mod allocator;
pub mod chunk;
pub mod dyn_array;
pub mod hash_map;
pub mod opcodes;
pub mod types;
pub mod value;
pub mod vm;
