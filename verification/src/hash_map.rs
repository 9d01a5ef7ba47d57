//! Open-addressing hash map skeleton: the key/value slot layout and its
//! load-factor constant only. The probing, lookup and resize algorithms are
//! not part of this core and are deliberately left undefined.

use vstd::prelude::*;

verus! {

/// Capability of a key type: it must reserve a distinguished value marking
/// an empty slot.
pub trait HashMapKey<T> {
    /// The distinguished key stored in empty slots.
    fn empty_key() -> T;
}

/// Capability of a value type: it must reserve distinguished values marking
/// an empty slot and a tombstone (a deleted slot).
pub trait HashMapValue<T> {
    /// The distinguished value stored in empty slots.
    fn empty_value() -> T;

    /// The distinguished value left behind by a deletion.
    fn tombstone_value() -> T;
}

/// One key/value slot of the open-addressing table.
pub struct Entry<KeyT, ValueT> {
    key: KeyT,
    value: ValueT,
}

/// Open-addressing table: a slot array and an occupancy count that
/// includes tombstones. No operations are defined on it here.
pub struct HashMap<KeyT, ValueT> where KeyT: HashMapKey<KeyT>, ValueT: HashMapValue<ValueT> {
    entries: Vec<Entry<KeyT, ValueT>>,
    len: usize,
}

/// Highest tolerated ratio of occupied slots (tombstones included) to
/// capacity, in percent.
pub(crate) const MAX_LOAD_PERCENT: usize = 75;

} // verus!
