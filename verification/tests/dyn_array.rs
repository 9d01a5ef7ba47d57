use tx_runtime::allocator::Alloc;
use tx_runtime::dyn_array::DynArray;

#[test]
fn reserve_is_idempotent() {
    let mut alloc = Alloc::new();
    let mut arr: DynArray<u64> = DynArray::new(&alloc);
    arr.reserve(&mut alloc, 10);
    let cap = arr.cap();
    let bytes = alloc.allocated_bytes();
    assert!(cap >= 10);
    arr.reserve(&mut alloc, 10);
    assert_eq!(arr.cap(), cap);
    assert_eq!(alloc.allocated_bytes(), bytes);
    arr.reserve(&mut alloc, 5);
    assert_eq!(arr.cap(), cap);
    assert_eq!(alloc.allocated_bytes(), bytes);
    arr.destroy(&mut alloc);
}

#[test]
fn growth_is_monotone_and_doubles_from_minimum() {
    let mut alloc = Alloc::new();
    let mut arr: DynArray<u8> = DynArray::new(&alloc);
    assert_eq!(arr.cap(), 0);
    let mut prev_cap = 0;
    for i in 0..9u8 {
        arr.push(&mut alloc, i);
        assert!(arr.cap() >= prev_cap);
        assert!(arr.cap() >= arr.len());
        prev_cap = arr.cap();
    }
    // single-byte elements start at 8 and double when full
    assert_eq!(arr.cap(), 16);
    assert_eq!(arr.len(), 9);
    // a u64 buffer starts at the moderate-size minimum of 4
    let mut wide: DynArray<u64> = DynArray::new(&alloc);
    wide.push(&mut alloc, 1);
    assert_eq!(wide.cap(), 4);
    arr.destroy(&mut alloc);
    wide.destroy(&mut alloc);
}

#[test]
fn push_pop_inverse() {
    let mut alloc = Alloc::new();
    let mut arr: DynArray<u64> = DynArray::new(&alloc);
    arr.push(&mut alloc, 7);
    let len_before = arr.len();
    arr.push(&mut alloc, 42);
    assert_eq!(arr.pop(), Some(42));
    assert_eq!(arr.len(), len_before);
    assert_eq!(arr.pop(), Some(7));
    assert_eq!(arr.pop(), None);
    arr.destroy(&mut alloc);
}

#[test]
fn insert_remove_inverse() {
    let mut alloc = Alloc::new();
    let mut arr: DynArray<u64> = DynArray::new(&alloc);
    arr.push(&mut alloc, 1);
    arr.push(&mut alloc, 2);
    arr.push(&mut alloc, 3);
    arr.insert(&mut alloc, 1, 9);
    assert_eq!(*arr.get(0), 1);
    assert_eq!(*arr.get(1), 9);
    assert_eq!(*arr.get(2), 2);
    assert_eq!(*arr.get(3), 3);
    assert_eq!(arr.remove(1), 9);
    assert_eq!(arr.len(), 3);
    assert_eq!(*arr.get(0), 1);
    assert_eq!(*arr.get(1), 2);
    assert_eq!(*arr.get(2), 3);
    arr.destroy(&mut alloc);
}

#[test]
fn insert_at_end_and_remove_first() {
    let mut alloc = Alloc::new();
    let mut arr: DynArray<u64> = DynArray::new(&alloc);
    arr.insert(&mut alloc, 0, 5);
    arr.insert(&mut alloc, 1, 6);
    assert_eq!(arr.remove(0), 5);
    assert_eq!(arr.remove(0), 6);
    assert_eq!(arr.len(), 0);
    arr.destroy(&mut alloc);
}

#[test]
fn zero_sized_elements_use_the_sentinel() {
    let mut alloc = Alloc::new();
    let mut arr: DynArray<()> = DynArray::new(&alloc);
    assert_eq!(arr.cap(), usize::MAX);
    for _ in 0..1000 {
        arr.push(&mut alloc, ());
    }
    assert_eq!(arr.len(), 1000);
    assert_eq!(arr.cap(), usize::MAX);
    // no real allocation ever happens for zero-sized elements
    assert_eq!(alloc.allocated_bytes(), 0);
    let mut iter = arr.into_iter();
    let mut produced = 0;
    while let Some(()) = iter.next() {
        produced += 1;
    }
    assert_eq!(produced, 1000);
    iter.destroy(&mut alloc);
    assert_eq!(alloc.allocated_bytes(), 0);
}

#[test]
fn resize_grows_with_fill_and_shrinks() {
    let mut alloc = Alloc::new();
    let mut arr: DynArray<u8> = DynArray::new(&alloc);
    arr.push(&mut alloc, 1);
    arr.resize(&mut alloc, 4, 7);
    assert_eq!(arr.len(), 4);
    assert_eq!(*arr.get(0), 1);
    assert_eq!(*arr.get(1), 7);
    assert_eq!(*arr.get(2), 7);
    assert_eq!(*arr.get(3), 7);
    arr.resize(&mut alloc, 2, 0);
    assert_eq!(arr.len(), 2);
    assert_eq!(*arr.get(0), 1);
    assert_eq!(*arr.get(1), 7);
    arr.destroy(&mut alloc);
}

#[test]
fn consuming_iteration_goes_both_ways() {
    let mut alloc = Alloc::new();
    let mut arr: DynArray<u64> = DynArray::new(&alloc);
    arr.push(&mut alloc, 1);
    arr.push(&mut alloc, 2);
    arr.push(&mut alloc, 3);
    let mut iter = arr.into_iter();
    assert_eq!(iter.size_hint(), (3, Some(3)));
    assert_eq!(iter.next(), Some(1));
    assert_eq!(iter.next_back(), Some(3));
    assert_eq!(iter.size_hint(), (1, Some(1)));
    assert_eq!(iter.next(), Some(2));
    assert_eq!(iter.next(), None);
    assert_eq!(iter.next_back(), None);
    iter.destroy(&mut alloc);
    assert_eq!(alloc.allocated_bytes(), 0);
}

#[test]
fn partial_iteration_then_destroy_releases_everything() {
    let mut alloc = Alloc::new();
    let mut arr: DynArray<u64> = DynArray::new(&alloc);
    for i in 0..10 {
        arr.push(&mut alloc, i);
    }
    let mut iter = arr.into_iter();
    assert_eq!(iter.next(), Some(0));
    assert_eq!(iter.next(), Some(1));
    iter.destroy(&mut alloc);
    assert_eq!(alloc.allocated_bytes(), 0);
}

#[test]
fn drain_empties_but_keeps_capacity() {
    let mut alloc = Alloc::new();
    let mut arr: DynArray<u64> = DynArray::new(&alloc);
    arr.push(&mut alloc, 1);
    arr.push(&mut alloc, 2);
    arr.push(&mut alloc, 3);
    let cap = arr.cap();
    let mut drain = arr.drain();
    assert_eq!(arr.len(), 0);
    assert_eq!(arr.cap(), cap);
    assert_eq!(drain.size_hint(), (3, Some(3)));
    assert_eq!(drain.next(), Some(1));
    assert_eq!(drain.next_back(), Some(3));
    assert_eq!(drain.next(), Some(2));
    assert_eq!(drain.next(), None);
    arr.destroy(&mut alloc);
    assert_eq!(alloc.allocated_bytes(), 0);
}

#[test]
fn destroy_returns_counter_to_zero_after_mixed_operations() {
    let mut alloc = Alloc::new();
    let mut arr: DynArray<u64> = DynArray::new(&alloc);
    for i in 0..100 {
        arr.push(&mut alloc, i);
    }
    arr.insert(&mut alloc, 50, 999);
    assert_eq!(arr.remove(0), 0);
    assert_eq!(arr.pop(), Some(99));
    arr.resize(&mut alloc, 200, 3);
    arr.resize(&mut alloc, 10, 0);
    assert!(alloc.allocated_bytes() > 0);
    arr.destroy(&mut alloc);
    assert_eq!(alloc.allocated_bytes(), 0);
    assert_eq!(arr.len(), 0);
    assert_eq!(arr.cap(), 0);
}
