use tx_runtime::allocator::Alloc;

#[test]
fn counter_tracks_requested_sizes() {
    let mut a = Alloc::new();
    assert_eq!(a.allocated_bytes(), 0);
    a.allocate(100);
    assert_eq!(a.allocated_bytes(), 100);
    a.grow(100, 250);
    assert_eq!(a.allocated_bytes(), 250);
    a.shrink(250, 50);
    assert_eq!(a.allocated_bytes(), 50);
    a.deallocate(50);
    assert_eq!(a.allocated_bytes(), 0);
}

#[test]
fn counter_wraps_instead_of_panicking() {
    let mut a = Alloc::new();
    a.deallocate(1);
    assert_eq!(a.allocated_bytes(), usize::MAX);
    a.allocate(2);
    assert_eq!(a.allocated_bytes(), 1);
}

#[test]
fn zeroed_variants_count_like_plain_ones() {
    let mut a = Alloc::new();
    a.allocate_zeroed(64);
    assert_eq!(a.allocated_bytes(), 64);
    a.grow_zeroed(64, 128);
    assert_eq!(a.allocated_bytes(), 128);
    a.deallocate(128);
    assert_eq!(a.allocated_bytes(), 0);
}
