//! Growable buffer primitive: an untyped capacity-tracking core
//! (`RawDynArray`) with an amortized growth policy and allocator-explicit
//! operations, and a typed length-tracked sequence over it (`DynArray`) with
//! push/pop/insert/remove/resize, consuming iteration and draining.
//!
//! Capacity is counted in elements, not bytes. A buffer of a zero-sized
//! element type holds the `usize::MAX` capacity sentinel and never touches
//! the allocator. Capacity never shrinks and is never released implicitly:
//! `destroy` is the one operation that returns memory, and the owner must
//! call it.

use vstd::prelude::*;
use vstd::layout::size_of;
use crate::allocator::{Alloc, counter_plus, counter_minus};

verus! {

/// Smallest capacity a first real allocation jumps to: 8 for single-byte
/// elements (heap allocators round tiny requests up anyway), 4 for
/// moderate-sized elements (at most 1 KiB), 1 otherwise (avoid overshooting
/// for very large elements).
pub open spec fn min_non_zero_cap(elem_size: int) -> int {
    if elem_size == 1 {
        8
    } else if elem_size <= 1024 {
        4
    } else {
        1
    }
}

/// Capacity the slow path grows to: the largest of doubling, the required
/// element count, and the minimum first allocation.
pub open spec fn grown_cap(cap: int, len: int, additional: int, elem_size: int) -> int {
    let required = len + additional;
    let doubled = 2 * cap;
    let amortized = if doubled > required {
        doubled
    } else {
        required
    };
    if min_non_zero_cap(elem_size) > amortized {
        min_non_zero_cap(elem_size)
    } else {
        amortized
    }
}

/// Capacity after `reserve(len, additional)`: unchanged on the fast path
/// (already sufficient), else the grown capacity.
pub open spec fn reserved_cap(cap: int, len: int, additional: int, elem_size: int) -> int {
    if additional <= cap - len {
        cap
    } else {
        grown_cap(cap, len, additional, elem_size)
    }
}

/// The inputs on which `reserve` completes rather than terminating the
/// process: either the fast path applies, or growth is meaningful
/// (non-zero-sized elements) and the grown byte layout stays within the
/// platform's signed-size limit.
pub open spec fn can_reserve(cap: int, len: int, additional: int, elem_size: int) -> bool {
    if additional <= cap - len {
        true
    } else {
        elem_size > 0 && grown_cap(cap, len, additional, elem_size) * elem_size <= isize::MAX as int
    }
}

/// `usize::MAX == 2 * isize::MAX + 1`, from the platform layout facts.
pub proof fn lemma_usize_isize_max()
    ensures
        usize::MAX as int == 2 * (isize::MAX as int) + 1,
{
    broadcast use vstd::layout::layout_of_primitives;

    vstd::layout::unsigned_int_max_values();
    vstd::layout::signed_int_min_max_values();
}

/// Untyped-capacity-tracking core of the growable buffer. Owns a capacity
/// (element count); the memory handle itself is left to the allocation
/// strategy behind [`Alloc`]. Every operation must be issued against the
/// same allocator instance the buffer was created with: that is a safety
/// precondition of the original design, not re-checked here.
pub struct RawDynArray<T> {
    cap: usize,
    marker: core::marker::PhantomData<T>,
}

impl<T> RawDynArray<T> {
    /// Current capacity, in elements.
    pub closed spec fn spec_cap(&self) -> usize {
        self.cap
    }

    /// Bytes currently held from the allocator: zero for zero-sized element
    /// types (the capacity sentinel is not an allocation).
    pub open spec fn cap_bytes(&self) -> int {
        if size_of::<T>() == 0 {
            0
        } else {
            self.spec_cap() * size_of::<T>()
        }
    }

    /// Capacity is the `usize::MAX` sentinel exactly for zero-sized element
    /// types; otherwise the owned byte block stays within the platform's
    /// signed-size limit.
    pub open spec fn wf(&self) -> bool {
        if size_of::<T>() == 0 {
            self.spec_cap() == usize::MAX
        } else {
            self.spec_cap() * size_of::<T>() <= isize::MAX as int
        }
    }

    pub fn new(_alloc: &Alloc) -> (r: Self)
        ensures
            r.wf(),
            r.spec_cap() == if size_of::<T>() == 0 {
                usize::MAX as int
            } else {
                0
            },
    {
        let r = RawDynArray {
            cap: if core::mem::size_of::<T>() == 0 {
                usize::MAX
            } else {
                0
            },
            marker: core::marker::PhantomData,
        };
        proof {
            assert(r.wf()) by {
                if size_of::<T>() != 0 {
                    assert(0 * size_of::<T>() == 0) by (nonlinear_arith);
                }
            }
        }
        r
    }

    /// Current capacity, in elements.
    pub fn cap(&self) -> (r: usize)
        ensures
            r == self.spec_cap(),
    {
        self.cap
    }

    /// Exec mirror of [`min_non_zero_cap`].
    fn min_non_zero_cap_for(elem_size: usize) -> (r: usize)
        ensures
            r as int == min_non_zero_cap(elem_size as int),
    {
        if elem_size == 1 {
            8
        } else if elem_size <= 1024 {
            4
        } else {
            1
        }
    }

    /// Ensure capacity is at least `len + additional`. The fast path is a
    /// single subtraction-and-compare; the slow path grows amortized.
    /// On the slow path the allocator's counter moves by exactly the byte
    /// growth, so a buffer whose allocations are the counter's only
    /// contents keeps the counter equal to its own byte footprint.
    pub fn reserve(&mut self, alloc: &mut Alloc, len: usize, additional: usize)
        requires
            old(self).wf(),
            len <= old(self).spec_cap(),
            can_reserve(
                old(self).spec_cap() as int,
                len as int,
                additional as int,
                size_of::<T>() as int,
            ),
        ensures
            final(self).wf(),
            final(self).spec_cap() as int == reserved_cap(
                old(self).spec_cap() as int,
                len as int,
                additional as int,
                size_of::<T>() as int,
            ),
            len + additional <= final(self).spec_cap() as int,
            final(self).cap_bytes() >= old(self).cap_bytes(),
            final(alloc).spec_allocated_bytes() == counter_plus(
                old(alloc).spec_allocated_bytes(),
                (final(self).cap_bytes() - old(self).cap_bytes()) as usize,
            ),
            old(alloc).spec_allocated_bytes() == old(self).cap_bytes()
                ==> final(alloc).spec_allocated_bytes() == final(self).cap_bytes(),
    {
        if additional > self.cap - len {
            self.grow(alloc, len, additional);
        }
    }

    /// Slow path: compute the grown capacity and move the allocation.
    /// Reaching this with a zero-sized element type would mean the buffer is
    /// overfull past the sentinel ("capacity overflow", fatal), so the
    /// precondition excludes it, as it excludes layouts past the platform's
    /// signed-size limit ("allocation too large", fatal).
    fn grow(&mut self, alloc: &mut Alloc, len: usize, additional: usize)
        requires
            old(self).wf(),
            size_of::<T>() != 0,
            grown_cap(
                old(self).spec_cap() as int,
                len as int,
                additional as int,
                size_of::<T>() as int,
            ) * size_of::<T>() <= isize::MAX as int,
        ensures
            final(self).wf(),
            final(self).spec_cap() as int == grown_cap(
                old(self).spec_cap() as int,
                len as int,
                additional as int,
                size_of::<T>() as int,
            ),
            final(self).cap_bytes() >= old(self).cap_bytes(),
            final(alloc).spec_allocated_bytes() == counter_plus(
                old(alloc).spec_allocated_bytes(),
                (final(self).cap_bytes() - old(self).cap_bytes()) as usize,
            ),
    {
        let es = core::mem::size_of::<T>();
        let ghost g_new_cap = grown_cap(
            self.spec_cap() as int,
            len as int,
            additional as int,
            size_of::<T>() as int,
        );
        proof {
            lemma_usize_isize_max();
            // The grown capacity fits in a usize because its byte layout
            // fits the signed-size limit and elements are at least a byte.
            assert(g_new_cap <= g_new_cap * size_of::<T>()) by (nonlinear_arith)
                requires
                    size_of::<T>() >= 1,
                    g_new_cap >= 0,
            ;
            // The current capacity fits the signed-size limit on its own.
            assert(self.spec_cap() as int <= self.spec_cap() * size_of::<T>())
                by (nonlinear_arith)
                requires
                    size_of::<T>() >= 1,
                    self.spec_cap() >= 0,
            ;
        }
        let required_cap = len + additional;
        let doubled = 2 * self.cap;
        let mut new_cap = if doubled > required_cap {
            doubled
        } else {
            required_cap
        };
        let mnzc = Self::min_non_zero_cap_for(es);
        if mnzc > new_cap {
            new_cap = mnzc;
        }
        let new_bytes = new_cap * es;
        proof {
            // Byte footprint only grows: the grown capacity dominates the
            // old one, and multiplying by the element size keeps the order.
            assert(self.spec_cap() * size_of::<T>() <= new_cap * size_of::<T>())
                by (nonlinear_arith)
                requires
                    self.spec_cap() <= new_cap,
                    size_of::<T>() >= 0,
            ;
        }
        if self.cap == 0 {
            proof {
                assert(0 * size_of::<T>() == 0) by (nonlinear_arith);
            }
            alloc.allocate(new_bytes);
        } else {
            let old_bytes = self.cap * es;
            alloc.grow(old_bytes, new_bytes);
        }
        self.cap = new_cap;
    }

    /// Release the owned memory, if any, and reset the capacity: after this
    /// the buffer holds no allocation. The typed layer is responsible for
    /// the contained elements; this frees only the block. If the allocator's
    /// counter held exactly this buffer's footprint, it returns to zero.
    pub fn destroy(&mut self, alloc: &mut Alloc)
        requires
            old(self).wf(),
        ensures
            final(self).wf(),
            final(self).cap_bytes() == 0,
            size_of::<T>() != 0 ==> final(self).spec_cap() == 0,
            final(alloc).spec_allocated_bytes() == counter_minus(
                old(alloc).spec_allocated_bytes(),
                old(self).cap_bytes() as usize,
            ),
            old(alloc).spec_allocated_bytes() == old(self).cap_bytes()
                ==> final(alloc).spec_allocated_bytes() == 0,
    {
        let es = core::mem::size_of::<T>();
        if self.cap != 0 && es != 0 {
            let bytes = self.cap * es;
            alloc.deallocate(bytes);
        }
        if es != 0 {
            self.cap = 0;
            proof {
                assert(0 * size_of::<T>() == 0) by (nonlinear_arith);
            }
        }
    }
}

/// Typed growable buffer: a length-tracked contiguous sequence over a
/// [`RawDynArray`]. Elements occupy the first `len` slots; capacity changes
/// only through `reserve`/growth and always precedes any length increase
/// that would exceed it. Every capacity-affecting operation takes the
/// allocator explicitly.
pub struct DynArray<T> {
    buf: RawDynArray<T>,
    elems: Vec<T>,
}

impl<T> View for DynArray<T> {
    type V = Seq<T>;

    closed spec fn view(&self) -> Seq<T> {
        self.elems@
    }
}

impl<T> DynArray<T> {
    /// Current capacity, in elements.
    pub closed spec fn spec_cap(&self) -> usize {
        self.buf.spec_cap()
    }

    /// Well-formedness of the untyped core.
    pub closed spec fn raw_wf(&self) -> bool {
        self.buf.wf()
    }

    /// Bytes held from the allocator for this buffer's storage.
    pub open spec fn cap_bytes(&self) -> int {
        if size_of::<T>() == 0 {
            0
        } else {
            self.spec_cap() * size_of::<T>()
        }
    }

    /// Length never exceeds capacity, and a zero-sized element type pins
    /// the capacity to the `usize::MAX` sentinel.
    pub open spec fn wf(&self) -> bool {
        &&& self.raw_wf()
        &&& self@.len() <= self.spec_cap()
        &&& (size_of::<T>() == 0 ==> self.spec_cap() == usize::MAX)
    }

    /// The allocator's counter holds exactly this buffer's byte footprint:
    /// the state of an allocator whose only live allocations belong to this
    /// buffer.
    pub open spec fn tracked_by(&self, alloc: Alloc) -> bool {
        alloc.spec_allocated_bytes() == self.cap_bytes()
    }

    /// `reserve` feasibility for `additional` more elements.
    pub open spec fn can_reserve_more(&self, additional: int) -> bool {
        can_reserve(
            self.spec_cap() as int,
            self@.len() as int,
            additional,
            size_of::<T>() as int,
        )
    }

    pub fn new(alloc: &Alloc) -> (r: Self)
        ensures
            r.wf(),
            r@ == Seq::<T>::empty(),
            r.spec_cap() == if size_of::<T>() == 0 {
                usize::MAX as int
            } else {
                0
            },
            r.cap_bytes() == 0,
    {
        let r = DynArray { buf: RawDynArray::new(alloc), elems: Vec::new() };
        proof {
            if size_of::<T>() != 0 {
                assert(0 * size_of::<T>() == 0) by (nonlinear_arith);
            }
        }
        r
    }

    /// Number of elements.
    pub fn len(&self) -> (r: usize)
        ensures
            r == self@.len(),
    {
        self.elems.len()
    }

    /// Current capacity, in elements.
    pub fn cap(&self) -> (r: usize)
        ensures
            r == self.spec_cap(),
    {
        self.buf.cap()
    }

    /// Read access to the element at `index`.
    pub fn get(&self, index: usize) -> (r: &T)
        requires
            index < self@.len(),
        ensures
            *r == self@[index as int],
    {
        &self.elems[index]
    }

    /// Overwrite the element at `index`.
    pub fn set(&mut self, index: usize, value: T)
        requires
            old(self).wf(),
            index < old(self)@.len(),
        ensures
            final(self).wf(),
            final(self).spec_cap() == old(self).spec_cap(),
            final(self)@ == old(self)@.update(index as int, value),
    {
        self.elems[index] = value;
    }

    /// Read access to the last element, if any.
    pub fn last(&self) -> (r: Option<&T>)
        ensures
            self@.len() == 0 ==> r is None,
            self@.len() > 0 ==> r is Some && *r.unwrap() == self@.last(),
    {
        if self.elems.len() == 0 {
            None
        } else {
            Some(&self.elems[self.elems.len() - 1])
        }
    }

    /// Ensure capacity for `additional` more elements past the current
    /// length; the contents are untouched.
    pub fn reserve(&mut self, alloc: &mut Alloc, additional: usize)
        requires
            old(self).wf(),
            old(self).can_reserve_more(additional as int),
        ensures
            final(self).wf(),
            final(self)@ == old(self)@,
            final(self).spec_cap() as int == reserved_cap(
                old(self).spec_cap() as int,
                old(self)@.len() as int,
                additional as int,
                size_of::<T>() as int,
            ),
            old(self)@.len() + additional <= final(self).spec_cap() as int,
            final(self).cap_bytes() >= old(self).cap_bytes(),
            final(alloc).spec_allocated_bytes() == counter_plus(
                old(alloc).spec_allocated_bytes(),
                (final(self).cap_bytes() - old(self).cap_bytes()) as usize,
            ),
            old(self).tracked_by(*old(alloc)) ==> final(self).tracked_by(*final(alloc)),
    {
        let len = self.elems.len();
        self.buf.reserve(alloc, len, additional);
    }

    /// Append `elem`, growing amortized if needed.
    pub fn push(&mut self, alloc: &mut Alloc, elem: T)
        requires
            old(self).wf(),
            old(self).can_reserve_more(1),
        ensures
            final(self).wf(),
            final(self)@ == old(self)@.push(elem),
            final(self).spec_cap() as int == reserved_cap(
                old(self).spec_cap() as int,
                old(self)@.len() as int,
                1,
                size_of::<T>() as int,
            ),
            final(self).cap_bytes() >= old(self).cap_bytes(),
            final(alloc).spec_allocated_bytes() == counter_plus(
                old(alloc).spec_allocated_bytes(),
                (final(self).cap_bytes() - old(self).cap_bytes()) as usize,
            ),
            old(self).tracked_by(*old(alloc)) ==> final(self).tracked_by(*final(alloc)),
    {
        let len = self.elems.len();
        self.buf.reserve(alloc, len, 1);
        self.elems.push(elem);
    }

    /// Remove and return the last element; `None` when empty. Capacity and
    /// allocator are untouched: shrinking is never automatic.
    pub fn pop(&mut self) -> (r: Option<T>)
        requires
            old(self).wf(),
        ensures
            final(self).wf(),
            final(self).spec_cap() == old(self).spec_cap(),
            old(self)@.len() == 0 ==> r is None && final(self)@ == old(self)@,
            old(self)@.len() > 0 ==> r == Some(old(self)@.last()) && final(self)@ == old(
                self,
            )@.drop_last(),
    {
        self.elems.pop()
    }

    /// Insert `elem` at `index`, shifting later elements one slot right.
    /// An index past the length is a calling-convention violation (fatal in
    /// the original design), excluded here.
    pub fn insert(&mut self, alloc: &mut Alloc, index: usize, elem: T)
        requires
            old(self).wf(),
            index <= old(self)@.len(),
            old(self).can_reserve_more(1),
        ensures
            final(self).wf(),
            final(self)@ == old(self)@.insert(index as int, elem),
            final(self).spec_cap() as int == reserved_cap(
                old(self).spec_cap() as int,
                old(self)@.len() as int,
                1,
                size_of::<T>() as int,
            ),
            final(self).cap_bytes() >= old(self).cap_bytes(),
            final(alloc).spec_allocated_bytes() == counter_plus(
                old(alloc).spec_allocated_bytes(),
                (final(self).cap_bytes() - old(self).cap_bytes()) as usize,
            ),
            old(self).tracked_by(*old(alloc)) ==> final(self).tracked_by(*final(alloc)),
    {
        let len = self.elems.len();
        self.buf.reserve(alloc, len, 1);
        self.elems.insert(index, elem);
    }

    /// Remove and return the element at `index`, shifting later elements
    /// one slot left. An index at or past the length is a
    /// calling-convention violation (fatal in the original design),
    /// excluded here.
    pub fn remove(&mut self, index: usize) -> (r: T)
        requires
            old(self).wf(),
            index < old(self)@.len(),
        ensures
            final(self).wf(),
            final(self).spec_cap() == old(self).spec_cap(),
            r == old(self)@[index as int],
            final(self)@ == old(self)@.remove(index as int),
    {
        self.elems.remove(index)
    }

    /// Consume the buffer into a forward/backward iterator over its
    /// elements. The backing storage moves with it.
    pub fn into_iter(self) -> (r: IntoIter<T>)
        requires
            self.wf(),
        ensures
            r.wf(),
            r@ == self@,
            r.cap_bytes() == self.cap_bytes(),
    {
        let DynArray { buf, elems } = self;
        IntoIter { buf, remaining: elems }
    }

    /// Empty the buffer into a draining iterator; length drops to zero but
    /// the storage stays with the buffer.
    pub fn drain(&mut self) -> (r: Drain<T>)
        requires
            old(self).wf(),
        ensures
            final(self).wf(),
            final(self)@ == Seq::<T>::empty(),
            final(self).spec_cap() == old(self).spec_cap(),
            r@ == old(self)@,
    {
        let mut taken: Vec<T> = Vec::new();
        core::mem::swap(&mut self.elems, &mut taken);
        Drain { remaining: taken }
    }

    /// Pop and drop every element, then release the storage. Must be called
    /// exactly once before the buffer is dropped; if the allocator's counter
    /// held exactly this buffer's footprint, it returns to zero.
    pub fn destroy(&mut self, alloc: &mut Alloc)
        requires
            old(self).wf(),
        ensures
            final(self).wf(),
            final(self)@ == Seq::<T>::empty(),
            final(self).cap_bytes() == 0,
            size_of::<T>() != 0 ==> final(self).spec_cap() == 0,
            final(alloc).spec_allocated_bytes() == counter_minus(
                old(alloc).spec_allocated_bytes(),
                old(self).cap_bytes() as usize,
            ),
            old(self).tracked_by(*old(alloc)) ==> final(alloc).spec_allocated_bytes() == 0,
    {
        let ghost pre_cap = self.spec_cap();
        while self.elems.len() > 0
            invariant
                self.wf(),
                self.spec_cap() == pre_cap,
            decreases self@.len(),
        {
            let _ = self.pop();
        }
        self.buf.destroy(alloc);
    }
}

impl<T: Clone> DynArray<T> {
    /// Grow to `new_len` by appending clones of `value`, or shrink to it by
    /// popping; a no-op when already equal.
    pub fn resize(&mut self, alloc: &mut Alloc, new_len: usize, value: T)
        requires
            old(self).wf(),
            old(self)@.len() < new_len ==> old(self).can_reserve_more(
                new_len - old(self)@.len(),
            ),
        ensures
            final(self).wf(),
            final(self)@.len() == new_len,
            forall|i: int|
                0 <= i < old(self)@.len() && i < new_len ==> final(self)@[i] == old(self)@[i],
            forall|i: int|
                old(self)@.len() <= i < new_len ==> vstd::pervasive::cloned::<T>(
                    value,
                    #[trigger] final(self)@[i],
                ),
            old(self)@.len() >= new_len ==> final(self)@ == old(self)@.take(new_len as int),
            final(self).spec_cap() as int == if old(self)@.len() < new_len {
                reserved_cap(
                    old(self).spec_cap() as int,
                    old(self)@.len() as int,
                    new_len - old(self)@.len(),
                    size_of::<T>() as int,
                )
            } else {
                old(self).spec_cap() as int
            },
            final(self).cap_bytes() >= old(self).cap_bytes(),
            final(alloc).spec_allocated_bytes() == counter_plus(
                old(alloc).spec_allocated_bytes(),
                (final(self).cap_bytes() - old(self).cap_bytes()) as usize,
            ),
            old(self).tracked_by(*old(alloc)) ==> final(self).tracked_by(*final(alloc)),
    {
        let len = self.elems.len();
        if len < new_len {
            self.reserve(alloc, new_len - len);
            let ghost pre = self@;
            let ghost cap_after = self.spec_cap();
            let ghost counter_after = alloc.spec_allocated_bytes();
            while self.elems.len() < new_len
                invariant
                    self.wf(),
                    pre.len() <= self@.len() <= new_len <= self.spec_cap(),
                    self.spec_cap() == cap_after,
                    alloc.spec_allocated_bytes() == counter_after,
                    forall|i: int| 0 <= i < pre.len() ==> self@[i] == pre[i],
                    forall|i: int|
                        pre.len() <= i < self@.len() ==> vstd::pervasive::cloned::<T>(
                            value,
                            #[trigger] self@[i],
                        ),
                decreases new_len - self@.len(),
            {
                let v = value.clone();
                self.push(alloc, v);
            }
        }
        let ghost grown = self@;
        let ghost cap_grown = self.spec_cap();
        while self.elems.len() > new_len
            invariant
                self.wf(),
                new_len <= self@.len() <= grown.len(),
                self.spec_cap() == cap_grown,
                forall|i: int| 0 <= i < self@.len() ==> self@[i] == grown[i],
            decreases self@.len(),
        {
            let _ = self.pop();
        }
        proof {
            if old(self)@.len() >= new_len {
                assert(self@ =~= old(self)@.take(new_len as int));
            }
            assert forall|i: int|
                old(self)@.len() <= i < new_len implies vstd::pervasive::cloned::<T>(
                value,
                self@[i],
            ) by {
                assert(self@[i] == grown[i]);
                assert(vstd::pervasive::cloned::<T>(value, grown[i]));
            }
        }
    }
}

/// A well-formed buffer's byte footprint stays within the platform's
/// signed-size limit.
pub proof fn lemma_cap_bytes_bound<T>(arr: DynArray<T>)
    requires
        arr.wf(),
    ensures
        0 <= arr.cap_bytes() <= isize::MAX as int,
{
    if size_of::<T>() != 0 {
        assert(0 <= arr.spec_cap() * size_of::<T>()) by (nonlinear_arith)
            requires
                arr.spec_cap() >= 0,
                size_of::<T>() >= 0,
        ;
    }
}

/// Reserve idempotence: once a reserve for `a1` additional elements has
/// succeeded, any further reserve at the same length with the same or
/// smaller `a2` takes the fast path: capacity is unchanged, so no
/// reallocation happens.
pub proof fn lemma_reserve_idempotent(cap: int, len: int, a1: int, a2: int, elem_size: int)
    requires
        0 <= cap,
        0 <= len,
        0 <= a2 <= a1,
    ensures
        reserved_cap(reserved_cap(cap, len, a1, elem_size), len, a2, elem_size) == reserved_cap(
            cap,
            len,
            a1,
            elem_size,
        ),
{
}

/// Growth monotonicity: a reserve never shrinks capacity, and the
/// resulting capacity always covers the requested length.
pub proof fn lemma_reserve_monotone(cap: int, len: int, additional: int, elem_size: int)
    requires
        0 <= cap,
        0 <= len,
        0 <= additional,
    ensures
        reserved_cap(cap, len, additional, elem_size) >= cap,
        reserved_cap(cap, len, additional, elem_size) >= len + additional,
{
}

/// Smallest value reachable by repeated doubling from `start` that is at
/// least `n`.
pub open spec fn doubled_from(start: int, n: int) -> int
    decreases (if n - start >= 0 { n - start } else { 0 }) when 1 <= start
{
    if start >= n {
        start
    } else {
        doubled_from(2 * start, n)
    }
}

proof fn lemma_doubled_from_ge(start: int, n: int)
    requires
        1 <= start,
    ensures
        doubled_from(start, n) >= start,
        doubled_from(start, n) >= n,
    decreases (if n - start >= 0 { n - start } else { 0 }),
{
    if start < n {
        lemma_doubled_from_ge(2 * start, n);
    }
}

proof fn lemma_doubled_from_step(start: int, n: int, m: int)
    requires
        1 <= start,
        n <= m,
        m <= 2 * doubled_from(start, n),
    ensures
        doubled_from(start, m) == if doubled_from(start, n) >= m {
            doubled_from(start, n)
        } else {
            2 * doubled_from(start, n)
        },
    decreases (if n - start >= 0 { n - start } else { 0 }),
{
    if start >= n {
        if start < m {
            assert(doubled_from(start, m) == doubled_from(2 * start, m));
        }
    } else {
        lemma_doubled_from_step(2 * start, n, m);
    }
}

/// Capacity after `n` sequential pushes into an initially empty buffer,
/// following the reserve policy that `push` uses (one more element each
/// time).
pub open spec fn pushes_cap(n: nat, elem_size: int) -> int
    decreases n,
{
    if n == 0 {
        0
    } else {
        reserved_cap(pushes_cap((n - 1) as nat, elem_size), n - 1, 1, elem_size)
    }
}

/// Growth monotonicity, doubling form: for a non-zero element size, the
/// capacity after `n` sequential pushes from empty is exactly the smallest
/// value reachable by repeated doubling from the minimum non-zero capacity
/// that is at least `n`.
pub proof fn lemma_push_capacity_doubling(n: nat, elem_size: int)
    requires
        elem_size >= 1,
        n >= 1,
    ensures
        pushes_cap(n, elem_size) == doubled_from(min_non_zero_cap(elem_size), n as int),
    decreases n,
{
    let min = min_non_zero_cap(elem_size);
    if n == 1 {
        assert(pushes_cap(0, elem_size) == 0);
        assert(pushes_cap(1, elem_size) == min);
    } else {
        lemma_push_capacity_doubling((n - 1) as nat, elem_size);
        lemma_doubled_from_ge(min, n - 1);
        lemma_doubled_from_step(min, n - 1, n as int);
    }
}

/// Push/pop inverse: popping right after a push returns the pushed element
/// and restores the previous contents, in particular the length.
pub proof fn lemma_push_pop_inverse<T>(s: Seq<T>, x: T)
    ensures
        s.push(x).last() == x,
        s.push(x).drop_last() == s,
{
    assert(s.push(x).drop_last() =~= s);
}

/// Insert/remove inverse: removing at the insertion index returns the
/// inserted element and restores both the length and the element order at
/// all other indices.
pub proof fn lemma_insert_remove_inverse<T>(s: Seq<T>, i: int, x: T)
    requires
        0 <= i <= s.len(),
    ensures
        s.insert(i, x)[i] == x,
        s.insert(i, x).remove(i) == s,
{
    assert(s.insert(i, x).remove(i) =~= s);
}

/// Consuming iterator over a [`DynArray`]: produces each element exactly
/// once, forward or backward, and keeps the backing storage alive until
/// [`IntoIter::destroy`] releases it. Elements never consumed are dropped
/// by `destroy` before the storage is released.
pub struct IntoIter<T> {
    buf: RawDynArray<T>,
    remaining: Vec<T>,
}

impl<T> View for IntoIter<T> {
    type V = Seq<T>;

    closed spec fn view(&self) -> Seq<T> {
        self.remaining@
    }
}

impl<T> IntoIter<T> {
    /// Bytes the backing storage still holds from the allocator.
    pub closed spec fn cap_bytes(&self) -> int {
        self.buf.cap_bytes()
    }

    pub closed spec fn wf(&self) -> bool {
        self.buf.wf()
    }

    /// Next element from the front, if any.
    pub fn next(&mut self) -> (r: Option<T>)
        requires
            old(self).wf(),
        ensures
            final(self).wf(),
            final(self).cap_bytes() == old(self).cap_bytes(),
            old(self)@.len() == 0 ==> r is None && final(self)@ == old(self)@,
            old(self)@.len() > 0 ==> r == Some(old(self)@[0]) && final(self)@ == old(
                self,
            )@.drop_first(),
    {
        if self.remaining.len() == 0 {
            None
        } else {
            let v = self.remaining.remove(0);
            proof {
                assert(self@ =~= old(self)@.drop_first());
            }
            Some(v)
        }
    }

    /// Next element from the back, if any.
    pub fn next_back(&mut self) -> (r: Option<T>)
        requires
            old(self).wf(),
        ensures
            final(self).wf(),
            final(self).cap_bytes() == old(self).cap_bytes(),
            old(self)@.len() == 0 ==> r is None && final(self)@ == old(self)@,
            old(self)@.len() > 0 ==> r == Some(old(self)@.last()) && final(self)@ == old(
                self,
            )@.drop_last(),
    {
        self.remaining.pop()
    }

    /// Exact number of elements left: lower and upper bound coincide.
    pub fn size_hint(&self) -> (r: (usize, Option<usize>))
        ensures
            r.0 == self@.len(),
            r.1 == Some(r.0),
    {
        let n = self.remaining.len();
        (n, Some(n))
    }

    /// Drop every still-unconsumed element, then release the backing
    /// storage; safe after partial iteration. If the allocator's counter
    /// held exactly the storage's footprint, it returns to zero.
    pub fn destroy(&mut self, alloc: &mut Alloc)
        requires
            old(self).wf(),
        ensures
            final(self).wf(),
            final(self)@ == Seq::<T>::empty(),
            final(self).cap_bytes() == 0,
            final(alloc).spec_allocated_bytes() == counter_minus(
                old(alloc).spec_allocated_bytes(),
                old(self).cap_bytes() as usize,
            ),
            old(alloc).spec_allocated_bytes() == old(self).cap_bytes()
                ==> final(alloc).spec_allocated_bytes() == 0,
    {
        self.remaining.clear();
        self.buf.destroy(alloc);
    }
}

/// Draining iterator over a [`DynArray`]: produces the drained elements,
/// forward or backward; the buffer keeps its storage. Elements never
/// consumed are dropped with the iterator.
pub struct Drain<T> {
    remaining: Vec<T>,
}

impl<T> View for Drain<T> {
    type V = Seq<T>;

    closed spec fn view(&self) -> Seq<T> {
        self.remaining@
    }
}

impl<T> Drain<T> {
    /// Next drained element from the front, if any.
    pub fn next(&mut self) -> (r: Option<T>)
        ensures
            old(self)@.len() == 0 ==> r is None && final(self)@ == old(self)@,
            old(self)@.len() > 0 ==> r == Some(old(self)@[0]) && final(self)@ == old(
                self,
            )@.drop_first(),
    {
        if self.remaining.len() == 0 {
            None
        } else {
            let v = self.remaining.remove(0);
            proof {
                assert(self@ =~= old(self)@.drop_first());
            }
            Some(v)
        }
    }

    /// Next drained element from the back, if any.
    pub fn next_back(&mut self) -> (r: Option<T>)
        ensures
            old(self)@.len() == 0 ==> r is None && final(self)@ == old(self)@,
            old(self)@.len() > 0 ==> r == Some(old(self)@.last()) && final(self)@ == old(
                self,
            )@.drop_last(),
    {
        self.remaining.pop()
    }

    /// Exact number of elements left: lower and upper bound coincide.
    pub fn size_hint(&self) -> (r: (usize, Option<usize>))
        ensures
            r.0 == self@.len(),
            r.1 == Some(r.0),
    {
        let n = self.remaining.len();
        (n, Some(n))
    }
}

} // verus!
