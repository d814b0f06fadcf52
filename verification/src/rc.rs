//! Shared ownership by counting handles.
//!
//! Allocations live in a [`Heap`], and an [`Rc`] is a handle that holds the
//! address of one of them. Each allocation carries the number of handles that
//! point at it. Cloning a handle raises the count, dropping one lowers it, and
//! the drop that finds the count at one releases the allocation. An address
//! is never handed out twice, so a released allocation stays released.

use crate::cell::Cell;
use std::marker::PhantomData;
use vstd::prelude::*;

verus! {

/// What one allocation holds: the shared value and the number of handles
/// that point at it.
pub ghost struct Allocation<T> {
    pub value: T,
    pub refcount: nat,
}

/// The slot of an allocation that [`Rc::new`] has just made for `value`.
pub open spec fn slot_when_new<T>(value: T) -> Option<Allocation<T>> {
    Some(Allocation { value, refcount: 1 })
}

/// A slot after one of its handles has been cloned.
pub open spec fn slot_after_clone<T>(slot: Option<Allocation<T>>) -> Option<Allocation<T>> {
    match slot {
        Some(allocation) => Some(
            Allocation { value: allocation.value, refcount: allocation.refcount + 1 },
        ),
        None => None,
    }
}

/// A slot after one of its handles has been dropped: the last handle takes
/// the allocation with it.
pub open spec fn slot_after_drop<T>(slot: Option<Allocation<T>>) -> Option<Allocation<T>> {
    match slot {
        Some(allocation) => if allocation.refcount == 1 {
            None
        } else {
            Some(
                Allocation {
                    value: allocation.value,
                    refcount: (allocation.refcount - 1) as nat,
                },
            )
        },
        None => None,
    }
}

/// The count of handles to a live allocation, which is never zero.
struct RefCount {
    count: Cell<u64>,
}

/// An allocation: the value and the count of handles to it.
struct RcInner<T> {
    value: T,
    refcount: RefCount,
}

impl RefCount {
    #[verifier::type_invariant]
    spec fn counts_a_handle(&self) -> bool {
        self.count@ >= 1
    }

    fn new() -> (refcount: Self)
        ensures
            refcount.count@ == 1,
    {
        RefCount { count: Cell::new(1) }
    }

    fn get(&self) -> (count: u64)
        ensures
            count == self.count@,
            count >= 1,
    {
        proof {
            use_type_invariant(self);
        }
        self.count.get()
    }

    fn set(&mut self, count: u64)
        requires
            count >= 1,
        ensures
            final(self).count@ == count,
    {
        self.count.set(count);
    }
}

/// The store of all allocations, live and released, in the order in which
/// they were made.
pub struct Heap<T> {
    slots: Vec<Option<RcInner<T>>>,
}

/// A handle to an allocation in a [`Heap`]. Its view is the address of the
/// allocation. A handle counts until it is given up with [`Rc::drop`].
#[must_use]
pub struct Rc<T> {
    inner: usize,
    marker: PhantomData<T>,
}

impl<T> View for Heap<T> {
    type V = Seq<Option<Allocation<T>>>;

    /// One slot for each address handed out so far; `None` marks a released
    /// allocation.
    closed spec fn view(&self) -> Seq<Option<Allocation<T>>> {
        Seq::new(
            self.slots@.len(),
            |address: int|
                match self.slots@[address] {
                    Some(inner) => Some(
                        Allocation { value: inner.value, refcount: inner.refcount.count@ as nat },
                    ),
                    None => None,
                },
        )
    }
}

impl<T> View for Rc<T> {
    type V = int;

    closed spec fn view(&self) -> int {
        self.inner as int
    }
}

impl<T> Heap<T> {
    /// Whether `address` holds an allocation that has not been released.
    pub open spec fn live(&self, address: int) -> bool {
        0 <= address < self@.len() && self@[address] is Some
    }

    /// A heap without allocations.
    pub fn new() -> (heap: Self)
        ensures
            heap@.len() == 0,
    {
        Heap { slots: Vec::new() }
    }

    /// Whether `address` holds an allocation that has not been released.
    pub fn is_live(&self, address: usize) -> (live: bool)
        ensures
            live == self.live(address as int),
    {
        address < self.slots.len() && self.slots[address].is_some()
    }
}

impl<T> Rc<T> {
    /// Allocates storage for `v` with a count of one and returns the first
    /// handle to it. The allocation gets the next address that was never
    /// used; every other slot stays as it was.
    pub fn new(v: T, heap: &mut Heap<T>) -> (rc: Self)
        ensures
            rc@ == old(heap)@.len(),
            final(heap)@ == old(heap)@.push(slot_when_new(v)),
    {
        let inner = RcInner { value: v, refcount: RefCount::new() };
        let address = heap.slots.len();
        heap.slots.push(Some(inner));
        assert(heap@ =~= old(heap)@.push(slot_when_new(v)));
        Rc { inner: address, marker: PhantomData }
    }

    /// The address of the allocation behind this handle.
    pub fn address(&self) -> (address: usize)
        ensures
            address == self@,
    {
        self.inner
    }

    /// The number of handles that point at the allocation behind this one.
    pub fn refcount(&self, heap: &Heap<T>) -> (count: u64)
        requires
            heap.live(self@),
        ensures
            count == heap@[self@]->0.refcount,
            count >= 1,
    {
        match &heap.slots[self.inner] {
            Some(inner) => inner.refcount.get(),
            None => vstd::pervasive::unreached(),
        }
    }

    /// A shared reference to the value behind this handle.
    pub fn deref<'a>(&self, heap: &'a Heap<T>) -> (value: &'a T)
        requires
            heap.live(self@),
        ensures
            *value == heap@[self@]->0.value,
    {
        match &heap.slots[self.inner] {
            Some(inner) => &inner.value,
            None => vstd::pervasive::unreached(),
        }
    }

    /// A mutable reference to the value behind this handle, for values that
    /// change behind shared handles, such as a
    /// [`RefCell`](crate::refcell::RefCell). What is written through the
    /// reference is the allocation's value afterwards; its count and every
    /// other slot stay as they were.
    pub fn deref_mut<'a>(&self, heap: &'a mut Heap<T>) -> (value: &'a mut T)
        requires
            old(heap).live(self@),
        ensures
            *value == old(heap)@[self@]->0.value,
            final(heap)@ == old(heap)@.update(
                self@,
                Some(
                    Allocation {
                        value: *final(value),
                        refcount: old(heap)@[self@]->0.refcount,
                    },
                ),
            ),
    {
        match &mut heap.slots[self.inner] {
            Some(inner) => &mut inner.value,
            None => vstd::pervasive::unreached(),
        }
    }

    /// Makes one more handle to the same allocation and raises its count by
    /// one. The count is a `u64` and never wraps: one more handle must still
    /// fit.
    pub fn clone(&self, heap: &mut Heap<T>) -> (rc: Self)
        requires
            old(heap).live(self@),
            old(heap)@[self@]->0.refcount < u64::MAX,
        ensures
            rc@ == self@,
            final(heap)@ == old(heap)@.update(self@, slot_after_clone(old(heap)@[self@])),
    {
        match &mut heap.slots[self.inner] {
            Some(inner) => {
                let c = inner.refcount.get();
                inner.refcount.set(c + 1);
            },
            None => vstd::pervasive::unreached(),
        }
        assert(heap@ =~= old(heap)@.update(self@, slot_after_clone(old(heap)@[self@])));
        Rc { inner: self.inner, marker: PhantomData }
    }

    /// Gives this handle up. If it was the last one, the allocation is
    /// released together with its value; otherwise the count goes down by one
    /// and the allocation stays.
    pub fn drop(self, heap: &mut Heap<T>)
        requires
            old(heap).live(self@),
        ensures
            final(heap)@ == old(heap)@.update(self@, slot_after_drop(old(heap)@[self@])),
    {
        let c = self.refcount(heap);
        if c == 1 {
            heap.slots[self.inner] = None;
        } else {
            match &mut heap.slots[self.inner] {
                Some(inner) => {
                    inner.refcount.set(c - 1);
                },
                None => vstd::pervasive::unreached(),
            }
        }
        assert(heap@ =~= old(heap)@.update(self@, slot_after_drop(old(heap)@[self@])));
    }
}

/// One use of a handle: making another handle from it, or giving it up.
pub ghost enum HandleOp {
    Clone,
    Drop,
}

/// A slot after one use of one of its handles.
pub open spec fn slot_after_op<T>(slot: Option<Allocation<T>>, op: HandleOp) -> Option<
    Allocation<T>,
> {
    match op {
        HandleOp::Clone => slot_after_clone(slot),
        HandleOp::Drop => slot_after_drop(slot),
    }
}

/// A slot after the uses `ops` of its handles, first to last.
pub open spec fn slot_after_ops<T>(slot: Option<Allocation<T>>, ops: Seq<HandleOp>) -> Option<
    Allocation<T>,
>
    decreases ops.len(),
{
    if ops.len() == 0 {
        slot
    } else {
        slot_after_op(slot_after_ops(slot, ops.drop_last()), ops.last())
    }
}

/// The number of handles that exist after `ops`, counted from the one handle
/// that [`Rc::new`] returns: a clone makes one, a drop consumes one.
pub open spec fn handles_after_ops(ops: Seq<HandleOp>) -> int
    decreases ops.len(),
{
    if ops.len() == 0 {
        1
    } else {
        handles_after_ops(ops.drop_last()) + match ops.last() {
            HandleOp::Clone => 1int,
            HandleOp::Drop => -1int,
        }
    }
}

/// Each use in `ops` goes through a handle that exists when the use is made.
pub open spec fn uses_existing_handles(ops: Seq<HandleOp>) -> bool {
    forall|done: int| 0 <= done < ops.len() ==> #[trigger] handles_after_ops(ops.take(done)) >= 1
}

/// Whatever was done through existing handles up to some point was done
/// through existing handles.
pub proof fn lemma_prefix_uses_existing_handles(ops: Seq<HandleOp>, done: int)
    requires
        uses_existing_handles(ops),
        0 <= done <= ops.len(),
    ensures
        uses_existing_handles(ops.take(done)),
{
    assert forall|earlier: int| 0 <= earlier < ops.take(done).len() implies #[trigger]
        handles_after_ops(ops.take(done).take(earlier)) >= 1 by {
        assert(ops.take(done).take(earlier) =~= ops.take(earlier));
    }
}

/// The count of an allocation is the number of handles to it. After any
/// clones and drops made through existing handles, the allocation made for
/// `value` is live with that value and a count equal to the number of handles
/// while a handle is left, and it is released once none is left.
pub proof fn lemma_count_is_number_of_handles<T>(value: T, ops: Seq<HandleOp>)
    requires
        uses_existing_handles(ops),
    ensures
        handles_after_ops(ops) >= 0,
        slot_after_ops(slot_when_new(value), ops) == if handles_after_ops(ops) >= 1 {
            Some(Allocation { value, refcount: handles_after_ops(ops) as nat })
        } else {
            None
        },
    decreases ops.len(),
{
    if ops.len() > 0 {
        let earlier = ops.drop_last();
        assert(earlier =~= ops.take(ops.len() - 1));
        lemma_prefix_uses_existing_handles(ops, ops.len() - 1);
        lemma_count_is_number_of_handles(value, earlier);
    }
}

/// An allocation is released exactly once, by the drop that finds a single
/// handle left. Over any clones and drops made through existing handles, the
/// allocation is still live before each of them, so nothing is done to a
/// released allocation and no step but the last can release it; and it is
/// released at the end if and only if the last step is a drop that finds the
/// count at one.
pub proof fn lemma_released_exactly_once<T>(value: T, ops: Seq<HandleOp>)
    requires
        uses_existing_handles(ops),
    ensures
        forall|done: int|
            0 <= done < ops.len() ==> (#[trigger] slot_after_ops(
                slot_when_new(value),
                ops.take(done),
            )) is Some,
        slot_after_ops(slot_when_new(value), ops) is None <==> ops.len() > 0 && ops.last()
            == HandleOp::Drop && slot_after_ops(slot_when_new(value), ops.drop_last()) == Some(
            Allocation { value, refcount: 1 },
        ),
{
    assert forall|done: int| 0 <= done < ops.len() implies (#[trigger] slot_after_ops(
        slot_when_new(value),
        ops.take(done),
    )) is Some by {
        lemma_prefix_uses_existing_handles(ops, done);
        lemma_count_is_number_of_handles(value, ops.take(done));
    }
    lemma_count_is_number_of_handles(value, ops);
    if ops.len() > 0 {
        assert(ops.drop_last() =~= ops.take(ops.len() - 1));
        lemma_prefix_uses_existing_handles(ops, ops.len() - 1);
        lemma_count_is_number_of_handles(value, ops.drop_last());
    }
}

/// A released allocation stays released: none of the heap's operations, at
/// whichever address it is aimed, puts an allocation back where one was
/// released.
pub proof fn lemma_released_stays_released<T>(
    heap: Seq<Option<Allocation<T>>>,
    released: int,
    target: int,
    value: T,
)
    requires
        0 <= released < heap.len(),
        0 <= target < heap.len(),
        heap[released] is None,
    ensures
        heap.push(slot_when_new(value))[released] is None,
        heap.update(target, slot_after_clone(heap[target]))[released] is None,
        heap.update(target, slot_after_drop(heap[target]))[released] is None,
{
}

} // verus!
