//! An interior-mutability slot whose aliasing rule, one writer or any number
//! of readers, is enforced by a borrow state kept at run time.
//!
//! A [`RefCell`] starts out [`RefState::Unshared`]. A granted borrow moves the
//! state and yields a guard; handing the guard back is the only way the state
//! moves towards `Unshared` again. A request that the state cannot grant is
//! answered with `None` and changes nothing.

use crate::cell::Cell;
use std::marker::PhantomData;
use vstd::prelude::*;

verus! {

/// How a [`RefCell`] is borrowed at the moment.
#[derive(Copy, Clone, PartialEq, Eq, Structural, Debug)]
pub enum RefState {
    /// No borrow is outstanding.
    Unshared,
    /// That many shared borrows are outstanding, at least one.
    Shared(i32),
    /// One exclusive borrow is outstanding.
    Exclusive,
}

impl RefState {
    /// A shared state counts at least one borrow.
    pub open spec fn wf(self) -> bool {
        self matches RefState::Shared(n) ==> n >= 1
    }

    /// The state after a request for a shared borrow, which is granted unless
    /// the state is exclusive.
    pub open spec fn on_borrow(self) -> RefState {
        match self {
            RefState::Unshared => RefState::Shared(1),
            RefState::Shared(n) => RefState::Shared((n + 1) as i32),
            RefState::Exclusive => RefState::Exclusive,
        }
    }

    /// The state after a request for an exclusive borrow, which is granted
    /// only in the unshared state.
    pub open spec fn on_borrow_mut(self) -> RefState {
        match self {
            RefState::Unshared => RefState::Exclusive,
            other => other,
        }
    }

    /// The state after one shared borrow has ended.
    pub open spec fn on_shared_release(self) -> RefState
        recommends
            self is Shared,
    {
        match self {
            RefState::Shared(n) => if n == 1 {
                RefState::Unshared
            } else {
                RefState::Shared((n - 1) as i32)
            },
            other => other,
        }
    }

    /// The state after the exclusive borrow has ended.
    pub open spec fn on_exclusive_release(self) -> RefState
        recommends
            self is Exclusive,
    {
        match self {
            RefState::Exclusive => RefState::Unshared,
            other => other,
        }
    }
}

/// What a [`RefCell`] stands for: the value it owns and its borrow state.
pub ghost struct RefCellView<T> {
    pub value: T,
    pub state: RefState,
}

/// The slot that records the borrow state. It only ever holds a state that
/// the borrow rules can reach.
struct BorrowFlag {
    state: Cell<RefState>,
}

/// A value together with the borrow state that guards access to it.
pub struct RefCell<T> {
    value: T,
    flag: BorrowFlag,
}

/// The token of one shared borrow of a [`RefCell`]. The borrow lasts until
/// the token is handed back with [`RefGuard::drop`].
#[must_use]
pub struct RefGuard<T> {
    marker: PhantomData<T>,
}

/// The token of the exclusive borrow of a [`RefCell`]. The borrow lasts
/// until the token is handed back with [`MutRefGuard::drop`].
#[must_use]
pub struct MutRefGuard<T> {
    marker: PhantomData<T>,
}

impl<T> View for RefCell<T> {
    type V = RefCellView<T>;

    closed spec fn view(&self) -> RefCellView<T> {
        RefCellView { value: self.value, state: self.flag.state@ }
    }
}

impl BorrowFlag {
    #[verifier::type_invariant]
    spec fn holds_reachable_state(&self) -> bool {
        self.state@.wf()
    }

    fn new() -> (flag: Self)
        ensures
            flag.state@ == RefState::Unshared,
    {
        BorrowFlag { state: Cell::new(RefState::Unshared) }
    }

    fn get(&self) -> (state: RefState)
        ensures
            state == self.state@,
            state.wf(),
    {
        proof {
            use_type_invariant(self);
        }
        self.state.get()
    }

    fn set(&mut self, state: RefState)
        requires
            state.wf(),
        ensures
            final(self).state@ == state,
    {
        self.state.set(state);
    }
}

impl<T> RefCell<T> {
    /// Wraps `value`; nothing is borrowed yet.
    pub fn new(value: T) -> (refcell: Self)
        ensures
            refcell@.value == value,
            refcell@.state == RefState::Unshared,
    {
        RefCell { value, flag: BorrowFlag::new() }
    }

    /// The current borrow state.
    pub fn state(&self) -> (state: RefState)
        ensures
            state == self@.state,
            state.wf(),
    {
        self.flag.get()
    }

    /// Asks for a shared borrow. It is granted unless an exclusive borrow is
    /// outstanding; a denied request leaves the cell as it was.
    ///
    /// The count of shared borrows is kept in an `i32`, so one more borrow
    /// must still fit.
    pub fn borrow(&mut self) -> (guard: Option<RefGuard<T>>)
        requires
            old(self)@.state != RefState::Shared(i32::MAX),
        ensures
            guard is None <==> old(self)@.state is Exclusive,
            final(self)@.state == old(self)@.state.on_borrow(),
            final(self)@.value == old(self)@.value,
    {
        match self.flag.get() {
            RefState::Unshared => {
                let state = RefState::Shared(1);
                self.flag.set(state);
                return Some(RefGuard::new(self));
            },
            RefState::Shared(shared) => {
                self.flag.set(RefState::Shared(shared + 1));
                return Some(RefGuard::new(self));
            },
            RefState::Exclusive => None,
        }
    }

    /// Asks for the exclusive borrow. It is granted only while nothing is
    /// borrowed; a denied request leaves the cell as it was.
    pub fn borrow_mut(&mut self) -> (guard: Option<MutRefGuard<T>>)
        ensures
            guard is Some <==> old(self)@.state is Unshared,
            final(self)@.state == old(self)@.state.on_borrow_mut(),
            final(self)@.value == old(self)@.value,
    {
        match self.flag.get() {
            RefState::Unshared => {
                self.flag.set(RefState::Exclusive);
                return Some(MutRefGuard::new(self));
            },
            _ => None,
        }
    }
}

impl<T> RefGuard<T> {
    /// Makes the token of a shared borrow of the given cell. The borrow state
    /// is not touched: [`RefCell::borrow`] counts the borrow before it hands
    /// the token out.
    pub fn new(_refcell: &RefCell<T>) -> Self {
        RefGuard { marker: PhantomData }
    }

    /// Read access to the value of the cell that this guard borrows.
    pub fn deref<'a>(&self, refcell: &'a RefCell<T>) -> (value: &'a T)
        ensures
            *value == refcell@.value,
    {
        &refcell.value
    }

    /// Ends this shared borrow: the count goes down by one, and the last
    /// borrow to end leaves the cell unshared.
    ///
    /// The guard of a cell that records no shared borrow cannot be released.
    pub fn drop(self, refcell: &mut RefCell<T>)
        requires
            old(refcell)@.state is Shared,
        ensures
            final(refcell)@.state == old(refcell)@.state.on_shared_release(),
            final(refcell)@.value == old(refcell)@.value,
    {
        match refcell.flag.get() {
            RefState::Exclusive | RefState::Unshared => vstd::pervasive::unreached(),
            RefState::Shared(1) => {
                refcell.flag.set(RefState::Unshared);
            },
            RefState::Shared(shared) => {
                refcell.flag.set(RefState::Shared(shared - 1));
            },
        }
    }
}

impl<T> MutRefGuard<T> {
    /// Makes the token of the exclusive borrow of the given cell. The borrow
    /// state is not touched: [`RefCell::borrow_mut`] records the borrow
    /// before it hands the token out.
    pub fn new(_refcell: &RefCell<T>) -> Self {
        MutRefGuard { marker: PhantomData }
    }

    /// Read access to the value of the cell that this guard borrows.
    pub fn deref<'a>(&self, refcell: &'a RefCell<T>) -> (value: &'a T)
        ensures
            *value == refcell@.value,
    {
        &refcell.value
    }

    /// Write access to the value of the cell that this guard borrows. What is
    /// written through the reference is the cell's value afterwards; the
    /// borrow state stays as it is.
    pub fn deref_mut<'a>(&mut self, refcell: &'a mut RefCell<T>) -> (value: &'a mut T)
        ensures
            *value == old(refcell)@.value,
            final(refcell)@.value == *final(value),
            final(refcell)@.state == old(refcell)@.state,
    {
        &mut refcell.value
    }

    /// Ends the exclusive borrow and leaves the cell unshared.
    ///
    /// The guard of a cell that records no exclusive borrow cannot be
    /// released.
    pub fn drop(self, refcell: &mut RefCell<T>)
        requires
            old(refcell)@.state is Exclusive,
        ensures
            final(refcell)@.state == old(refcell)@.state.on_exclusive_release(),
            final(refcell)@.value == old(refcell)@.value,
    {
        match refcell.flag.get() {
            RefState::Exclusive => {
                refcell.flag.set(RefState::Unshared);
            },
            _ => vstd::pervasive::unreached(),
        }
    }
}

/// One step in the life of a [`RefCell`]: a request for a borrow, or the
/// release of a guard.
pub ghost enum BorrowOp {
    Borrow,
    BorrowMut,
    ReleaseShared,
    ReleaseExclusive,
}

/// The guards that are out: handed out by a granted request and not yet
/// released.
pub ghost struct Guards {
    pub shared: int,
    pub exclusive: int,
}

/// The borrow state after one step.
pub open spec fn state_after_op(state: RefState, op: BorrowOp) -> RefState {
    match op {
        BorrowOp::Borrow => state.on_borrow(),
        BorrowOp::BorrowMut => state.on_borrow_mut(),
        BorrowOp::ReleaseShared => state.on_shared_release(),
        BorrowOp::ReleaseExclusive => state.on_exclusive_release(),
    }
}

/// The borrow state of a new cell after the steps `ops`, first to last.
pub open spec fn state_after_ops(ops: Seq<BorrowOp>) -> RefState
    decreases ops.len(),
{
    if ops.len() == 0 {
        RefState::Unshared
    } else {
        state_after_op(state_after_ops(ops.drop_last()), ops.last())
    }
}

/// The guards of a new cell that are out after the steps `ops`: a request
/// adds a guard where the state at that moment grants it, a release takes one
/// away.
pub open spec fn guards_after_ops(ops: Seq<BorrowOp>) -> Guards
    decreases ops.len(),
{
    if ops.len() == 0 {
        Guards { shared: 0, exclusive: 0 }
    } else {
        let out = guards_after_ops(ops.drop_last());
        let state = state_after_ops(ops.drop_last());
        match ops.last() {
            BorrowOp::Borrow => if state !is Exclusive {
                Guards { shared: out.shared + 1, exclusive: out.exclusive }
            } else {
                out
            },
            BorrowOp::BorrowMut => if state is Unshared {
                Guards { shared: out.shared, exclusive: out.exclusive + 1 }
            } else {
                out
            },
            BorrowOp::ReleaseShared => Guards { shared: out.shared - 1, exclusive: out.exclusive },
            BorrowOp::ReleaseExclusive => Guards {
                shared: out.shared,
                exclusive: out.exclusive - 1,
            },
        }
    }
}

/// Each release in `ops` gives back a guard that is out at that moment.
pub open spec fn releases_guards_that_are_out(ops: Seq<BorrowOp>) -> bool {
    forall|done: int|
        #![trigger ops.take(done)]
        0 <= done < ops.len() ==> match ops[done] {
            BorrowOp::ReleaseShared => guards_after_ops(ops.take(done)).shared >= 1,
            BorrowOp::ReleaseExclusive => guards_after_ops(ops.take(done)).exclusive >= 1,
            _ => true,
        }
}

/// The state that stands for the guards `out`.
pub open spec fn state_of_guards(out: Guards) -> RefState {
    if out.exclusive >= 1 {
        RefState::Exclusive
    } else if out.shared >= 1 {
        RefState::Shared(out.shared as i32)
    } else {
        RefState::Unshared
    }
}

/// The borrow state counts the guards that are out, and readers never
/// coexist with a writer. After any requests, and releases of guards that
/// are out, on a new cell: at most one exclusive guard is out, and then no
/// shared one; the state is `Exclusive` exactly while the exclusive guard is
/// out, `Shared(n)` exactly while `n >= 1` shared guards are out, and
/// `Unshared` exactly while none is. So each release finds the state of its
/// own kind.
///
/// The shared count is an `i32`; the steps are taken to be few enough for it.
pub proof fn lemma_state_counts_the_guards(ops: Seq<BorrowOp>)
    requires
        releases_guards_that_are_out(ops),
        ops.len() < i32::MAX,
    ensures
        0 <= guards_after_ops(ops).shared <= ops.len(),
        0 <= guards_after_ops(ops).exclusive <= 1,
        guards_after_ops(ops).exclusive == 1 ==> guards_after_ops(ops).shared == 0,
        state_after_ops(ops) == state_of_guards(guards_after_ops(ops)),
        state_after_ops(ops).wf(),
    decreases ops.len(),
{
    if ops.len() > 0 {
        let earlier = ops.drop_last();
        assert(earlier =~= ops.take(ops.len() - 1));
        assert forall|done: int| 0 <= done < earlier.len() implies match earlier[done] {
            BorrowOp::ReleaseShared => guards_after_ops(#[trigger] earlier.take(done)).shared >= 1,
            BorrowOp::ReleaseExclusive => guards_after_ops(earlier.take(done)).exclusive >= 1,
            _ => true,
        } by {
            assert(earlier.take(done) =~= ops.take(done));
        }
        lemma_state_counts_the_guards(earlier);
    }
}

} // verus!
