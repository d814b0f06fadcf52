//! A single-owner mutable slot that only ever copies its value out or
//! overwrites it whole.
//!
//! The slot never lends out a reference to what it holds, so a value copied
//! out earlier is untouched by a later overwrite.

use vstd::prelude::*;

verus! {

/// A memory slot that owns exactly one value.
pub struct Cell<T> {
    value: T,
}

impl<T> View for Cell<T> {
    type V = T;

    /// The value held in the slot.
    closed spec fn view(&self) -> T {
        self.value
    }
}

impl<T> Cell<T> {
    /// The cell that `set(new_value)` leaves behind.
    pub closed spec fn after_set(self, new_value: T) -> Cell<T> {
        Cell { value: new_value }
    }

    /// Takes ownership of `value`.
    pub fn new(value: T) -> (cell: Self)
        ensures
            cell@ == value,
    {
        Cell { value }
    }

    /// Overwrites the slot, whatever it held.
    pub fn set(&mut self, new_value: T)
        ensures
            *final(self) == old(self).after_set(new_value),
            final(self)@ == new_value,
        no_unwind
    {
        self.value = new_value;
    }

    /// Copies the current value out.
    pub fn get(&self) -> (value: T) where T: Copy
        ensures
            value == self@,
    {
        self.value
    }
}

/// What `get` reads right after `set(x)` is `x`, whatever the cell held
/// before.
pub proof fn lemma_get_after_set<T>(cell: Cell<T>, x: T)
    ensures
        cell.after_set(x)@ == x,
{
}

} // verus!
