//! Cells without borrow checks, alone and behind counted handles.
use vstd::prelude::*;
use crate::handles::HandleLedger;
use crate::rc::Inner;
use crate::rc::Rc;

verus! {

/// A cell for values that are shared within one thread without any borrow
/// bookkeeping.
///
/// Whoever holds the cell exclusively may write to it, and that is all that
/// is checked.
pub struct SharedCell<T> {
    value: T,
}

impl<T> View for SharedCell<T> {
    type V = T;

    closed spec fn view(&self) -> T {
        self.value
    }
}

impl<T> SharedCell<T> {
    /// Creates a new `SharedCell` instance with the specified initial value.
    pub fn new(value: T) -> (cell: SharedCell<T>)
        ensures
            cell@ == value,
    {
        SharedCell { value }
    }

    /// Returns a mutable reference to the contained value. What is written
    /// through it is what the cell holds afterwards.
    pub fn as_mut(&mut self) -> (r: &mut T)
        ensures
            *r == old(self)@,
            final(self)@ == *final(r),
    {
        &mut self.value
    }

    /// Returns a shared reference to the contained value.
    pub fn as_ref(&self) -> (r: &T)
        ensures
            *r == self@,
    {
        &self.value
    }
}

/// A handle on a value that is owned by all its handles and written without
/// borrow checks.
///
/// The value sits in a [`SharedCell`] in a counted allocation. Every handle
/// reads it, and writes to it, given the allocation. The allocation is
/// destroyed when the last handle is dropped.
pub struct JavaCell<T> {
    value: Rc<SharedCell<T>>,
}

impl<T> JavaCell<T> {
    /// The identity of this handle.
    pub closed spec fn id(&self) -> nat {
        self.value.id()
    }

    /// This handle is a live handle of `shared`.
    pub open spec fn is_live(&self, shared: &Inner<SharedCell<T>>) -> bool {
        shared.ledger().live.contains(self.id())
    }

    /// The value that the handles of `shared` refer to.
    pub open spec fn content(shared: &Inner<SharedCell<T>>) -> T {
        shared.value().unwrap()@
    }

    /// Creates a new `JavaCell` instance with the specified initial value,
    /// and the allocation that holds it. The count is 1.
    pub fn new(value: T) -> (made: (JavaCell<T>, Inner<SharedCell<T>>))
        ensures
            made.1.wf(),
            made.1.ledger() == HandleLedger::created(),
            made.1.value().is_some(),
            Self::content(&made.1) == value,
            made.0.id() == 0,
            made.0.is_live(&made.1),
    {
        let (handle, shared) = Rc::new(SharedCell::new(value));
        (JavaCell { value: handle }, shared)
    }

    /// Returns a shared reference to the contained value.
    pub fn deref<'a>(&self, shared: &'a Inner<SharedCell<T>>) -> (r: &'a T)
        requires
            shared.wf(),
            self.is_live(shared),
        ensures
            *r == Self::content(shared),
    {
        self.value.deref(shared).as_ref()
    }

    /// Returns a mutable reference to the contained value. What is written
    /// through it is what every handle reads afterwards.
    pub fn deref_mut<'a>(&mut self, shared: &'a mut Inner<SharedCell<T>>) -> (r: &'a mut T)
        requires
            old(shared).wf(),
            old(self).is_live(old(shared)),
        ensures
            *r == Self::content(old(shared)),
            final(shared).wf(),
            final(shared).value().is_some(),
            Self::content(final(shared)) == *final(r),
            final(shared).ledger() == old(shared).ledger(),
            *final(self) == *old(self),
    {
        proof {
            shared.lemma_live_has_value(self.id());
        }
        shared.value_mut().as_mut()
    }

    /// Returns a new `JavaCell` instance that refers to the same contained
    /// value, and adds one to the count.
    pub fn clone(&self, shared: &mut Inner<SharedCell<T>>) -> (handle: JavaCell<T>)
        requires
            old(shared).wf(),
            self.is_live(old(shared)),
            old(shared).ledger().count() < usize::MAX,
        ensures
            final(shared).wf(),
            final(shared).ledger() == old(shared).ledger().after_clone(),
            final(shared).value() == old(shared).value(),
            handle.id() == old(shared).ledger().issued,
            handle.is_live(final(shared)),
            self.is_live(final(shared)),
    {
        JavaCell { value: self.value.clone(shared) }
    }

    /// Gives the handle up and takes one from the count. When the last
    /// handle is dropped, the value is dropped as well.
    pub fn drop(self, shared: &mut Inner<SharedCell<T>>)
        requires
            old(shared).wf(),
            self.is_live(old(shared)),
        ensures
            final(shared).wf(),
            final(shared).ledger() == old(shared).ledger().after_drop(self.id()),
            old(shared).ledger().count() > 1 ==> final(shared).value() == old(shared).value(),
            old(shared).ledger().count() == 1 ==> final(shared).value().is_none(),
    {
        self.value.drop(shared)
    }
}

} // verus!
