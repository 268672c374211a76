//! A checked cell behind counted handles.
use vstd::prelude::*;
use crate::cell::RefCell;
use crate::guards::GuardLedger;
use crate::handles::HandleLedger;
use crate::rc::Inner;
use crate::rc::Rc;

verus! {

/// A reference-counted cell that allows for interior mutability.
///
/// Several `RcCell` handles share the ownership of one [`RefCell`]. Each of
/// them reaches the cell, given the allocation, and borrows from it under
/// the cell's own rules.
pub struct RcCell<T> {
    inner: Rc<RefCell<T>>,
}

impl<T> RcCell<T> {
    /// The identity of this handle.
    pub closed spec fn id(&self) -> nat {
        self.inner.id()
    }

    /// This handle is a live handle of `shared`.
    pub open spec fn is_live(&self, shared: &Inner<RefCell<T>>) -> bool {
        shared.ledger().live.contains(self.id())
    }

    /// The cell that the handles of `shared` refer to.
    pub open spec fn cell(shared: &Inner<RefCell<T>>) -> RefCell<T> {
        shared.value().unwrap()
    }

    /// Creates a new `RcCell<T>` instance containing the provided value in a
    /// cell with nothing borrowed, and the allocation that holds the cell.
    /// The count is 1.
    pub fn new(value: T) -> (made: (RcCell<T>, Inner<RefCell<T>>))
        ensures
            made.1.wf(),
            made.1.ledger() == HandleLedger::created(),
            made.1.value().is_some(),
            Self::cell(&made.1).wf(),
            Self::cell(&made.1).value() == value,
            Self::cell(&made.1).guards() == GuardLedger::created(),
            made.0.id() == 0,
            made.0.is_live(&made.1),
    {
        let (handle, shared) = Rc::new(RefCell::new(value));
        (RcCell { inner: handle }, shared)
    }

    /// Dereferences the `RcCell<T>` instance to the underlying `RefCell<T>`.
    pub fn deref<'a>(&self, shared: &'a Inner<RefCell<T>>) -> (r: &'a RefCell<T>)
        requires
            shared.wf(),
            self.is_live(shared),
        ensures
            *r == Self::cell(shared),
    {
        self.inner.deref(shared)
    }

    /// Dereferences the `RcCell<T>` instance to the underlying `RefCell<T>`,
    /// to borrow from it. The cell as it is left is the cell that every
    /// handle reaches afterwards.
    pub fn deref_mut<'a>(&self, shared: &'a mut Inner<RefCell<T>>) -> (r: &'a mut RefCell<T>)
        requires
            old(shared).wf(),
            self.is_live(old(shared)),
        ensures
            *r == Self::cell(old(shared)),
            final(shared).wf(),
            final(shared).value() == Some(*final(r)),
            final(shared).ledger() == old(shared).ledger(),
    {
        proof {
            shared.lemma_live_has_value(self.id());
        }
        shared.value_mut()
    }

    /// Clones the `RcCell<T>` instance, creating a new instance that shares
    /// ownership of the same value, and adds one to the count.
    pub fn clone(&self, shared: &mut Inner<RefCell<T>>) -> (handle: RcCell<T>)
        requires
            old(shared).wf(),
            self.is_live(old(shared)),
            old(shared).ledger().count() < usize::MAX,
        ensures
            final(shared).wf(),
            final(shared).ledger() == old(shared).ledger().after_clone(),
            final(shared).value() == old(shared).value(),
            handle.id() == old(shared).ledger().issued,
            handle.is_live(final(shared)),
            self.is_live(final(shared)),
    {
        RcCell { inner: self.inner.clone(shared) }
    }

    /// Gives the handle up and takes one from the count. When the last
    /// handle is dropped, the cell is dropped with its value.
    pub fn drop(self, shared: &mut Inner<RefCell<T>>)
        requires
            old(shared).wf(),
            self.is_live(old(shared)),
        ensures
            final(shared).wf(),
            final(shared).ledger() == old(shared).ledger().after_drop(self.id()),
            old(shared).ledger().count() > 1 ==> final(shared).value() == old(shared).value(),
            old(shared).ledger().count() == 1 ==> final(shared).value().is_none(),
    {
        self.inner.drop(shared)
    }
}

} // verus!
