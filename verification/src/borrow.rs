//! A cloneable handle on a value that any of its handles may write.
use vstd::prelude::*;
use crate::handles::HandleLedger;
use crate::rc::Inner;
use crate::rc::Rc;
use crate::shared::SharedCell;

verus! {

/// A shared reference to `T` that may be used to modify `T`.
///
/// All handles of one allocation own the value together. Each of them reads
/// it and writes to it, given the allocation, and what one has written the
/// others read. No borrow state is kept; use a
/// [`RefCell`](crate::cell::RefCell) where one is wanted.
pub struct Borrow<T> {
    value: Rc<SharedCell<T>>,
}

impl<T> Borrow<T> {
    /// The identity of this handle.
    pub closed spec fn id(&self) -> nat {
        self.value.id()
    }

    /// This handle is a live handle of `shared`.
    pub open spec fn is_live(&self, shared: &Inner<SharedCell<T>>) -> bool {
        shared.ledger().live.contains(self.id())
    }

    /// The value that the handles of `shared` refer to.
    pub open spec fn content(shared: &Inner<SharedCell<T>>) -> T {
        shared.value().unwrap()@
    }

    /// Creates a new `Borrow` instance with the specified initial value, and
    /// the allocation that holds it. The count is 1.
    pub fn new(value: T) -> (made: (Borrow<T>, Inner<SharedCell<T>>))
        ensures
            made.1.wf(),
            made.1.ledger() == HandleLedger::created(),
            made.1.value().is_some(),
            Self::content(&made.1) == value,
            made.0.id() == 0,
            made.0.is_live(&made.1),
    {
        let (handle, shared) = Rc::new(SharedCell::new(value));
        (Borrow { value: handle }, shared)
    }

    /// Returns a shared reference to the contained value.
    pub fn get_ref<'a>(&self, shared: &'a Inner<SharedCell<T>>) -> (r: &'a T)
        requires
            shared.wf(),
            self.is_live(shared),
        ensures
            *r == Self::content(shared),
    {
        self.value.deref(shared).as_ref()
    }

    /// Returns a mutable reference to the contained value. What is written
    /// through it is what every handle reads afterwards.
    pub fn get_mut<'a>(&self, shared: &'a mut Inner<SharedCell<T>>) -> (r: &'a mut T)
        requires
            old(shared).wf(),
            self.is_live(old(shared)),
        ensures
            *r == Self::content(old(shared)),
            final(shared).wf(),
            final(shared).value().is_some(),
            Self::content(final(shared)) == *final(r),
            final(shared).ledger() == old(shared).ledger(),
    {
        proof {
            shared.lemma_live_has_value(self.id());
        }
        shared.value_mut().as_mut()
    }

    /// Returns a shared reference to the contained value.
    pub fn as_ref<'a>(&self, shared: &'a Inner<SharedCell<T>>) -> (r: &'a T)
        requires
            shared.wf(),
            self.is_live(shared),
        ensures
            *r == Self::content(shared),
    {
        self.get_ref(shared)
    }

    /// Returns a mutable reference to the contained value. What is written
    /// through it is what every handle reads afterwards.
    pub fn as_mut<'a>(&mut self, shared: &'a mut Inner<SharedCell<T>>) -> (r: &'a mut T)
        requires
            old(shared).wf(),
            old(self).is_live(old(shared)),
        ensures
            *r == Self::content(old(shared)),
            final(shared).wf(),
            final(shared).value().is_some(),
            Self::content(final(shared)) == *final(r),
            final(shared).ledger() == old(shared).ledger(),
            *final(self) == *old(self),
    {
        self.get_mut(shared)
    }

    /// Returns a shared reference to the contained value.
    pub fn deref<'a>(&self, shared: &'a Inner<SharedCell<T>>) -> (r: &'a T)
        requires
            shared.wf(),
            self.is_live(shared),
        ensures
            *r == Self::content(shared),
    {
        self.get_ref(shared)
    }

    /// Returns a mutable reference to the contained value. What is written
    /// through it is what every handle reads afterwards.
    pub fn deref_mut<'a>(&mut self, shared: &'a mut Inner<SharedCell<T>>) -> (r: &'a mut T)
        requires
            old(shared).wf(),
            old(self).is_live(old(shared)),
        ensures
            *r == Self::content(old(shared)),
            final(shared).wf(),
            final(shared).value().is_some(),
            Self::content(final(shared)) == *final(r),
            final(shared).ledger() == old(shared).ledger(),
            *final(self) == *old(self),
    {
        self.get_mut(shared)
    }

    /// Returns a new `Borrow` instance that refers to the same contained
    /// value, and adds one to the count. The value is not cloned.
    pub fn clone(&self, shared: &mut Inner<SharedCell<T>>) -> (handle: Borrow<T>)
        requires
            old(shared).wf(),
            self.is_live(old(shared)),
            old(shared).ledger().count() < usize::MAX,
        ensures
            final(shared).wf(),
            final(shared).ledger() == old(shared).ledger().after_clone(),
            final(shared).value() == old(shared).value(),
            handle.id() == old(shared).ledger().issued,
            handle.is_live(final(shared)),
            self.is_live(final(shared)),
    {
        Borrow { value: self.value.clone(shared) }
    }

    /// Gives the handle up and takes one from the count. When all handles
    /// are dropped, the value is dropped as well.
    pub fn drop(self, shared: &mut Inner<SharedCell<T>>)
        requires
            old(shared).wf(),
            self.is_live(old(shared)),
        ensures
            final(shared).wf(),
            final(shared).ledger() == old(shared).ledger().after_drop(self.id()),
            old(shared).ledger().count() > 1 ==> final(shared).value() == old(shared).value(),
            old(shared).ledger().count() == 1 ==> final(shared).value().is_none(),
    {
        self.value.drop(shared)
    }
}

} // verus!
