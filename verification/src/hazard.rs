//! A handle on a value that many threads may write, with nothing checked.
use vstd::prelude::*;
use crate::arc::Arc;
use crate::arc::Inner;
use crate::handles::HandleLedger;

verus! {

/// Use at your own risk!
///
/// A handle on a value in a counted allocation that may be sent to other
/// threads. Every handle reads the value and writes to it, given the
/// allocation; nothing is counted but the handles and nothing is locked, so
/// whoever gets hold of the allocation has the value.
pub struct HazardCell<T> {
    inner: Arc<T>,
}

impl<T> HazardCell<T> {
    /// The identity of this handle.
    pub closed spec fn id(&self) -> nat {
        self.inner.id()
    }

    /// This handle is a live handle of `shared`.
    pub open spec fn is_live(&self, shared: &Inner<T>) -> bool {
        shared.ledger().live.contains(self.id())
    }

    /// Puts `value` into a new counted allocation and returns the first
    /// handle with it. The count is 1.
    pub fn new(value: T) -> (made: (HazardCell<T>, Inner<T>))
        ensures
            made.1.wf(),
            made.1.ledger() == HandleLedger::created(),
            made.1.value() == Some(value),
            made.0.id() == 0,
            made.0.is_live(&made.1),
    {
        let (handle, shared) = Arc::new(value);
        (HazardCell { inner: handle }, shared)
    }

    /// A mutable reference to the value. What is written through it is what
    /// every handle reads afterwards.
    pub fn as_mut<'a>(&self, shared: &'a mut Inner<T>) -> (r: &'a mut T)
        requires
            old(shared).wf(),
            self.is_live(old(shared)),
        ensures
            old(shared).value() == Some(*r),
            final(shared).wf(),
            final(shared).value() == Some(*final(r)),
            final(shared).ledger() == old(shared).ledger(),
    {
        proof {
            shared.lemma_live_has_value(self.id());
        }
        shared.value_mut()
    }

    /// A shared reference to the value.
    pub fn as_ref<'a>(&self, shared: &'a Inner<T>) -> (r: &'a T)
        requires
            shared.wf(),
            self.is_live(shared),
        ensures
            shared.value() == Some(*r),
    {
        self.inner.deref(shared)
    }

    /// A shared reference to the value.
    pub fn deref<'a>(&self, shared: &'a Inner<T>) -> (r: &'a T)
        requires
            shared.wf(),
            self.is_live(shared),
        ensures
            shared.value() == Some(*r),
    {
        self.as_ref(shared)
    }

    /// A mutable reference to the value. What is written through it is what
    /// every handle reads afterwards.
    pub fn deref_mut<'a>(&mut self, shared: &'a mut Inner<T>) -> (r: &'a mut T)
        requires
            old(shared).wf(),
            old(self).is_live(old(shared)),
        ensures
            old(shared).value() == Some(*r),
            final(shared).wf(),
            final(shared).value() == Some(*final(r)),
            final(shared).ledger() == old(shared).ledger(),
            *final(self) == *old(self),
    {
        self.as_mut(shared)
    }

    /// Makes another handle on the same value and adds one to the count. The
    /// value is not cloned.
    pub fn clone(&self, shared: &mut Inner<T>) -> (handle: HazardCell<T>)
        requires
            old(shared).wf(),
            self.is_live(old(shared)),
            old(shared).ledger().count() < usize::MAX,
        ensures
            final(shared).wf(),
            final(shared).ledger() == old(shared).ledger().after_clone(),
            final(shared).value() == old(shared).value(),
            handle.id() == old(shared).ledger().issued,
            handle.is_live(final(shared)),
            self.is_live(final(shared)),
    {
        HazardCell { inner: self.inner.clone(shared) }
    }

    /// Gives the handle up and takes one from the count. When the last
    /// handle is dropped, the value is dropped as well.
    pub fn drop(self, shared: &mut Inner<T>)
        requires
            old(shared).wf(),
            self.is_live(old(shared)),
        ensures
            final(shared).wf(),
            final(shared).ledger() == old(shared).ledger().after_drop(self.id()),
            old(shared).ledger().count() > 1 ==> final(shared).value() == old(shared).value(),
            old(shared).ledger().count() == 1 ==> final(shared).value().is_none(),
    {
        self.inner.drop(shared)
    }
}

} // verus!
