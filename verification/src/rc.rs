//! Counted handles on one allocation, for use within one thread.
use vstd::prelude::*;
use crate::handles::HandleLedger;
use crate::handles::lemma_clone_wf;
use crate::handles::lemma_created_wf;
use crate::handles::lemma_drop_wf;
use crate::heap::HeapCell;

verus! {

/// A counted allocation: a value on the heap and, next to it, the number of
/// handles that refer to it.
///
/// The allocation is made by [`Rc::new`] together with its first handle. It
/// is live while its count is at least 1. The drop that brings the count to
/// zero destroys it: the value's finalizer runs and the memory is given back.
/// That happens once, and nothing can be done with the allocation afterwards,
/// because every operation asks for a live handle.
pub struct Inner<T> {
    val: HeapCell<T>,
    count: usize,
    live: Ghost<Set<nat>>,
    issued: Ghost<nat>,
    marker: core::marker::PhantomData<std::rc::Rc<()>>,
}

/// A handle on a counted allocation.
///
/// A handle is a token that cannot be copied. [`Rc::clone`] makes another one
/// and counts it; [`Rc::drop`] consumes one and counts it off. Handles, like
/// the allocation, stay in the thread that made them.
pub struct Rc<T> {
    id: Ghost<nat>,
    marker: core::marker::PhantomData<std::rc::Rc<T>>,
}

impl<T> Inner<T> {
    /// The handles of this allocation and the runs of its finalizer.
    pub closed spec fn ledger(&self) -> HandleLedger {
        HandleLedger {
            live: self.live@,
            issued: self.issued@,
            finalized: self.val.finalizer_runs(),
        }
    }

    /// The value, while the allocation is live.
    pub closed spec fn value(&self) -> Option<T> {
        self.val.value()
    }

    /// The count is the number of live handles, and the allocation holds its
    /// value, in memory of its own, exactly while there is one.
    pub closed spec fn wf(&self) -> bool {
        &&& self.ledger().wf()
        &&& self.count == self.live@.len()
        &&& self.val.value().is_some() <==> self.count > 0
        &&& self.val.is_allocated() <==> self.count > 0
    }

    /// A live allocation holds its value; a destroyed one holds none, and its
    /// finalizer has run once.
    pub proof fn lemma_live_or_destroyed(&self)
        requires
            self.wf(),
        ensures
            self.ledger().wf(),
            self.ledger().count() > 0 <==> self.value().is_some(),
            self.ledger().count() > 0 <==> self.ledger().finalized == 0,
            self.ledger().count() == 0 <==> self.ledger().finalized == 1,
    {
        if self.live@.is_empty() {
            assert(self.live@.len() == 0);
        } else {
            assert(self.live@.len() != 0);
        }
    }

    /// A handle with a live identity means that the count is not zero.
    proof fn lemma_counted(&self, id: nat)
        requires
            self.wf(),
            self.live@.contains(id),
        ensures
            self.count > 0,
            self.val.value().is_some(),
    {
        if self.live@.len() == 0 {
            self.live@.lemma_len0_is_empty();
        }
    }

    /// A new allocation for `val`, counted once for the handle that is about
    /// to be made.
    fn new(val: T) -> (inner: Self)
        ensures
            inner.wf(),
            inner.ledger() == HandleLedger::created(),
            inner.value() == Some(val),
    {
        proof {
            lemma_created_wf();
        }
        Inner {
            val: HeapCell::new(val),
            count: 1,
            live: Ghost(HandleLedger::created().live),
            issued: Ghost(1),
            marker: core::marker::PhantomData,
        }
    }

    /// The value of a live allocation.
    pub(crate) fn value_ref(&self) -> (r: &T)
        requires
            self.value().is_some(),
        ensures
            self.value() == Some(*r),
    {
        self.val.as_ref()
    }

    /// Counts the handle `id` off and returns the count that is left.
    fn decrement(&mut self, Ghost(id): Ghost<nat>) -> (left: usize)
        requires
            old(self).ledger().wf(),
            old(self).count == old(self).live@.len(),
            old(self).live@.contains(id),
        ensures
            left == old(self).count - 1,
            final(self).count == left,
            final(self).live@ == old(self).live@.remove(id),
            final(self).issued@ == old(self).issued@,
            final(self).val == old(self).val,
    {
        proof {
            lemma_drop_wf(self.ledger(), id);
        }
        self.count = self.count - 1;
        self.live = Ghost(self.live@.remove(id));
        self.count
    }

    /// Counts one more handle and gives it the next identity.
    fn increment(&mut self)
        requires
            old(self).wf(),
            old(self).count > 0,
            old(self).count < usize::MAX,
        ensures
            final(self).wf(),
            final(self).ledger() == old(self).ledger().after_clone(),
            final(self).value() == old(self).value(),
    {
        proof {
            lemma_clone_wf(self.ledger());
        }
        self.count = self.count + 1;
        self.live = Ghost(self.live@.insert(self.issued@));
        self.issued = Ghost(self.issued@ + 1);
    }

    /// A live handle means a live allocation, which holds its value.
    pub proof fn lemma_live_has_value(&self, id: nat)
        requires
            self.wf(),
            self.ledger().live.contains(id),
        ensures
            self.value().is_some(),
            self.ledger().count() > 0,
    {
        self.lemma_counted(id);
    }

    /// The value of a live allocation, to be written by whoever holds the
    /// allocation exclusively. The handles are left as they are.
    pub(crate) fn value_mut(&mut self) -> (r: &mut T)
        requires
            old(self).wf(),
            old(self).value().is_some(),
        ensures
            old(self).value() == Some(*r),
            final(self).value() == Some(*final(r)),
            final(self).ledger() == old(self).ledger(),
            final(self).wf(),
    {
        self.val.as_mut()
    }

    /// The number of live handles.
    pub fn count(&self) -> (n: usize)
        requires
            self.wf(),
        ensures
            n == self.ledger().count(),
    {
        self.count
    }
}

impl<T> Rc<T> {
    /// The identity of this handle.
    pub closed spec fn id(&self) -> nat {
        self.id@
    }

    /// This handle is a live handle of `inner`.
    pub open spec fn is_live(&self, inner: &Inner<T>) -> bool {
        inner.ledger().live.contains(self.id())
    }

    /// Puts `val` into a new counted allocation and returns the first handle
    /// with it. The count is 1.
    pub fn new(val: T) -> (made: (Rc<T>, Inner<T>))
        ensures
            made.1.wf(),
            made.1.ledger() == HandleLedger::created(),
            made.1.value() == Some(val),
            made.0.id() == 0,
            made.0.is_live(&made.1),
    {
        let inner = Inner::new(val);
        (Rc { id: Ghost(0), marker: core::marker::PhantomData }, inner)
    }

    /// Makes another handle on the same allocation and adds one to the count.
    /// The value is not cloned.
    pub fn clone(&self, inner: &mut Inner<T>) -> (handle: Rc<T>)
        requires
            old(inner).wf(),
            self.is_live(old(inner)),
            old(inner).ledger().count() < usize::MAX,
        ensures
            final(inner).wf(),
            final(inner).ledger() == old(inner).ledger().after_clone(),
            final(inner).value() == old(inner).value(),
            handle.id() == old(inner).ledger().issued,
            handle.is_live(final(inner)),
            self.is_live(final(inner)),
    {
        let ghost id = inner.issued@;
        proof {
            inner.lemma_counted(self.id@);
        }
        inner.increment();
        Rc { id: Ghost(id), marker: core::marker::PhantomData }
    }

    /// The value that this handle refers to.
    pub fn deref<'a>(&self, inner: &'a Inner<T>) -> (r: &'a T)
        requires
            inner.wf(),
            self.is_live(inner),
        ensures
            inner.value() == Some(*r),
    {
        proof {
            inner.lemma_counted(self.id@);
        }
        inner.value_ref()
    }

    /// The value that this handle refers to.
    pub fn as_ref<'a>(&self, inner: &'a Inner<T>) -> (r: &'a T)
        requires
            inner.wf(),
            self.is_live(inner),
        ensures
            inner.value() == Some(*r),
    {
        self.deref(inner)
    }

    /// Gives the handle up and takes one from the count. If that leaves no
    /// handle, the allocation is destroyed: the finalizer of the value runs
    /// and the memory is given back.
    pub fn drop(self, inner: &mut Inner<T>)
        requires
            old(inner).wf(),
            self.is_live(old(inner)),
        ensures
            final(inner).wf(),
            final(inner).ledger() == old(inner).ledger().after_drop(self.id()),
            old(inner).ledger().count() > 1 ==> final(inner).value() == old(inner).value(),
            old(inner).ledger().count() == 1 ==> final(inner).value().is_none(),
    {
        proof {
            lemma_drop_wf(inner.ledger(), self.id@);
            inner.lemma_counted(self.id@);
        }
        if inner.decrement(Ghost(self.id@)) == 0 {
            inner.val.drop_n_dealloc();
            proof {
                inner.live@.lemma_len0_is_empty();
            }
        } else {
            proof {
                if inner.live@.is_empty() {
                    assert(inner.live@.len() == 0);
                }
            }
        }
    }
}

} // verus!
