//! One value on the heap, created and destroyed by explicit calls.
use vstd::prelude::*;

verus! {

/// A heap allocation that holds at most one value of type `T`.
///
/// The cell is the building block below the counted handles and the checked
/// cell. It checks nothing by itself: every operation states in its
/// precondition which stage of the lifecycle it needs, and the layers above
/// see to it.
///
/// The lifecycle has three stages. A new cell is allocated and holds a value.
/// [`take`](HeapCell::take) and [`drop`](HeapCell::drop) leave it allocated
/// but vacant, the second by running the value's finalizer.
/// [`dealloc`](HeapCell::dealloc) gives the memory back, and
/// [`drop_n_dealloc`](HeapCell::drop_n_dealloc) does both steps at once.
pub struct HeapCell<T> {
    inner: Option<Box<Option<T>>>,
    runs: Ghost<nat>,
}

impl<T> HeapCell<T> {
    /// The value that the cell holds, if any.
    pub closed spec fn value(&self) -> Option<T> {
        match self.inner {
            Some(slot) => *slot,
            None => None,
        }
    }

    /// The backing memory has not been given back.
    pub closed spec fn is_allocated(&self) -> bool {
        self.inner.is_some()
    }

    /// How often this cell has run a value's finalizer.
    pub closed spec fn finalizer_runs(&self) -> nat {
        self.runs@
    }

    /// A value can only sit in memory that is allocated.
    pub proof fn lemma_value_is_allocated(&self)
        ensures
            self.value().is_some() ==> self.is_allocated(),
    {
    }

    /// Creates a new `HeapCell` containing the given value.
    pub fn new(val: T) -> (cell: Self)
        ensures
            cell.value() == Some(val),
            cell.is_allocated(),
            cell.finalizer_runs() == 0,
    {
        HeapCell { inner: Some(Box::new(Some(val))), runs: Ghost(0) }
    }

    /// A shared reference to the value.
    pub fn as_ref(&self) -> (r: &T)
        requires
            self.value().is_some(),
        ensures
            *r == self.value().unwrap(),
    {
        match &self.inner {
            Some(slot) => match &**slot {
                Some(val) => val,
                None => unreached(),
            },
            None => unreached(),
        }
    }

    /// An exclusive reference to the value. What is written through it is
    /// what the cell holds afterwards.
    pub fn as_mut(&mut self) -> (r: &mut T)
        requires
            old(self).value().is_some(),
        ensures
            *r == old(self).value().unwrap(),
            final(self).value() == Some(*final(r)),
            final(self).is_allocated(),
            final(self).finalizer_runs() == old(self).finalizer_runs(),
    {
        match &mut self.inner {
            Some(slot) => match &mut **slot {
                Some(val) => val,
                None => unreached(),
            },
            None => unreached(),
        }
    }

    /// Moves the value out and leaves the cell vacant. The memory stays
    /// allocated and no finalizer runs.
    pub fn take(&mut self) -> (val: T)
        requires
            old(self).value().is_some(),
        ensures
            val == old(self).value().unwrap(),
            final(self).value().is_none(),
            final(self).is_allocated(),
            final(self).finalizer_runs() == old(self).finalizer_runs(),
    {
        match &mut self.inner {
            Some(slot) => match (**slot).take() {
                Some(val) => val,
                None => unreached(),
            },
            None => unreached(),
        }
    }

    /// Replaces the wrapped value with `val` and returns the previous one.
    pub fn replace(&mut self, val: T) -> (prev: T)
        requires
            old(self).value().is_some(),
        ensures
            prev == old(self).value().unwrap(),
            final(self).value() == Some(val),
            final(self).is_allocated(),
            final(self).finalizer_runs() == old(self).finalizer_runs(),
    {
        let mut val = val;
        core::mem::swap(self.as_mut(), &mut val);
        val
    }

    /// Creates a new cell wrapping a clone of the value.
    pub fn clone_inner(&self) -> (cell: HeapCell<T>) where T: Clone
        requires
            self.value().is_some(),
        ensures
            cell.value().is_some(),
            cloned(self.value().unwrap(), cell.value().unwrap()),
            cell.is_allocated(),
            cell.finalizer_runs() == 0,
    {
        HeapCell::new(self.as_ref().clone())
    }

    /// Runs the value's finalizer and leaves the cell vacant. The memory
    /// stays allocated.
    pub fn drop(&mut self)
        requires
            old(self).value().is_some(),
        ensures
            final(self).value().is_none(),
            final(self).is_allocated(),
            final(self).finalizer_runs() == old(self).finalizer_runs() + 1,
    {
        match &mut self.inner {
            Some(slot) => {
                **slot = None;
            },
            None => {},
        }
        self.runs = Ghost(self.runs@ + 1);
    }

    /// Gives the memory back. A value that is still in the cell is lost
    /// without its finalizer having run.
    pub fn dealloc(&mut self)
        requires
            old(self).is_allocated(),
        ensures
            final(self).value().is_none(),
            !final(self).is_allocated(),
            final(self).finalizer_runs() == old(self).finalizer_runs(),
    {
        match self.inner.take() {
            Some(slot) => {
                let _lost = core::mem::ManuallyDrop::new(*slot);
            },
            None => {},
        }
    }

    /// Runs the value's finalizer, then gives the memory back.
    pub fn drop_n_dealloc(&mut self)
        requires
            old(self).value().is_some(),
        ensures
            final(self).value().is_none(),
            !final(self).is_allocated(),
            final(self).finalizer_runs() == old(self).finalizer_runs() + 1,
    {
        self.inner = None;
        self.runs = Ghost(self.runs@ + 1);
    }
}

} // verus!
