//! A cell with borrow rules that are checked while the program runs.
use vstd::prelude::*;
use crate::flag::BorrowFlag;
use crate::guards::GuardLedger;
use crate::guards::lemma_borrow_wf;
use crate::guards::lemma_borrow_mut_wf;
use crate::guards::lemma_release_wf;
use crate::guards::lemma_release_mut_wf;
use crate::guards::lemma_state_reads;
use crate::heap::HeapCell;

verus! {

/// A mutable memory location with dynamically checked borrow rules.
///
/// The cell owns one allocation and one borrow flag. Reads go through a
/// shared guard, [`Ref`], and writes through an exclusive guard, [`RefMut`].
/// Any number of shared guards may be outstanding at a time, or one exclusive
/// guard, never both.
///
/// A guard is a token that cannot be copied. It is handed out by the cell and
/// handed back to it by [`Ref::drop`] or [`RefMut::drop`], which consume it,
/// so no guard is released twice. The cell belongs to one thread.
pub struct RefCell<T> {
    val: HeapCell<T>,
    flag: BorrowFlag,
    guards: Ghost<GuardLedger>,
    marker: core::marker::PhantomData<std::rc::Rc<()>>,
}

/// A shared guard of a [`RefCell`]: the right to read its value.
pub struct Ref<T> {
    id: Ghost<nat>,
    marker: core::marker::PhantomData<std::rc::Rc<T>>,
}

/// An exclusive guard of a [`RefCell`]: the right to read and write its
/// value.
pub struct RefMut<T> {
    id: Ghost<nat>,
    marker: core::marker::PhantomData<std::rc::Rc<T>>,
}

impl<T> RefCell<T> {
    /// The value in the cell.
    pub closed spec fn value(&self) -> T {
        self.val.value().unwrap()
    }

    /// The guards that are outstanding.
    pub closed spec fn guards(&self) -> GuardLedger {
        self.guards@
    }

    /// The borrow state: 0 when nothing is borrowed, N > 0 under N shared
    /// guards, -1 under an exclusive guard.
    pub closed spec fn state(&self) -> int {
        self.flag@
    }

    /// The cell holds a value and its borrow state stands for the guards
    /// that are outstanding.
    pub closed spec fn wf(&self) -> bool {
        &&& self.val.value().is_some()
        &&& self.guards@.wf()
        &&& self.flag@ == self.guards@.state()
    }

    /// The borrow state is the one that the ledger of guards gives.
    pub proof fn lemma_state(&self)
        requires
            self.wf(),
        ensures
            self.state() == self.guards().state(),
            self.guards().wf(),
    {
    }

    /// The value may be taken out or replaced exactly when the borrow state
    /// is 0, which is when no guard is outstanding.
    pub proof fn lemma_owned_when_unborrowed(&self)
        requires
            self.wf(),
        ensures
            self.guards().is_unborrowed() <==> self.state() == 0,
            self.guards().is_unborrowed() <==> self.guards().writer.is_none()
                && self.guards().readers.len() == 0,
    {
        lemma_state_reads(self.guards@);
    }

    /// Creates a new `RefCell` containing the given value, with nothing
    /// borrowed.
    pub fn new(val: T) -> (cell: Self)
        ensures
            cell.wf(),
            cell.value() == val,
            cell.guards() == GuardLedger::created(),
            cell.state() == 0,
    {
        RefCell {
            val: HeapCell::new(val),
            flag: BorrowFlag::new(),
            guards: Ghost(GuardLedger::created()),
            marker: core::marker::PhantomData,
        }
    }

    /// Tries to borrow the value immutably. Returns `None` if the value is
    /// currently borrowed mutably, and leaves the cell as it is then.
    pub fn try_borrow(&mut self) -> (guard: Option<Ref<T>>)
        requires
            old(self).wf(),
            old(self).state() < isize::MAX,
        ensures
            final(self).wf(),
            final(self).value() == old(self).value(),
            guard.is_some() <==> old(self).guards().permits_shared(),
            guard.is_none() <==> old(self).state() == -1,
            guard matches Some(g) ==> g.id() == old(self).guards().issued,
            guard.is_some() ==> final(self).guards() == old(self).guards().after_borrow(),
            guard.is_some() ==> final(self).state() == old(self).state() + 1,
            guard.is_none() ==> final(self).guards() == old(self).guards(),
            guard.is_none() ==> final(self).state() == old(self).state(),
    {
        proof {
            lemma_state_reads(self.guards@);
        }
        if self.flag.can_borrow() {
            proof {
                lemma_borrow_wf(self.guards@);
            }
            self.flag.borrow();
            let ghost id = self.guards@.issued;
            self.guards = Ghost(self.guards@.after_borrow());
            Some(Ref { id: Ghost(id), marker: core::marker::PhantomData })
        } else {
            None
        }
    }

    /// Borrows the value immutably.
    pub fn borrow(&mut self) -> (guard: Ref<T>)
        requires
            old(self).wf(),
            old(self).guards().permits_shared(),
            old(self).state() < isize::MAX,
        ensures
            final(self).wf(),
            final(self).value() == old(self).value(),
            guard.id() == old(self).guards().issued,
            final(self).guards() == old(self).guards().after_borrow(),
            final(self).state() == old(self).state() + 1,
    {
        self.try_borrow().expect("T cannot be borrowed immutably while T is borrowed mutably")
    }

    /// Tries to borrow the value mutably. Returns `None` if the value is
    /// currently borrowed, mutably or immutably, and leaves the cell as it is
    /// then.
    pub fn try_borrow_mut(&mut self) -> (guard: Option<RefMut<T>>)
        requires
            old(self).wf(),
        ensures
            final(self).wf(),
            final(self).value() == old(self).value(),
            guard.is_some() <==> old(self).guards().permits_exclusive(),
            guard.is_none() <==> old(self).state() != 0,
            guard matches Some(g) ==> g.id() == old(self).guards().issued,
            guard.is_some() ==> final(self).guards() == old(self).guards().after_borrow_mut(),
            guard.is_some() ==> final(self).state() == -1,
            guard.is_none() ==> final(self).guards() == old(self).guards(),
            guard.is_none() ==> final(self).state() == old(self).state(),
    {
        proof {
            lemma_state_reads(self.guards@);
        }
        if self.flag.can_borrow_mut() {
            proof {
                lemma_borrow_mut_wf(self.guards@);
            }
            self.flag.borrow_mut();
            let ghost id = self.guards@.issued;
            self.guards = Ghost(self.guards@.after_borrow_mut());
            Some(RefMut { id: Ghost(id), marker: core::marker::PhantomData })
        } else {
            None
        }
    }

    /// Borrows the value mutably.
    pub fn borrow_mut(&mut self) -> (guard: RefMut<T>)
        requires
            old(self).wf(),
            old(self).guards().permits_exclusive(),
        ensures
            final(self).wf(),
            final(self).value() == old(self).value(),
            guard.id() == old(self).guards().issued,
            final(self).guards() == old(self).guards().after_borrow_mut(),
            final(self).state() == -1,
    {
        self.try_borrow_mut().expect(
            "T cannot be borrowed mutably while T is borrowed mutably or immutably",
        )
    }

    /// Moves the value out of the cell, which ends with that.
    pub fn take(self) -> (val: T)
        requires
            self.wf(),
            self.guards().is_unborrowed(),
        ensures
            val == self.value(),
    {
        let mut cell = self;
        let val = cell.val.take();
        cell.val.dealloc();
        val
    }

    /// Replaces the wrapped value with a new one and returns the old value.
    /// The exclusive guard that this takes is released before the call
    /// returns.
    pub fn replace(&mut self, val: T) -> (prev: T)
        requires
            old(self).wf(),
            old(self).guards().is_unborrowed(),
        ensures
            final(self).wf(),
            prev == old(self).value(),
            final(self).value() == val,
            final(self).guards() == old(self).guards().after_borrow_mut().after_release_mut(),
            final(self).guards().is_unborrowed(),
            final(self).state() == 0,
    {
        let mut guard = self.borrow_mut();
        let prev = guard.replace(self, val);
        guard.drop(self);
        prev
    }

    /// A new cell with a clone of the value and nothing borrowed. The guards
    /// of this cell have no part in the new one.
    pub fn clone(&self) -> (cell: Self) where T: Clone
        requires
            self.wf(),
        ensures
            cell.wf(),
            cloned(self.value(), cell.value()),
            cell.guards() == GuardLedger::created(),
            cell.state() == 0,
    {
        RefCell::new(self.val.as_ref().clone())
    }
}

impl<T> Ref<T> {
    /// The identity of this guard.
    pub closed spec fn id(&self) -> nat {
        self.id@
    }

    /// This guard is outstanding at `cell`.
    pub open spec fn is_outstanding(&self, cell: &RefCell<T>) -> bool {
        cell.guards().readers.contains(self.id())
    }

    /// The value of the cell that this guard was handed out by.
    pub fn deref<'a>(&self, cell: &'a RefCell<T>) -> (r: &'a T)
        requires
            cell.wf(),
            self.is_outstanding(cell),
        ensures
            *r == cell.value(),
    {
        cell.val.as_ref()
    }

    /// The value of the cell that this guard was handed out by.
    pub fn as_ref<'a>(&self, cell: &'a RefCell<T>) -> (r: &'a T)
        requires
            cell.wf(),
            self.is_outstanding(cell),
        ensures
            *r == cell.value(),
    {
        self.deref(cell)
    }

    /// Releases the guard: one shared borrow less. Another shared guard may
    /// be taken afterwards.
    pub fn drop(self, cell: &mut RefCell<T>)
        requires
            old(cell).wf(),
            self.is_outstanding(old(cell)),
        ensures
            final(cell).wf(),
            final(cell).value() == old(cell).value(),
            final(cell).guards() == old(cell).guards().after_release(self.id()),
            final(cell).state() == old(cell).state() - 1,
            final(cell).guards().permits_shared(),
    {
        proof {
            lemma_release_wf(cell.guards@, self.id@);
        }
        cell.flag.drop_borrow();
        cell.guards = Ghost(cell.guards@.after_release(self.id@));
    }
}

impl<T> RefMut<T> {
    /// The identity of this guard.
    pub closed spec fn id(&self) -> nat {
        self.id@
    }

    /// This guard is outstanding at `cell`.
    pub open spec fn is_outstanding(&self, cell: &RefCell<T>) -> bool {
        cell.guards().writer == Some(self.id())
    }

    /// Replaces the value of the cell with `val` and returns the old one.
    pub fn replace(&mut self, cell: &mut RefCell<T>, val: T) -> (prev: T)
        requires
            old(cell).wf(),
            old(self).is_outstanding(old(cell)),
        ensures
            final(cell).wf(),
            prev == old(cell).value(),
            final(cell).value() == val,
            final(cell).guards() == old(cell).guards(),
            final(cell).state() == old(cell).state(),
            *final(self) == *old(self),
    {
        cell.val.replace(val)
    }

    /// The value of the cell that this guard was handed out by.
    pub fn deref<'a>(&self, cell: &'a RefCell<T>) -> (r: &'a T)
        requires
            cell.wf(),
            self.is_outstanding(cell),
        ensures
            *r == cell.value(),
    {
        cell.val.as_ref()
    }

    /// The value of the cell that this guard was handed out by.
    pub fn as_ref<'a>(&self, cell: &'a RefCell<T>) -> (r: &'a T)
        requires
            cell.wf(),
            self.is_outstanding(cell),
        ensures
            *r == cell.value(),
    {
        self.deref(cell)
    }

    /// The value of the cell, to be written. What is written is what the
    /// cell holds afterwards; its guards stay as they are.
    pub fn deref_mut<'a>(&mut self, cell: &'a mut RefCell<T>) -> (r: &'a mut T)
        requires
            old(cell).wf(),
            old(self).is_outstanding(old(cell)),
        ensures
            *r == old(cell).value(),
            final(cell).wf(),
            final(cell).value() == *final(r),
            final(cell).guards() == old(cell).guards(),
            final(cell).state() == old(cell).state(),
            *final(self) == *old(self),
    {
        cell.val.as_mut()
    }

    /// The value of the cell, to be written. What is written is what the
    /// cell holds afterwards; its guards stay as they are.
    pub fn as_mut<'a>(&mut self, cell: &'a mut RefCell<T>) -> (r: &'a mut T)
        requires
            old(cell).wf(),
            old(self).is_outstanding(old(cell)),
        ensures
            *r == old(cell).value(),
            final(cell).wf(),
            final(cell).value() == *final(r),
            final(cell).guards() == old(cell).guards(),
            final(cell).state() == old(cell).state(),
            *final(self) == *old(self),
    {
        self.deref_mut(cell)
    }

    /// Releases the guard: nothing is borrowed any more. A guard of either
    /// kind may be taken afterwards.
    pub fn drop(self, cell: &mut RefCell<T>)
        requires
            old(cell).wf(),
            self.is_outstanding(old(cell)),
        ensures
            final(cell).wf(),
            final(cell).value() == old(cell).value(),
            final(cell).guards() == old(cell).guards().after_release_mut(),
            final(cell).state() == 0,
            final(cell).guards().is_unborrowed(),
    {
        proof {
            lemma_release_mut_wf(cell.guards@);
        }
        cell.flag.drop_borrow_mut();
        cell.guards = Ghost(cell.guards@.after_release_mut());
    }
}

} // verus!
