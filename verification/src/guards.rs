//! The guards of a checked cell as a mathematical value, and the laws of the
//! borrow state.
use vstd::prelude::*;

verus! {

/// Which guards of a checked cell are outstanding.
///
/// Every guard has an identity, a natural number that is given out once.
/// `readers` holds the identities of the outstanding shared guards, `writer`
/// that of the outstanding exclusive guard, and `issued` is the number of
/// identities given out so far.
pub struct GuardLedger {
    pub readers: Set<nat>,
    pub writer: Option<nat>,
    pub issued: nat,
}

/// One step in the life of a checked cell: a shared guard is handed out, the
/// shared guard with the given identity is released, an exclusive guard is
/// handed out, or the exclusive guard is released.
pub enum GuardStep {
    Borrow,
    Release(nat),
    BorrowMut,
    ReleaseMut,
}

impl GuardLedger {
    /// The ledger is consistent: shared and exclusive guards never exist side
    /// by side, the shared guards are finitely many, and every outstanding
    /// guard has an identity that was given out.
    pub open spec fn wf(self) -> bool {
        &&& self.readers.finite()
        &&& self.writer.is_some() ==> self.readers.is_empty()
        &&& forall|id: nat| self.readers.contains(id) ==> id < self.issued
        &&& self.writer matches Some(id) ==> id < self.issued
    }

    /// The borrow state that stands for this ledger: 0 when nothing is
    /// borrowed, the number of shared guards when there are some, and -1 under
    /// an exclusive guard.
    pub open spec fn state(self) -> int {
        if self.writer.is_some() {
            -1
        } else {
            self.readers.len() as int
        }
    }

    /// No guard is outstanding.
    pub open spec fn is_unborrowed(self) -> bool {
        self.writer.is_none() && self.readers.is_empty()
    }

    /// A shared guard may be handed out: no exclusive guard is outstanding.
    pub open spec fn permits_shared(self) -> bool {
        self.writer.is_none()
    }

    /// An exclusive guard may be handed out: no guard is outstanding.
    pub open spec fn permits_exclusive(self) -> bool {
        self.is_unborrowed()
    }

    /// The ledger of a new cell.
    pub open spec fn created() -> GuardLedger {
        GuardLedger { readers: Set::empty(), writer: None, issued: 0 }
    }

    /// The ledger after a shared guard was handed out. The guard gets the
    /// identity `self.issued`.
    pub open spec fn after_borrow(self) -> GuardLedger {
        GuardLedger {
            readers: self.readers.insert(self.issued),
            writer: self.writer,
            issued: self.issued + 1,
        }
    }

    /// The ledger after the shared guard `id` was released.
    pub open spec fn after_release(self, id: nat) -> GuardLedger {
        GuardLedger { readers: self.readers.remove(id), writer: self.writer, issued: self.issued }
    }

    /// The ledger after an exclusive guard was handed out. The guard gets the
    /// identity `self.issued`.
    pub open spec fn after_borrow_mut(self) -> GuardLedger {
        GuardLedger { readers: self.readers, writer: Some(self.issued), issued: self.issued + 1 }
    }

    /// The ledger after the exclusive guard was released.
    pub open spec fn after_release_mut(self) -> GuardLedger {
        GuardLedger { readers: self.readers, writer: None, issued: self.issued }
    }

    /// The step can be taken: an acquire is permitted, or the guard that is
    /// released is outstanding.
    pub open spec fn permits(self, step: GuardStep) -> bool {
        match step {
            GuardStep::Borrow => self.permits_shared(),
            GuardStep::Release(id) => self.readers.contains(id),
            GuardStep::BorrowMut => self.permits_exclusive(),
            GuardStep::ReleaseMut => self.writer.is_some(),
        }
    }

    /// The ledger after the step.
    pub open spec fn after(self, step: GuardStep) -> GuardLedger {
        match step {
            GuardStep::Borrow => self.after_borrow(),
            GuardStep::Release(id) => self.after_release(id),
            GuardStep::BorrowMut => self.after_borrow_mut(),
            GuardStep::ReleaseMut => self.after_release_mut(),
        }
    }

    /// Each of the steps can be taken when its turn has come.
    pub open spec fn permits_all(self, steps: Seq<GuardStep>) -> bool
        decreases steps.len(),
    {
        steps.len() > 0 ==> self.permits(steps.first()) && self.after(steps.first()).permits_all(
            steps.drop_first(),
        )
    }

    /// The ledger after the steps, first to last.
    pub open spec fn after_all(self, steps: Seq<GuardStep>) -> GuardLedger
        decreases steps.len(),
    {
        if steps.len() == 0 {
            self
        } else {
            self.after(steps.first()).after_all(steps.drop_first())
        }
    }
}

/// The borrow state says who is outstanding: it is -1 exactly under an
/// exclusive guard, 0 exactly when no guard is outstanding, and otherwise the
/// number of shared guards.
pub proof fn lemma_state_reads(l: GuardLedger)
    requires
        l.wf(),
    ensures
        l.state() >= -1,
        l.state() == -1 <==> l.writer.is_some(),
        l.state() == 0 <==> l.is_unborrowed(),
        l.state() > 0 <==> l.writer.is_none() && !l.readers.is_empty(),
        l.state() >= 0 ==> l.state() == l.readers.len(),
{
    if l.readers.is_empty() {
        assert(l.readers.len() == 0);
    } else {
        assert(l.readers.len() != 0);
    }
}

/// When an acquire fails: a shared guard is refused exactly while an exclusive
/// guard is outstanding, and an exclusive guard is refused exactly while any
/// guard, shared or exclusive, is outstanding.
pub proof fn lemma_refusals(l: GuardLedger)
    requires
        l.wf(),
    ensures
        !l.permits_shared() <==> l.writer.is_some(),
        !l.permits_shared() <==> l.state() == -1,
        !l.permits_exclusive() <==> (l.writer.is_some() || l.readers.len() > 0),
        !l.permits_exclusive() <==> l.state() != 0,
{
    lemma_state_reads(l);
}

/// Handing out a shared guard where that is permitted keeps the ledger
/// consistent and moves the borrow state from N to N + 1.
pub proof fn lemma_borrow_wf(l: GuardLedger)
    requires
        l.wf(),
        l.permits_shared(),
    ensures
        l.after_borrow().wf(),
        l.after_borrow().state() == l.state() + 1,
        !l.readers.contains(l.issued),
{
}

/// Releasing an outstanding shared guard keeps the ledger consistent and
/// moves the borrow state from N to N - 1.
pub proof fn lemma_release_wf(l: GuardLedger, id: nat)
    requires
        l.wf(),
        l.readers.contains(id),
    ensures
        l.after_release(id).wf(),
        l.writer.is_none(),
        l.state() > 0,
        l.after_release(id).state() == l.state() - 1,
{
    assert(!l.readers.is_empty());
    lemma_state_reads(l);
}

/// Handing out an exclusive guard where that is permitted keeps the ledger
/// consistent and moves the borrow state from 0 to -1.
pub proof fn lemma_borrow_mut_wf(l: GuardLedger)
    requires
        l.wf(),
        l.permits_exclusive(),
    ensures
        l.state() == 0,
        l.after_borrow_mut().wf(),
        l.after_borrow_mut().state() == -1,
{
    lemma_state_reads(l);
}

/// Releasing the exclusive guard keeps the ledger consistent and moves the
/// borrow state from -1 to 0.
pub proof fn lemma_release_mut_wf(l: GuardLedger)
    requires
        l.wf(),
        l.writer.is_some(),
    ensures
        l.state() == -1,
        l.after_release_mut().wf(),
        l.after_release_mut().state() == 0,
        l.after_release_mut().is_unborrowed(),
{
    assert(l.readers.len() == 0);
}

/// A release leaves room for an acquire: after a shared guard is released
/// another shared guard is permitted, and after the exclusive guard is
/// released a guard of either kind is.
pub proof fn lemma_release_permits_acquire(l: GuardLedger, id: nat)
    requires
        l.wf(),
    ensures
        l.readers.contains(id) ==> l.after_release(id).permits_shared(),
        l.writer == Some(id) ==> l.after_release_mut().permits_shared()
            && l.after_release_mut().permits_exclusive(),
{
    if l.readers.contains(id) {
        lemma_release_wf(l, id);
    }
    if l.writer == Some(id) {
        lemma_release_mut_wf(l);
    }
}

/// One step moves the borrow state along the table and nowhere else: from N
/// to N + 1 and back for a shared guard, from 0 to -1 and back for the
/// exclusive guard.
pub proof fn lemma_step_moves(l: GuardLedger, step: GuardStep)
    requires
        l.wf(),
        l.permits(step),
    ensures
        l.after(step).wf(),
        step == GuardStep::Borrow ==> l.state() >= 0 && l.after(step).state() == l.state() + 1,
        step is Release ==> l.state() > 0 && l.after(step).state() == l.state() - 1,
        step == GuardStep::BorrowMut ==> l.state() == 0 && l.after(step).state() == -1,
        step == GuardStep::ReleaseMut ==> l.state() == -1 && l.after(step).state() == 0,
{
    lemma_state_reads(l);
    match step {
        GuardStep::Borrow => {
            lemma_borrow_wf(l);
        },
        GuardStep::Release(id) => {
            lemma_release_wf(l, id);
        },
        GuardStep::BorrowMut => {
            lemma_borrow_mut_wf(l);
        },
        GuardStep::ReleaseMut => {
            lemma_release_mut_wf(l);
        },
    }
}

/// Shared and exclusive guards never exist side by side: after any run of
/// steps, each permitted at its turn, the ledger is consistent, and the
/// borrow state is -1, 0 or the number of shared guards.
pub proof fn lemma_any_sequence(l: GuardLedger, steps: Seq<GuardStep>)
    requires
        l.wf(),
        l.permits_all(steps),
    ensures
        l.after_all(steps).wf(),
        l.after_all(steps).state() >= -1,
        !(l.after_all(steps).writer.is_some() && l.after_all(steps).readers.len() > 0),
    decreases steps.len(),
{
    if steps.len() == 0 {
        lemma_state_reads(l);
    } else {
        lemma_step_moves(l, steps.first());
        lemma_any_sequence(l.after(steps.first()), steps.drop_first());
    }
}

} // verus!
