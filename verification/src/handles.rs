//! The bookkeeping of a counted allocation as a mathematical value, and the
//! laws of its lifecycle.
use vstd::prelude::*;

verus! {

/// Who holds a counted allocation, and how often its finalizer has run.
///
/// Every handle has an identity, a natural number that is given out once.
/// `live` holds the identities of the handles that exist, `issued` is the
/// number of identities given out so far, and `finalized` counts the runs of
/// the value's finalizer.
pub struct HandleLedger {
    pub live: Set<nat>,
    pub issued: nat,
    pub finalized: nat,
}

/// One step in the life of a counted allocation: the handle with the given
/// identity is cloned, or it is dropped.
pub enum HandleStep {
    Clone(nat),
    Drop(nat),
}

impl HandleLedger {
    /// The ledger is consistent: finitely many handles are live, each with an
    /// identity that was given out, and the finalizer has run exactly when no
    /// handle is left, and then once.
    pub open spec fn wf(self) -> bool {
        &&& self.live.finite()
        &&& forall|id: nat| self.live.contains(id) ==> id < self.issued
        &&& self.finalized == (if self.live.is_empty() { 1nat } else { 0nat })
    }

    /// The reference count: the number of live handles.
    pub open spec fn count(self) -> nat {
        self.live.len()
    }

    /// The ledger of a new allocation: one handle, with identity 0.
    pub open spec fn created() -> HandleLedger {
        HandleLedger { live: set![0nat], issued: 1, finalized: 0 }
    }

    /// The ledger after one more handle was cloned. The new handle gets the
    /// identity `self.issued`.
    pub open spec fn after_clone(self) -> HandleLedger {
        HandleLedger {
            live: self.live.insert(self.issued),
            issued: self.issued + 1,
            finalized: self.finalized,
        }
    }

    /// The ledger after the handle `id` was dropped. The finalizer runs with
    /// the drop that leaves no handle.
    pub open spec fn after_drop(self, id: nat) -> HandleLedger {
        HandleLedger {
            live: self.live.remove(id),
            issued: self.issued,
            finalized: if self.live.remove(id).is_empty() {
                self.finalized + 1
            } else {
                self.finalized
            },
        }
    }

    /// The step can be taken: the handle that it names is live.
    pub open spec fn permits(self, step: HandleStep) -> bool {
        match step {
            HandleStep::Clone(id) => self.live.contains(id),
            HandleStep::Drop(id) => self.live.contains(id),
        }
    }

    /// The ledger after the step.
    pub open spec fn after(self, step: HandleStep) -> HandleLedger {
        match step {
            HandleStep::Clone(_) => self.after_clone(),
            HandleStep::Drop(id) => self.after_drop(id),
        }
    }

    /// Each of the steps can be taken when its turn has come.
    pub open spec fn permits_all(self, steps: Seq<HandleStep>) -> bool
        decreases steps.len(),
    {
        steps.len() > 0 ==> self.permits(steps.first()) && self.after(steps.first()).permits_all(
            steps.drop_first(),
        )
    }

    /// The ledger after the steps, first to last.
    pub open spec fn after_all(self, steps: Seq<HandleStep>) -> HandleLedger
        decreases steps.len(),
    {
        if steps.len() == 0 {
            self
        } else {
            self.after(steps.first()).after_all(steps.drop_first())
        }
    }

    /// The ledger after `n` clones.
    pub open spec fn after_clones(self, n: nat) -> HandleLedger
        decreases n,
    {
        if n == 0 {
            self
        } else {
            self.after_clones((n - 1) as nat).after_clone()
        }
    }

    /// The ledger after the handles in `order` were dropped, first to last.
    pub open spec fn after_drops(self, order: Seq<nat>) -> HandleLedger
        decreases order.len(),
    {
        if order.len() == 0 {
            self
        } else {
            self.after_drop(order.first()).after_drops(order.drop_first())
        }
    }
}

/// A new allocation has a consistent ledger with count 1.
pub proof fn lemma_created_wf()
    ensures
        HandleLedger::created().wf(),
        HandleLedger::created().count() == 1,
        HandleLedger::created().finalized == 0,
{
    let l = HandleLedger::created();
    assert(l.live.contains(0nat));
    assert(l.live =~= Set::<nat>::empty().insert(0nat));
}

/// Cloning from a live allocation keeps the ledger consistent, adds one to
/// the count and leaves the finalizer alone.
pub proof fn lemma_clone_wf(l: HandleLedger)
    requires
        l.wf(),
        l.count() > 0,
    ensures
        l.after_clone().wf(),
        l.after_clone().count() == l.count() + 1,
        l.after_clone().finalized == 0,
        !l.live.contains(l.issued),
{
    let next = l.after_clone();
    assert(next.live.contains(l.issued));
    if l.live.is_empty() {
        assert(l.live.len() == 0);
    }
}

/// Dropping a live handle keeps the ledger consistent and takes one from the
/// count; the finalizer has run afterwards exactly if it was the last one.
pub proof fn lemma_drop_wf(l: HandleLedger, id: nat)
    requires
        l.wf(),
        l.live.contains(id),
    ensures
        l.after_drop(id).wf(),
        l.after_drop(id).count() == l.count() - 1,
        l.after_drop(id).finalized == (if l.count() == 1 { 1nat } else { 0nat }),
{
    let next = l.after_drop(id);
    assert(!l.live.is_empty());
    if next.live.is_empty() {
        assert(next.live.len() == 0);
    } else {
        assert(next.live.len() != 0);
    }
}

/// After `n` clones of a new allocation the count is `n + 1`, and the
/// finalizer has not run.
pub proof fn lemma_count_after_clones(n: nat)
    ensures
        HandleLedger::created().after_clones(n).wf(),
        HandleLedger::created().after_clones(n).count() == n + 1,
        HandleLedger::created().after_clones(n).finalized == 0,
    decreases n,
{
    lemma_created_wf();
    if n > 0 {
        lemma_count_after_clones((n - 1) as nat);
        lemma_clone_wf(HandleLedger::created().after_clones((n - 1) as nat));
    }
}

/// Exactly-once destruction: when every live handle of an allocation is
/// dropped once, in whatever order, the finalizer has run exactly once at the
/// end, and not at all after any shorter run of those drops.
pub proof fn lemma_finalized_once(l: HandleLedger, order: Seq<nat>)
    requires
        l.wf(),
        l.count() > 0,
        order.no_duplicates(),
        order.to_set() =~= l.live,
    ensures
        l.after_drops(order).wf(),
        l.after_drops(order).live.is_empty(),
        l.after_drops(order).finalized == 1,
        forall|k: int| 0 <= k < order.len() ==> (#[trigger] l.after_drops(order.take(k))).finalized == 0,
    decreases order.len(),
{
    assert(!l.live.is_empty()) by {
        if l.live.is_empty() {
            assert(l.live.len() == 0);
        }
    }
    assert(order.len() > 0) by {
        if order.len() == 0 {
            let id = l.live.choose();
            assert(l.live.contains(id));
            assert(order.to_set().contains(id));
        }
    }
    let id = order.first();
    let rest = order.drop_first();
    assert(order.to_set().contains(id)) by {
        assert(order.contains(id)) by {
            assert(order[0] == id);
        }
    }
    lemma_drop_wf(l, id);
    let next = l.after_drop(id);
    assert(rest.no_duplicates());
    assert(rest.to_set() =~= next.live) by {
        assert forall|x: nat| rest.to_set().contains(x) == next.live.contains(x) by {
            if rest.to_set().contains(x) {
                let i = choose|i: int| 0 <= i < rest.len() && rest[i] == x;
                assert(order[i + 1] == x);
                assert(order.contains(x));
                assert(order.to_set().contains(x));
                assert(x != id) by {
                    if x == id {
                        assert(order[0] == order[i + 1]);
                    }
                }
            }
            if next.live.contains(x) {
                assert(order.to_set().contains(x));
                let i = choose|i: int| 0 <= i < order.len() && order[i] == x;
                assert(i != 0);
                assert(rest[i - 1] == x);
                assert(rest.contains(x));
            }
        }
    }
    assert(order.take(0) =~= Seq::<nat>::empty());
    if next.count() > 0 {
        lemma_finalized_once(next, rest);
        assert forall|k: int| 0 <= k < order.len() implies (#[trigger] l.after_drops(
            order.take(k),
        )).finalized == 0 by {
            if k > 0 {
                assert(order.take(k).first() == id);
                assert(order.take(k).drop_first() =~= rest.take(k - 1));
                assert(l.after_drops(order.take(k)) == next.after_drops(rest.take(k - 1)));
            }
        }
    } else {
        assert(next.live.is_empty()) by {
            next.live.lemma_len0_is_empty();
        }
        assert(rest.len() == 0) by {
            if rest.len() > 0 {
                assert(rest.to_set().contains(rest[0])) by {
                    assert(rest.contains(rest[0]));
                }
            }
        }
        assert(order.len() == 1);
        assert(l.after_drops(order) == next.after_drops(rest));
    }
}

/// The lifecycle of a counted value: a new allocation that is cloned `n`
/// times has `n + 1` handles, and dropping all of them, in whatever order,
/// runs the finalizer exactly once, with the last drop.
pub proof fn lemma_clones_then_drops(n: nat, order: Seq<nat>)
    requires
        order.no_duplicates(),
        order.to_set() =~= HandleLedger::created().after_clones(n).live,
    ensures
        order.len() == n + 1,
        HandleLedger::created().after_clones(n).after_drops(order).finalized == 1,
        forall|k: int| 0 <= k < order.len() ==> (#[trigger] HandleLedger::created().after_clones(n).after_drops(order.take(k))).finalized == 0,
{
    let l = HandleLedger::created().after_clones(n);
    lemma_count_after_clones(n);
    lemma_finalized_once(l, order);
    order.unique_seq_to_set();
}

/// Whatever the order in which handles are cloned and dropped, the finalizer
/// never runs twice: after any run of steps, each taken on a handle that is
/// live at its turn, the ledger is consistent, so the finalizer has run once
/// if no handle is left and not at all otherwise.
pub proof fn lemma_any_interleaving(l: HandleLedger, steps: Seq<HandleStep>)
    requires
        l.wf(),
        l.permits_all(steps),
    ensures
        l.after_all(steps).wf(),
        l.after_all(steps).finalized <= 1,
        l.after_all(steps).finalized == 1 <==> l.after_all(steps).count() == 0,
    decreases steps.len(),
{
    if steps.len() == 0 {
        if l.live.is_empty() {
            assert(l.live.len() == 0);
        } else {
            assert(l.live.len() != 0);
        }
    } else {
        match steps.first() {
            HandleStep::Clone(id) => {
                assert(l.count() > 0) by {
                    if l.live.len() == 0 {
                        l.live.lemma_len0_is_empty();
                    }
                }
                lemma_clone_wf(l);
            },
            HandleStep::Drop(id) => {
                lemma_drop_wf(l, id);
            },
        }
        lemma_any_interleaving(l.after(steps.first()), steps.drop_first());
    }
}

} // verus!
