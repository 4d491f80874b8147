//! The Cerebrum: the cross-worker aggregate of patch-point knowledge.
//!
//! In the process it sits behind a readers-writer lock; queries return
//! snapshots so a reader can drop the lock before doing set algebra.  Its
//! only mutators run when a queue entry is admitted (the mutated site
//! yielded) and when a worker draws an unfuzzed site as a candidate.

use vstd::prelude::*;

use crate::id_set::IdSet;

verus! {

/// Patch-point statistics shared by all workers.
#[derive(Debug)]
pub struct Cerebrum {
    unfuzzed: IdSet,
    yielded: IdSet,
}

impl Cerebrum {
    /// Both sets are well-formed.
    pub closed spec fn wf(&self) -> bool {
        self.unfuzzed.wf() && self.yielded.wf()
    }

    /// The patch points no worker has mutated productively yet.
    pub closed spec fn spec_unfuzzed(&self) -> Seq<u64> {
        self.unfuzzed@
    }

    /// The patch points whose mutation led some worker to a new entry.
    pub closed spec fn spec_yielded(&self) -> Seq<u64> {
        self.yielded@
    }

    /// A fresh Cerebrum: every known patch point is unfuzzed, none has
    /// yielded.
    pub fn new(all_patch_points: IdSet) -> (r: Cerebrum)
        requires
            all_patch_points.wf(),
        ensures
            r.wf(),
            r.spec_unfuzzed() == all_patch_points@,
            r.spec_yielded() == Seq::<u64>::empty(),
    {
        Cerebrum { unfuzzed: all_patch_points, yielded: IdSet::new() }
    }

    /// Snapshot of the unfuzzed patch points.
    pub fn patch_points_unfuzzed(&self) -> (r: IdSet)
        requires
            self.wf(),
        ensures
            r.wf(),
            r@ == self.spec_unfuzzed(),
    {
        self.unfuzzed.snapshot()
    }

    /// Snapshot of the patch points that yielded coverage.
    pub fn patch_points_yielded(&self) -> (r: IdSet)
        requires
            self.wf(),
        ensures
            r.wf(),
            r@ == self.spec_yielded(),
    {
        self.yielded.snapshot()
    }

    /// A worker drew `id` as a candidate: it is no longer unfuzzed.
    pub fn mark_drawn(&mut self, id: u64)
        requires
            old(self).wf(),
        ensures
            final(self).wf(),
            forall|x: u64|
                final(self).spec_unfuzzed().contains(x) <==> old(self).spec_unfuzzed().contains(
                    x,
                ) && x != id,
            final(self).spec_yielded() == old(self).spec_yielded(),
    {
        self.unfuzzed.remove(id);
    }

    /// Mutating `id` produced a new queue entry: it has yielded, and it is
    /// certainly no longer unfuzzed.
    pub fn mark_yielded(&mut self, id: u64)
        requires
            old(self).wf(),
        ensures
            final(self).wf(),
            forall|x: u64|
                final(self).spec_unfuzzed().contains(x) <==> old(self).spec_unfuzzed().contains(
                    x,
                ) && x != id,
            forall|x: u64|
                final(self).spec_yielded().contains(x) <==> old(self).spec_yielded().contains(x)
                    || x == id,
    {
        self.unfuzzed.remove(id);
        self.yielded.insert(id);
    }
}

} // verus!
