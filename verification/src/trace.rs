//! Per-entry traces.
//!
//! A trace is the immutable set of patch-point IDs the Source touched
//! during one execution on a given input.  It is expensive to produce and
//! computed at most once per queue entry.

use vstd::prelude::*;

use crate::id_set::IdSet;

verus! {

/// The covered patch-point IDs of one Source execution.
#[derive(Debug)]
pub struct Trace {
    covered: IdSet,
}

impl View for Trace {
    type V = Seq<u64>;

    closed spec fn view(&self) -> Seq<u64> {
        self.covered@
    }
}

impl Trace {
    /// The covered set is well-formed.
    pub open spec fn wf(&self) -> bool {
        crate::id_set::strictly_sorted(self@)
    }

    /// A trace from the covered set.
    pub fn new(covered: IdSet) -> (r: Trace)
        requires
            covered.wf(),
        ensures
            r.wf(),
            r@ == covered@,
    {
        Trace { covered }
    }

    /// The covered patch-point set.
    pub fn covered(&self) -> (r: &IdSet)
        ensures
            r@ == self@,
            self.wf() ==> r.wf(),
    {
        &self.covered
    }

    /// Whether `id` was covered.
    pub fn covers(&self, id: u64) -> (r: bool)
        ensures
            r == self@.contains(id),
    {
        self.covered.contains(id)
    }

    /// Number of covered patch points.
    pub fn len(&self) -> (n: usize)
        ensures
            n == self@.len(),
    {
        self.covered.len()
    }

    /// An identical copy.
    pub fn snapshot(&self) -> (r: Trace)
        ensures
            r@ == self@,
    {
        Trace { covered: self.covered.snapshot() }
    }
}

} // verus!
