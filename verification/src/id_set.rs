//! Sets of patch-point identifiers.
//!
//! Patch-point IDs are dense 64-bit values.  The set keeps its elements as a
//! strictly sorted vector, so iteration order is deterministic — the Add
//! phase's "first `n` in deterministic iteration order" draw depends on
//! that.  The view of a set is its sorted element sequence.

use vstd::prelude::*;

verus! {

/// The sequence is strictly increasing, hence free of duplicates.
pub open spec fn strictly_sorted(s: Seq<u64>) -> bool {
    forall|i: int, j: int| 0 <= i < j < s.len() ==> s[i] < s[j]
}

/// Inserting an element into a sequence preserves membership of everything
/// else and adds the new element.
proof fn lemma_insert_contains(s: Seq<u64>, i: int, a: u64, x: u64)
    requires
        0 <= i <= s.len(),
    ensures
        s.insert(i, a).contains(x) <==> s.contains(x) || x == a,
{
    let t = s.insert(i, a);
    if t.contains(x) {
        let k = choose|k: int| 0 <= k < t.len() && t[k] == x;
        if k < i {
            assert(s[k] == x);
        } else if k == i {
            assert(x == a);
        } else {
            assert(s[k - 1] == x);
        }
    }
    if s.contains(x) {
        let k = choose|k: int| 0 <= k < s.len() && s[k] == x;
        if k < i {
            assert(t[k] == x);
        } else {
            assert(t[k + 1] == x);
        }
    }
    if x == a {
        assert(t[i] == x);
    }
}

/// Removing the element at one position of a duplicate-free sequence
/// removes exactly that element.
proof fn lemma_remove_contains(s: Seq<u64>, i: int, x: u64)
    requires
        0 <= i < s.len(),
        strictly_sorted(s),
    ensures
        s.remove(i).contains(x) <==> s.contains(x) && x != s[i],
{
    let t = s.remove(i);
    if t.contains(x) {
        let k = choose|k: int| 0 <= k < t.len() && t[k] == x;
        if k < i {
            assert(s[k] == x);
        } else {
            assert(s[k + 1] == x);
        }
    }
    if s.contains(x) && x != s[i] {
        let k = choose|k: int| 0 <= k < s.len() && s[k] == x;
        if k < i {
            assert(t[k] == x);
        } else {
            assert(t[k - 1] == x);
        }
    }
}

/// A filtered sequence holds exactly the source elements satisfying the
/// predicate.
pub proof fn lemma_filter_membership<A>(s: Seq<A>, pred: spec_fn(A) -> bool, x: A)
    ensures
        s.filter(pred).contains(x) <==> s.contains(x) && pred(x),
    decreases s.len(),
{
    reveal_with_fuel(Seq::filter, 2);
    if s.len() > 0 {
        let t = s.drop_last();
        lemma_filter_membership(t, pred, x);
        assert(s.contains(x) <==> t.contains(x) || s.last() == x) by {
            if s.contains(x) {
                let k = choose|k: int| 0 <= k < s.len() && s[k] == x;
                if k < s.len() - 1 {
                    assert(t[k] == x);
                }
            }
            if t.contains(x) {
                let k = choose|k: int| 0 <= k < t.len() && t[k] == x;
                assert(s[k] == x);
            }
        }
    }
}

/// A filter whose predicate holds everywhere keeps the whole sequence.
pub proof fn lemma_filter_everything<A>(s: Seq<A>, pred: spec_fn(A) -> bool)
    requires
        forall|i: int| 0 <= i < s.len() ==> pred(#[trigger] s[i]),
    ensures
        s.filter(pred) == s,
    decreases s.len(),
{
    reveal_with_fuel(Seq::filter, 2);
    if s.len() > 0 {
        let t = s.drop_last();
        assert(forall|i: int| 0 <= i < t.len() ==> pred(#[trigger] t[i]));
        lemma_filter_everything(t, pred);
        assert(pred(s.last()));
        assert(t.filter(pred).push(s.last()) =~= s);
    }
}

/// Filtering keeps any "key occurs only once" discipline: if a key function
/// is injective over the source positions, it stays injective over the
/// filtered sequence.
pub proof fn lemma_filter_keeps_unique_keys<A>(
    s: Seq<A>,
    pred: spec_fn(A) -> bool,
    key: spec_fn(A) -> u64,
)
    requires
        forall|i: int, j: int| 0 <= i < j < s.len() ==> key(s[i]) != key(s[j]),
    ensures
        forall|i: int, j: int|
            0 <= i < j < s.filter(pred).len() ==> key(s.filter(pred)[i]) != key(
                s.filter(pred)[j],
            ),
    decreases s.len(),
{
    reveal_with_fuel(Seq::filter, 2);
    if s.len() > 0 {
        let t = s.drop_last();
        let f = s.filter(pred);
        let ft = t.filter(pred);
        assert(forall|i: int, j: int| 0 <= i < j < t.len() ==> key(t[i]) != key(t[j]));
        lemma_filter_keeps_unique_keys(t, pred, key);
        if pred(s.last()) {
            assert(f == ft.push(s.last()));
            assert forall|i: int, j: int| 0 <= i < j < f.len() implies key(f[i]) != key(
                f[j],
            ) by {
                if j == f.len() - 1 {
                    assert(f[j] == s.last());
                    assert(ft.contains(f[i]));
                    lemma_filter_membership(t, pred, f[i]);
                    let k = choose|k: int| 0 <= k < t.len() && t[k] == f[i];
                    assert(s[k] == f[i]);
                    assert(key(s[k]) != key(s[s.len() - 1]));
                }
            }
        } else {
            assert(f == ft);
        }
    }
}

/// A filter of a strictly sorted sequence keeps the source order, so it is
/// strictly sorted itself.
proof fn lemma_filter_ordered(s: Seq<u64>, pred: spec_fn(u64) -> bool, a: int, b: int)
    requires
        strictly_sorted(s),
        0 <= a < b < s.filter(pred).len(),
    ensures
        s.filter(pred)[a] < s.filter(pred)[b],
    decreases s.len(),
{
    reveal_with_fuel(Seq::<u64>::filter, 2);
    if s.len() > 0 {
        let t = s.drop_last();
        let f = s.filter(pred);
        let ft = t.filter(pred);
        assert(strictly_sorted(t));
        if pred(s.last()) {
            assert(f == ft.push(s.last()));
            if b < f.len() - 1 {
                lemma_filter_ordered(t, pred, a, b);
            } else {
                assert(f[b] == s.last());
                lemma_filter_membership(t, pred, ft[a]);
                let k = choose|k: int| 0 <= k < t.len() && t[k] == ft[a];
                assert(s[k] == ft[a]);
                assert(s[k] < s.last());
            }
        } else {
            assert(f == ft);
            lemma_filter_ordered(t, pred, a, b);
        }
    }
}

/// A set of patch-point IDs with deterministic (ascending) iteration order.
#[derive(Debug)]
pub struct IdSet {
    ids: Vec<u64>,
}

impl View for IdSet {
    type V = Seq<u64>;

    closed spec fn view(&self) -> Seq<u64> {
        self.ids@
    }
}

impl IdSet {
    /// The internal vector is strictly sorted.
    pub open spec fn wf(&self) -> bool {
        strictly_sorted(self@)
    }

    /// The empty set.
    pub fn new() -> (r: IdSet)
        ensures
            r.wf(),
            r@ == Seq::<u64>::empty(),
    {
        IdSet { ids: Vec::new() }
    }

    /// An identical copy.
    pub fn snapshot(&self) -> (r: IdSet)
        ensures
            r@ == self@,
    {
        IdSet { ids: self.to_vec() }
    }

    /// Number of elements.
    pub fn len(&self) -> (n: usize)
        ensures
            n == self@.len(),
    {
        self.ids.len()
    }

    /// Whether the set is empty.
    pub fn is_empty(&self) -> (r: bool)
        ensures
            r == (self@.len() == 0),
    {
        self.ids.is_empty()
    }

    /// The element at iteration position `i`.
    pub fn index(&self, i: usize) -> (id: u64)
        requires
            i < self@.len(),
        ensures
            id == self@[i as int],
    {
        self.ids[i]
    }

    /// Membership test.
    pub fn contains(&self, id: u64) -> (r: bool)
        ensures
            r == self@.contains(id),
    {
        let n = self.ids.len();
        let mut i: usize = 0;
        while i < n
            invariant
                i <= n,
                n == self@.len(),
                forall|j: int| 0 <= j < i ==> self@[j] != id,
            decreases n - i,
        {
            if self.ids[i] == id {
                return true;
            }
            i = i + 1;
        }
        false
    }

    /// Add `id`, keeping the vector sorted; no effect if already present.
    pub fn insert(&mut self, id: u64)
        requires
            old(self).wf(),
        ensures
            final(self).wf(),
            old(self)@.contains(id) ==> final(self)@ == old(self)@,
            !old(self)@.contains(id) ==> final(self)@.len() == old(self)@.len() + 1,
            forall|x: u64| final(self)@.contains(x) <==> old(self)@.contains(x) || x == id,
    {
        let ghost s0 = self@;
        let n = self.ids.len();
        let mut i: usize = 0;
        while i < n && self.ids[i] < id
            invariant
                i <= n,
                self@ == s0,
                n == s0.len(),
                strictly_sorted(s0),
                forall|j: int| 0 <= j < i ==> s0[j] < id,
            decreases n - i,
        {
            i = i + 1;
        }
        if i < n && self.ids[i] == id {
            assert(s0.contains(id));
            return ;
        }
        proof {
            assert forall|j: int| 0 <= j < n implies s0[j] != id by {
                if j >= i {
                    assert(s0[i as int] > id || i == n);
                    if j > i {
                        assert(s0[i as int] < s0[j]);
                    }
                }
            }
            assert(!s0.contains(id));
        }
        self.ids.insert(i, id);
        proof {
            assert forall|a: int, b: int| 0 <= a < b < self@.len() implies self@[a]
                < self@[b] by {
                assert(self@ == s0.insert(i as int, id));
            }
            assert forall|x: u64| self@.contains(x) <==> s0.contains(x) || x == id by {
                lemma_insert_contains(s0, i as int, id, x);
            }
        }
    }

    /// Remove `id`; no effect if absent.
    pub fn remove(&mut self, id: u64)
        requires
            old(self).wf(),
        ensures
            final(self).wf(),
            !old(self)@.contains(id) ==> final(self)@ == old(self)@,
            old(self)@.contains(id) ==> final(self)@.len() + 1 == old(self)@.len(),
            forall|x: u64| final(self)@.contains(x) <==> old(self)@.contains(x) && x != id,
    {
        let ghost s0 = self@;
        let n = self.ids.len();
        let mut i: usize = 0;
        while i < n
            invariant
                i <= n,
                self@ == s0,
                s0 == old(self)@,
                n == s0.len(),
                strictly_sorted(s0),
                forall|j: int| 0 <= j < i ==> s0[j] != id,
            decreases n - i,
        {
            if self.ids[i] == id {
                self.ids.remove(i);
                proof {
                    assert(s0.contains(id));
                    assert(self@ == s0.remove(i as int));
                    assert(strictly_sorted(self@));
                    assert forall|x: u64| self@.contains(x) <==> s0.contains(x) && x != id by {
                        lemma_remove_contains(s0, i as int, x);
                    }
                }
                return ;
            }
            i = i + 1;
        }
        assert(!s0.contains(id));
    }

    /// The elements of `self` that are also in `other`, in `self`'s order.
    pub fn intersect(&self, other: &IdSet) -> (r: IdSet)
        requires
            self.wf(),
        ensures
            r.wf(),
            r@ == self@.filter(|x: u64| other@.contains(x)),
            forall|x: u64| r@.contains(x) <==> self@.contains(x) && other@.contains(x),
    {
        let ghost pred = |x: u64| other@.contains(x);
        let n = self.ids.len();
        let mut out: Vec<u64> = Vec::new();
        let mut i: usize = 0;
        proof {
            reveal_with_fuel(Seq::<u64>::filter, 1);
            assert(self@.take(0) =~= Seq::<u64>::empty());
            assert(out@ == self@.take(0).filter(pred));
        }
        while i < n
            invariant
                i <= n,
                n == self@.len(),
                pred == (|x: u64| other@.contains(x)),
                out@ == self@.take(i as int).filter(pred),
            decreases n - i,
        {
            let x = self.ids[i];
            let ghost out0 = out@;
            if other.contains(x) {
                out.push(x);
            }
            i = i + 1;
            proof {
                reveal_with_fuel(Seq::<u64>::filter, 2);
                assert(self@.take(i as int).drop_last() =~= self@.take(i - 1));
                assert(self@.take(i as int).last() == self@[i - 1]);
                assert(out@ == self@.take(i as int).filter(pred));
            }
        }
        proof {
            assert(self@.take(n as int) =~= self@);
        }
        let r = IdSet { ids: out };
        proof {
            assert(r@ == self@.filter(pred));
            assert forall|a: int, b: int| 0 <= a < b < r@.len() implies r@[a] < r@[b] by {
                lemma_filter_ordered(self@, pred, a, b);
            }
            assert forall|x: u64|
                r@.contains(x) <==> self@.contains(x) && other@.contains(x) by {
                lemma_filter_membership(self@, pred, x);
            }
        }
        r
    }

    /// The first `k` elements in iteration order (all of them if `k` is
    /// larger than the set).
    pub fn take_first(&self, k: usize) -> (r: IdSet)
        requires
            self.wf(),
        ensures
            r.wf(),
            k <= self@.len() ==> r@ == self@.take(k as int),
            k > self@.len() ==> r@ == self@,
    {
        let n = self.ids.len();
        let m = if k < n {
            k
        } else {
            n
        };
        let mut out: Vec<u64> = Vec::new();
        let mut i: usize = 0;
        while i < m
            invariant
                i <= m,
                m <= n,
                n == self@.len(),
                out@ == self@.take(i as int),
            decreases m - i,
        {
            out.push(self.ids[i]);
            proof {
                assert(out@ =~= self@.take(i + 1));
            }
            i = i + 1;
        }
        proof {
            if k > self@.len() {
                assert(self@.take(n as int) =~= self@);
            }
        }
        IdSet { ids: out }
    }

    /// The elements as a plain vector, in iteration order.
    pub fn to_vec(&self) -> (r: Vec<u64>)
        ensures
            r@ == self@,
    {
        let n = self.ids.len();
        let mut out: Vec<u64> = Vec::new();
        let mut i: usize = 0;
        while i < n
            invariant
                i <= n,
                n == self@.len(),
                out@ == self@.take(i as int),
            decreases n - i,
        {
            out.push(self.ids[i]);
            proof {
                assert(out@ =~= self@.take(i + 1));
            }
            i = i + 1;
        }
        proof {
            assert(self@.take(n as int) =~= self@);
        }
        out
    }

    /// Build a set from arbitrary IDs (duplicates collapse).
    pub fn from_ids(v: &Vec<u64>) -> (r: IdSet)
        ensures
            r.wf(),
            forall|x: u64| r@.contains(x) <==> v@.contains(x),
    {
        let n = v.len();
        let mut r = IdSet::new();
        let mut i: usize = 0;
        while i < n
            invariant
                i <= n,
                n == v@.len(),
                r.wf(),
                forall|x: u64| r@.contains(x) <==> v@.take(i as int).contains(x),
            decreases n - i,
        {
            r.insert(v[i]);
            proof {
                assert forall|x: u64| v@.take(i + 1).contains(x) <==> v@.take(
                    i as int,
                ).contains(x) || x == v@[i as int] by {
                    let t1 = v@.take(i + 1);
                    let t0 = v@.take(i as int);
                    if t1.contains(x) {
                        let k = choose|k: int| 0 <= k < t1.len() && t1[k] == x;
                        if k < i {
                            assert(t0[k] == x);
                        }
                    }
                    if t0.contains(x) {
                        let k = choose|k: int| 0 <= k < t0.len() && t0[k] == x;
                        assert(t1[k] == x);
                    }
                    if x == v@[i as int] {
                        assert(t1[i as int] == x);
                    }
                }
            }
            i = i + 1;
        }
        proof {
            assert(v@.take(n as int) =~= v@);
        }
        r
    }
}

} // verus!
