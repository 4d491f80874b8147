//! The mutation cache: the ordered, uniquely-keyed collection of mutation
//! cache entries (MCEs) installed in the Source.
//!
//! Each entry binds a patch-point ID to a mutation mask; an empty mask means
//! the entry is a "nop".  Every operation that may change the cache layout
//! works on the cache as a whole — callers take snapshots of entries and
//! rebuild, so no handle into the cache can survive a mutation.

use vstd::prelude::*;

use crate::codec::{le32_at, le32_bytes, le64_at, le64_bytes};
use crate::codec;
use crate::trace::Trace;
use crate::id_set::IdSet;

verus! {

/// A static instrumentation site in the Source, identified by a dense
/// 64-bit value.  Immutable after Source startup.
#[derive(Clone, Copy, Debug, PartialEq, Eq, Structural, Hash)]
pub struct MutationSiteID(pub u64);

/// Description of one patch point: its ID plus the instrumentation
/// metadata a cache entry carries along.
#[derive(Clone, Copy, Debug, PartialEq, Eq, Structural)]
pub struct PatchPoint {
    pub id: MutationSiteID,
    /// Kind of the instrumented instruction.
    pub instruction_kind: u8,
    /// Mask width (in bytes) the instrumented instruction expects.
    pub width: u32,
}

/// Mathematical image of one mutation cache entry.
#[verifier::ext_equal]
pub ghost struct MceView {
    pub id: u64,
    pub instruction_kind: u8,
    pub width: u32,
    pub msk: Seq<u8>,
}

/// One runtime record per active patch point: the patch-point ID, its
/// instrumentation metadata, and the current mutation mask.
#[derive(Debug)]
pub struct MutationCacheEntry {
    pub id: MutationSiteID,
    pub instruction_kind: u8,
    pub width: u32,
    pub msk: Vec<u8>,
}

impl View for MutationCacheEntry {
    type V = MceView;

    open spec fn view(&self) -> MceView {
        MceView {
            id: self.id.0,
            instruction_kind: self.instruction_kind,
            width: self.width,
            msk: self.msk@,
        }
    }
}

impl MutationCacheEntry {
    /// An all-nop entry for a patch point.
    pub fn nop_for(pp: &PatchPoint) -> (r: MutationCacheEntry)
        ensures
            r@ == (MceView {
                id: pp.id.0,
                instruction_kind: pp.instruction_kind,
                width: pp.width,
                msk: Seq::<u8>::empty(),
            }),
    {
        MutationCacheEntry {
            id: pp.id,
            instruction_kind: pp.instruction_kind,
            width: pp.width,
            msk: Vec::new(),
        }
    }

    /// An entry is a nop exactly when its mask is empty.
    pub fn is_nop(&self) -> (r: bool)
        ensures
            r == (self@.msk.len() == 0),
    {
        self.msk.len() == 0
    }

    /// Length of the mutation mask.
    pub fn msk_len(&self) -> (n: usize)
        ensures
            n == self@.msk.len(),
    {
        self.msk.len()
    }

    /// A field-for-field copy.
    pub fn duplicate(&self) -> (r: MutationCacheEntry)
        ensures
            r@ == self@,
    {
        let len = self.msk.len();
        let msk = codec::read_bytes(&self.msk, 0, len);
        proof {
            assert(self.msk@.subrange(0, len as int) =~= self.msk@);
        }
        MutationCacheEntry {
            id: self.id,
            instruction_kind: self.instruction_kind,
            width: self.width,
            msk,
        }
    }
}

/// No patch-point ID occurs twice.
pub open spec fn unique_ids(s: Seq<MceView>) -> bool {
    forall|i: int, j: int| 0 <= i < j < s.len() ==> s[i].id != s[j].id
}

/// Some entry carries this ID.
pub open spec fn has_id(s: Seq<MceView>, id: u64) -> bool {
    exists|i: int| 0 <= i < s.len() && s[i].id == id
}

/// The position of the entry carrying `id` (meaningful under `has_id`).
pub open spec fn idx_of(s: Seq<MceView>, id: u64) -> int {
    choose|i: int| 0 <= i < s.len() && s[i].id == id
}

/// The entry carrying `id` (meaningful under `has_id`).
pub open spec fn entry_of(s: Seq<MceView>, id: u64) -> MceView {
    s[idx_of(s, id)]
}

/// Every mask is short enough for its length to be serialised in 32 bits.
pub open spec fn bounded_masks(s: Seq<MceView>) -> bool {
    forall|i: int| 0 <= i < s.len() ==> (#[trigger] s[i].msk).len() <= u32::MAX
}

/// How `union_and_replace` rewrites one existing entry: an entry whose ID
/// also occurs in `other` is replaced by `other`'s entry, the rest stay.
pub open spec fn override_from(other: Seq<MceView>, e: MceView) -> MceView {
    if has_id(other, e.id) {
        entry_of(other, e.id)
    } else {
        e
    }
}

/// How `resize_covered_entries` rewrites one entry: a covered entry's mask
/// is brought to the width in its metadata, keeping existing bytes at their
/// offsets and zero-filling ("nop-extending") the rest.
pub open spec fn resize_to_width(e: MceView, covered: Seq<u64>) -> MceView {
    if covered.contains(e.id) {
        MceView {
            msk: Seq::new(e.width as nat, |i: int| if i < e.msk.len() { e.msk[i] } else { 0u8 }),
            ..e
        }
    } else {
        e
    }
}

/// An ordered, uniquely-keyed (by patch-point ID) collection of MCEs.
#[derive(Debug)]
pub struct MutationCache {
    entries: Vec<MutationCacheEntry>,
}

impl View for MutationCache {
    type V = Seq<MceView>;

    closed spec fn view(&self) -> Seq<MceView> {
        self.entries@.map_values(|e: MutationCacheEntry| e@)
    }
}

impl MutationCache {
    /// Structural invariant: each ID occurs at most once, and every mask
    /// length fits the serialised form.
    pub open spec fn wf(&self) -> bool {
        unique_ids(self@) && bounded_masks(self@)
    }

    /// An empty cache.
    pub fn new() -> (r: MutationCache)
        ensures
            r.wf(),
            r@ == Seq::<MceView>::empty(),
    {
        let r = MutationCache { entries: Vec::new() };
        proof {
            assert(r@ =~= Seq::<MceView>::empty());
        }
        r
    }

    /// Number of entries.
    pub fn len(&self) -> (n: usize)
        ensures
            n == self@.len(),
    {
        self.entries.len()
    }

    /// Read access to the entry at position `i`.
    pub fn entry_at(&self, i: usize) -> (r: &MutationCacheEntry)
        requires
            i < self@.len(),
        ensures
            r@ == self@[i as int],
    {
        &self.entries[i]
    }

    /// Leave the cache empty but valid.
    pub fn clear(&mut self)
        ensures
            final(self).wf(),
            final(self)@ == Seq::<MceView>::empty(),
    {
        self.entries.clear();
        proof {
            assert(self@ =~= Seq::<MceView>::empty());
        }
    }

    /// An all-nop cache covering every given patch point, in order.
    pub fn from_patchpoints(pps: &Vec<PatchPoint>) -> (r: MutationCache)
        requires
            forall|i: int, j: int|
                0 <= i < j < pps@.len() ==> pps@[i].id.0 != pps@[j].id.0,
        ensures
            r.wf(),
            r@.len() == pps@.len(),
            forall|i: int|
                0 <= i < pps@.len() ==> r@[i] == (MceView {
                    id: pps@[i].id.0,
                    instruction_kind: pps@[i].instruction_kind,
                    width: pps@[i].width,
                    msk: Seq::<u8>::empty(),
                }),
    {
        let n = pps.len();
        let mut entries: Vec<MutationCacheEntry> = Vec::new();
        let mut i: usize = 0;
        while i < n
            invariant
                i <= n,
                n == pps@.len(),
                entries@.len() == i,
                forall|k: int|
                    0 <= k < i ==> entries@[k]@ == (MceView {
                        id: pps@[k].id.0,
                        instruction_kind: pps@[k].instruction_kind,
                        width: pps@[k].width,
                        msk: Seq::<u8>::empty(),
                    }),
            decreases n - i,
        {
            entries.push(MutationCacheEntry::nop_for(&pps[i]));
            i = i + 1;
        }
        let r = MutationCache { entries };
        r
    }

    /// Build a cache from a vector of entries with pairwise distinct IDs.
    pub fn from_entries(entries: Vec<MutationCacheEntry>) -> (r: MutationCache)
        requires
            unique_ids(entries@.map_values(|e: MutationCacheEntry| e@)),
            bounded_masks(entries@.map_values(|e: MutationCacheEntry| e@)),
        ensures
            r.wf(),
            r@ == entries@.map_values(|e: MutationCacheEntry| e@),
    {
        MutationCache { entries }
    }

    /// The first position carrying `id`, if any.
    pub fn find_index(&self, id: u64) -> (r: Option<usize>)
        ensures
            match r {
                Some(i) => i < self@.len() && self@[i as int].id == id,
                None => !has_id(self@, id),
            },
    {
        let n = self.entries.len();
        let mut i: usize = 0;
        while i < n
            invariant
                i <= n,
                n == self@.len(),
                forall|k: int| 0 <= k < i ==> self@[k].id != id,
            decreases n - i,
        {
            if self.entries[i].id.0 == id {
                return Some(i);
            }
            i = i + 1;
        }
        None
    }

    /// A deep copy of all entries, a snapshot the caller may partition and
    /// rebuild from while the cache itself is mutated.
    pub fn entries(&self) -> (r: Vec<MutationCacheEntry>)
        ensures
            r@.map_values(|e: MutationCacheEntry| e@) == self@,
    {
        let n = self.entries.len();
        let mut out: Vec<MutationCacheEntry> = Vec::new();
        let mut i: usize = 0;
        while i < n
            invariant
                i <= n,
                n == self@.len(),
                out@.len() == i,
                forall|k: int| 0 <= k < i ==> (#[trigger] out@[k])@ == self@[k],
            decreases n - i,
        {
            out.push(self.entries[i].duplicate());
            i = i + 1;
        }
        proof {
            assert(out@.map_values(|e: MutationCacheEntry| e@) =~= self@);
        }
        out
    }

    /// The IDs of all entries, as a plain vector in cache order.
    pub fn ids(&self) -> (r: Vec<u64>)
        ensures
            r@.len() == self@.len(),
            forall|i: int| 0 <= i < self@.len() ==> r@[i] == self@[i].id,
    {
        let n = self.entries.len();
        let mut out: Vec<u64> = Vec::new();
        let mut i: usize = 0;
        while i < n
            invariant
                i <= n,
                n == self@.len(),
                out@.len() == i,
                forall|k: int| 0 <= k < i ==> out@[k] == self@[k].id,
            decreases n - i,
        {
            out.push(self.entries[i].id.0);
            i = i + 1;
        }
        out
    }

    /// Drop every entry whose ID the trace did not cover.
    pub fn remove_uncovered(&mut self, trace: &Trace)
        requires
            old(self).wf(),
        ensures
            final(self).wf(),
            final(self)@ == old(self)@.filter(|e: MceView| trace@.contains(e.id)),
    {
        let ghost pred = |e: MceView| trace@.contains(e.id);
        let ghost s0 = self@;
        let n = self.entries.len();
        let mut out: Vec<MutationCacheEntry> = Vec::new();
        let mut i: usize = 0;
        proof {
            reveal_with_fuel(Seq::<MceView>::filter, 1);
            assert(s0.take(0) =~= Seq::<MceView>::empty());
            assert(out@.map_values(|e: MutationCacheEntry| e@) =~= Seq::<MceView>::empty());
        }
        while i < n
            invariant
                i <= n,
                self@ == s0,
                s0 == old(self)@,
                n == s0.len(),
                pred == (|e: MceView| trace@.contains(e.id)),
                out@.map_values(|e: MutationCacheEntry| e@) == s0.take(i as int).filter(pred),
            decreases n - i,
        {
            let ghost out0 = out@.map_values(|e: MutationCacheEntry| e@);
            let covered = trace.covers(self.entries[i].id.0);
            if covered {
                out.push(self.entries[i].duplicate());
                proof {
                    assert(out@.map_values(|e: MutationCacheEntry| e@) =~= out0.push(
                        s0[i as int],
                    ));
                }
            }
            i = i + 1;
            proof {
                reveal_with_fuel(Seq::<MceView>::filter, 2);
                assert(s0.take(i as int).drop_last() =~= s0.take(i - 1));
                assert(s0.take(i as int).last() == s0[i - 1]);
                assert(out@.map_values(|e: MutationCacheEntry| e@) == s0.take(i as int).filter(
                    pred,
                ));
            }
        }
        proof {
            assert(s0.take(n as int) =~= s0);
        }
        self.entries = out;
        proof {
            let f = s0.filter(pred);
            crate::id_set::lemma_filter_keeps_unique_keys(s0, pred, |e: MceView| e.id);
            assert(bounded_masks(f)) by {
                assert forall|k: int| 0 <= k < f.len() implies (#[trigger] f[k]).msk.len()
                    <= u32::MAX by {
                    crate::id_set::lemma_filter_membership(s0, pred, f[k]);
                    let w = choose|w: int| 0 <= w < s0.len() && s0[w] == f[k];
                    assert(s0[w].msk.len() <= u32::MAX);
                }
            }
        }
    }

    /// Bring every covered entry's mask to the width in its metadata:
    /// existing bytes keep their offsets, new bytes are zero.
    pub fn resize_covered_entries(&mut self, trace: &Trace)
        requires
            old(self).wf(),
        ensures
            final(self).wf(),
            final(self)@.len() == old(self)@.len(),
            forall|i: int|
                0 <= i < old(self)@.len() ==> final(self)@[i] == resize_to_width(
                    old(self)@[i],
                    trace@,
                ),
    {
        let ghost s0 = self@;
        let n = self.entries.len();
        let mut i: usize = 0;
        while i < n
            invariant
                i <= n,
                n == s0.len(),
                s0 == old(self)@,
                unique_ids(s0),
                bounded_masks(s0),
                self@.len() == n,
                forall|k: int| 0 <= k < i ==> self@[k] == resize_to_width(s0[k], trace@),
                forall|k: int| i <= k < n ==> self@[k] == s0[k],
            decreases n - i,
        {
            let covered = trace.covers(self.entries[i].id.0);
            if covered {
                let e = self.entries[i].duplicate();
                let w = e.width as usize;
                let mut msk: Vec<u8> = Vec::new();
                let mut j: usize = 0;
                while j < w
                    invariant
                        j <= w,
                        w == e@.width,
                        msk@.len() == j,
                        forall|k: int|
                            0 <= k < j ==> msk@[k] == (if k < e@.msk.len() {
                                e@.msk[k]
                            } else {
                                0u8
                            }),
                    decreases w - j,
                {
                    if j < e.msk.len() {
                        msk.push(e.msk[j]);
                    } else {
                        msk.push(0);
                    }
                    j = j + 1;
                }
                let new_e = MutationCacheEntry {
                    id: e.id,
                    instruction_kind: e.instruction_kind,
                    width: e.width,
                    msk,
                };
                proof {
                    assert(new_e@ =~= resize_to_width(s0[i as int], trace@));
                }
                let ghost prev = self@;
                self.entries[i] = new_e;
                proof {
                    assert(self@ =~= prev.update(i as int, new_e@));
                }
            }
            i = i + 1;
        }
        proof {
            assert(forall|k: int| 0 <= k < n ==> (#[trigger] self@[k]).id == s0[k].id);
            assert(unique_ids(self@));
            assert(bounded_masks(self@));
        }
    }

    /// Overlay `other`: an entry whose ID `other` also carries is replaced
    /// in place (keeping `self`'s position), and `other`'s remaining
    /// entries are appended in `other`'s order.
    pub fn union_and_replace(&mut self, other: &MutationCache)
        requires
            old(self).wf(),
            other.wf(),
        ensures
            final(self).wf(),
            final(self)@ == old(self)@.map_values(|e: MceView| override_from(other@, e))
                + other@.filter(|e: MceView| !has_id(old(self)@, e.id)),
    {
        let ghost s0 = self@;
        let ghost ov = |e: MceView| override_from(other@, e);
        let ghost fresh = |e: MceView| !has_id(s0, e.id);
        let n = self.entries.len();
        let my_ids = self.ids();
        let mut i: usize = 0;
        while i < n
            invariant
                i <= n,
                n == s0.len(),
                s0 == old(self)@,
                other.wf(),
                unique_ids(s0),
                ov == (|e: MceView| override_from(other@, e)),
                self@.len() == n,
                forall|k: int| 0 <= k < i ==> self@[k] == ov(s0[k]),
                forall|k: int| i <= k < n ==> self@[k] == s0[k],
            decreases n - i,
        {
            let id = self.entries[i].id.0;
            match other.find_index(id) {
                Some(j) => {
                    let e = other.entry_at(j).duplicate();
                    let ghost prev = self@;
                    self.entries[i] = e;
                    proof {
                        assert(self@ =~= prev.update(i as int, e@));
                        assert(has_id(other@, id));
                        let k = idx_of(other@, id);
                        assert(0 <= k < other@.len() && other@[k].id == id);
                        assert(k == j as int);
                        assert(ov(s0[i as int]) == e@);
                    }
                }
                None => {
                    proof {
                        assert(ov(s0[i as int]) == s0[i as int]);
                    }
                }
            }
            i = i + 1;
        }
        proof {
            assert(self@ =~= s0.map_values(ov));
        }
        let ghost mapped = s0.map_values(ov);
        let m = other.entries.len();
        let mut j: usize = 0;
        proof {
            reveal_with_fuel(Seq::filter, 1);
            assert(other@.take(0) =~= Seq::<MceView>::empty());
            assert(self@ =~= mapped + other@.take(0).filter(fresh));
        }
        while j < m
            invariant
                j <= m,
                m == other@.len(),
                other.wf(),
                s0 == old(self)@,
                my_ids@.len() == s0.len(),
                forall|k: int| 0 <= k < s0.len() ==> my_ids@[k] == s0[k].id,
                fresh == (|e: MceView| !has_id(s0, e.id)),
                self@ == mapped + other@.take(j as int).filter(fresh),
            decreases m - j,
        {
            let oid = other.entries[j].id.0;
            let nn = my_ids.len();
            let mut present = false;
            let mut t: usize = 0;
            while t < nn
                invariant
                    t <= nn,
                    nn == my_ids@.len(),
                    present == exists|q: int| 0 <= q < t && my_ids@[q] == oid,
                decreases nn - t,
            {
                if my_ids[t] == oid {
                    present = true;
                    proof {
                        assert(my_ids@[t as int] == oid);
                    }
                }
                t = t + 1;
            }
            proof {
                assert(present == has_id(s0, oid)) by {
                    if present {
                        let q = choose|q: int| 0 <= q < nn && my_ids@[q] == oid;
                        assert(s0[q].id == oid);
                    }
                    if has_id(s0, oid) {
                        let q = choose|q: int| 0 <= q < s0.len() && s0[q].id == oid;
                        assert(my_ids@[q] == oid);
                    }
                }
            }
            let ghost prev = self@;
            if !present {
                self.entries.push(other.entry_at(j).duplicate());
                proof {
                    assert(self@ =~= prev.push(other@[j as int]));
                }
            }
            j = j + 1;
            proof {
                reveal_with_fuel(Seq::filter, 2);
                assert(other@.take(j as int).drop_last() =~= other@.take(j - 1));
                assert(other@.take(j as int).last() == other@[j - 1]);
                assert(self@ =~= mapped + other@.take(j as int).filter(fresh));
            }
        }
        proof {
            assert(other@.take(m as int) =~= other@);
            let appended = other@.filter(fresh);
            assert(self@ == mapped + appended);
            // Overriding keeps every ID in place.
            assert forall|k: int| 0 <= k < s0.len() implies (#[trigger] mapped[k]).id
                == s0[k].id && (mapped[k].msk.len() <= u32::MAX) by {
                if has_id(other@, s0[k].id) {
                    let w = idx_of(other@, s0[k].id);
                    assert(0 <= w < other@.len() && other@[w].id == s0[k].id);
                }
            }
            // The appended entries come from `other` and carry fresh IDs.
            crate::id_set::lemma_filter_keeps_unique_keys(other@, fresh, |e: MceView| e.id);
            assert forall|k: int| 0 <= k < appended.len() implies fresh(
                #[trigger] appended[k],
            ) && appended[k].msk.len() <= u32::MAX by {
                crate::id_set::lemma_filter_membership(other@, fresh, appended[k]);
                let w = choose|w: int| 0 <= w < other@.len() && other@[w] == appended[k];
                assert(other@[w].msk.len() <= u32::MAX);
            }
            assert forall|a: int, b: int| 0 <= a < b < self@.len() implies (#[trigger] self@[a]).id
                != (#[trigger] self@[b]).id by {
                if b < mapped.len() {
                    assert(self@[a] == mapped[a] && self@[b] == mapped[b]);
                } else if a >= mapped.len() {
                    assert(self@[a] == appended[a - mapped.len()]);
                    assert(self@[b] == appended[b - mapped.len()]);
                } else {
                    assert(self@[a] == mapped[a]);
                    assert(self@[b] == appended[b - mapped.len()]);
                    assert(!has_id(s0, self@[b].id));
                    assert(self@[a].id == s0[a].id);
                }
            }
            assert(bounded_masks(self@));
        }
    }
}

/// The byte image of one entry: ID, instruction kind, width, mask length,
/// mask bytes, all little-endian.
pub open spec fn encode_entry(e: MceView) -> Seq<u8> {
    le64_bytes(e.id) + seq![e.instruction_kind] + le32_bytes(e.width) + le32_bytes(
        e.msk.len() as u32,
    ) + e.msk
}

/// The byte image of a whole cache: its entries back to back.
pub open spec fn encode_mc(s: Seq<MceView>) -> Seq<u8>
    decreases s.len(),
{
    if s.len() == 0 {
        Seq::<u8>::empty()
    } else {
        encode_entry(s.first()) + encode_mc(s.drop_first())
    }
}

/// The entries encoded in `data`, or nothing if `data` is not a
/// back-to-back sequence of well-formed entry images.
pub open spec fn decode_mc(data: Seq<u8>) -> Option<Seq<MceView>>
    decreases data.len(),
{
    if data.len() == 0 {
        Some(Seq::<MceView>::empty())
    } else if data.len() < 17 {
        None
    } else {
        let mlen = le32_at(data, 13) as int;
        if data.len() < 17 + mlen {
            None
        } else {
            let e = MceView {
                id: le64_at(data, 0),
                instruction_kind: data[8],
                width: le32_at(data, 9),
                msk: data.subrange(17, 17 + mlen),
            };
            match decode_mc(data.skip(17 + mlen)) {
                Some(rest) => Some(seq![e] + rest),
                None => None,
            }
        }
    }
}

/// Appending one entry to a cache appends its image to the byte form.
proof fn lemma_encode_push(s: Seq<MceView>, e: MceView)
    ensures
        encode_mc(s.push(e)) == encode_mc(s) + encode_entry(e),
    decreases s.len(),
{
    if s.len() == 0 {
        assert(s.push(e).drop_first() =~= Seq::<MceView>::empty());
        assert(s.push(e).first() == e);
        assert(encode_mc(Seq::<MceView>::empty()) == Seq::<u8>::empty());
        assert(encode_mc(s.push(e)) =~= encode_entry(e));
        assert(encode_mc(s) + encode_entry(e) =~= encode_entry(e));
    } else {
        assert(s.push(e).drop_first() =~= s.drop_first().push(e));
        lemma_encode_push(s.drop_first(), e);
        assert(s.push(e).first() == s.first());
        assert(encode_mc(s) + encode_entry(e) =~= encode_entry(s.first()) + (encode_mc(
            s.drop_first(),
        ) + encode_entry(e)));
    }
}

/// Decoding undoes encoding: the byte image of any cache with bounded
/// masks parses back to exactly the same entries.
pub proof fn lemma_mc_codec_round_trip(s: Seq<MceView>)
    requires
        bounded_masks(s),
    ensures
        decode_mc(encode_mc(s)) == Some(s),
    decreases s.len(),
{
    if s.len() == 0 {
        assert(encode_mc(s) == Seq::<u8>::empty());
    } else {
        let e = s.first();
        let rest = s.drop_first();
        let data = encode_mc(s);
        let head = encode_entry(e);
        let tail = encode_mc(rest);
        assert(data == head + tail);
        let mlen = e.msk.len() as int;
        assert(head.len() == 17 + mlen);
        assert(data.len() >= 17 + mlen);
        // The little-endian fields read back from the concatenation.
        crate::codec::lemma_le64_round_trip(e.id);
        assert(le64_at(data, 0) == e.id) by {
            assert(forall|k: int| 0 <= k < 8 ==> data[k] == le64_bytes(e.id)[k]);
        }
        assert(data[8] == e.instruction_kind);
        crate::codec::lemma_le32_round_trip(e.width);
        assert(le32_at(data, 9) == e.width) by {
            assert(forall|k: int|
                0 <= k < 4 ==> data[9 + k] == le32_bytes(e.width)[k]);
            assert(le32_at(data, 9) == le32_at(le32_bytes(e.width), 0));
        }
        crate::codec::lemma_le32_round_trip(e.msk.len() as u32);
        assert(le32_at(data, 13) == e.msk.len() as u32) by {
            assert(forall|k: int|
                0 <= k < 4 ==> data[13 + k] == #[trigger] le32_bytes(e.msk.len() as u32)[k]);
            assert(le32_at(data, 13) == le32_at(le32_bytes(e.msk.len() as u32), 0));
        }
        assert(data.subrange(17, 17 + mlen) =~= e.msk);
        assert(data.skip(17 + mlen) =~= tail);
        lemma_mc_codec_round_trip(rest);
        assert(decode_mc(data) == Some(seq![e] + rest));
        assert(seq![e] + rest =~= s);
    }
}

impl MutationCache {
    /// Serialise the cache to its stable byte form.
    pub fn to_bytes(&self) -> (r: Vec<u8>)
        requires
            self.wf(),
        ensures
            r@ == encode_mc(self@),
    {
        let n = self.entries.len();
        let mut out: Vec<u8> = Vec::new();
        let mut i: usize = 0;
        proof {
            assert(self@.take(0) =~= Seq::<MceView>::empty());
            assert(out@ =~= encode_mc(self@.take(0)));
        }
        while i < n
            invariant
                i <= n,
                n == self@.len(),
                self.wf(),
                out@ == encode_mc(self@.take(i as int)),
            decreases n - i,
        {
            let e = &self.entries[i];
            codec::push_u64_le(&mut out, e.id.0);
            out.push(e.instruction_kind);
            codec::push_u32_le(&mut out, e.width);
            codec::push_u32_le(&mut out, e.msk.len() as u32);
            codec::push_bytes(&mut out, &e.msk);
            i = i + 1;
            proof {
                lemma_encode_push(self@.take(i - 1), self@[i - 1]);
                assert(self@.take(i as int).drop_last() =~= self@.take(i - 1));
                assert(self@.take(i as int) =~= self@.take(i - 1).push(self@[i - 1]));
                assert(out@ =~= encode_mc(self@.take(i as int)));
            }
        }
        proof {
            assert(self@.take(n as int) =~= self@);
        }
        out
    }

    /// Replace the cache's contents with the entries serialised in `data`.
    ///
    /// Fails, leaving the cache unchanged, when the bytes are not a valid
    /// encoding or when the encoded entries repeat a patch-point ID.
    pub fn load_bytes(&mut self, data: &Vec<u8>) -> (r: Result<(), McLoadError>)
        requires
            old(self).wf(),
        ensures
            final(self).wf(),
            match r {
                Ok(()) => {
                    &&& decode_mc(data@) matches Some(s)
                    &&& unique_ids(decode_mc(data@).unwrap())
                    &&& final(self)@ == decode_mc(data@).unwrap()
                },
                Err(McLoadError::Malformed) => {
                    &&& decode_mc(data@) is None
                    &&& final(self)@ == old(self)@
                },
                Err(McLoadError::DuplicateId) => {
                    &&& decode_mc(data@) matches Some(s2) && !unique_ids(s2)
                    &&& final(self)@ == old(self)@
                },
            },
    {
        let total = data.len();
        let mut out: Vec<MutationCacheEntry> = Vec::new();
        let mut off: usize = 0;
        proof {
            assert(data@.skip(0) =~= data@);
            assert(out@.map_values(|e: MutationCacheEntry| e@) =~= Seq::<MceView>::empty());
            if decode_mc(data@) is Some {
                let r0 = decode_mc(data@).unwrap();
                assert(Seq::<MceView>::empty() + r0 =~= r0);
            }
        }
        while off < total
            invariant
                off <= total,
                total == data@.len(),
                self@ == old(self)@,
                old(self).wf(),
                decode_mc(data@) == match decode_mc(data@.skip(off as int)) {
                    Some(rest) => Some(
                        out@.map_values(|e: MutationCacheEntry| e@) + rest,
                    ),
                    None => None::<Seq<MceView>>,
                },
                bounded_masks(out@.map_values(|e: MutationCacheEntry| e@)),
            decreases total - off,
        {
            let remaining = total - off;
            if remaining < 17 {
                proof {
                    assert(decode_mc(data@.skip(off as int)) is None);
                }
                return Err(McLoadError::Malformed);
            }
            let mlen = codec::read_u32_le(data, off + 13) as usize;
            proof {
                assert(le32_at(data@.skip(off as int), 13) == le32_at(data@, off + 13));
            }
            if remaining - 17 < mlen {
                proof {
                    assert(decode_mc(data@.skip(off as int)) is None);
                }
                return Err(McLoadError::Malformed);
            }
            let id = codec::read_u64_le(data, off);
            let kind = data[off + 8];
            let width = codec::read_u32_le(data, off + 9);
            let msk = codec::read_bytes(data, off + 17, mlen);
            let e = MutationCacheEntry { id: MutationSiteID(id), instruction_kind: kind, width, msk };
            let ghost outprev = out@.map_values(|q: MutationCacheEntry| q@);
            out.push(e);
            proof {
                let rem = data@.skip(off as int);
                assert(le64_at(rem, 0) == le64_at(data@, off as int));
                assert(le32_at(rem, 9) == le32_at(data@, off + 9));
                assert(rem[8] == data@[off + 8]);
                assert(rem.subrange(17, 17 + mlen as int) =~= data@.subrange(
                    off + 17,
                    off + 17 + mlen as int,
                ));
                assert(e@ =~= (MceView {
                    id: le64_at(rem, 0),
                    instruction_kind: rem[8],
                    width: le32_at(rem, 9),
                    msk: rem.subrange(17, 17 + mlen as int),
                }));
                assert(rem.skip(17 + mlen as int) =~= data@.skip(off + 17 + mlen as int));
                assert(out@.map_values(|q: MutationCacheEntry| q@) =~= outprev.push(e@));
                assert forall|rest2: Seq<MceView>|
                    decode_mc(data@.skip(off + 17 + mlen as int)) == Some(rest2) implies outprev
                    + (seq![e@] + rest2) =~= outprev.push(e@) + rest2 by {}
            }
            off = off + 17 + mlen;
        }
        proof {
            assert(data@.skip(total as int) =~= Seq::<u8>::empty());
            assert(decode_mc(data@.skip(total as int)) == Some(Seq::<MceView>::empty()));
            assert(out@.map_values(|e: MutationCacheEntry| e@) + Seq::<MceView>::empty()
                =~= out@.map_values(|e: MutationCacheEntry| e@));
        }
        // Reject a repeated patch-point ID.
        let ghost views = out@.map_values(|e: MutationCacheEntry| e@);
        let cnt = out.len();
        let mut seen = IdSet::new();
        let mut k: usize = 0;
        while k < cnt
            invariant
                k <= cnt,
                cnt == views.len(),
                views == out@.map_values(|e: MutationCacheEntry| e@),
                decode_mc(data@) == Some(views),
                self@ == old(self)@,
                old(self).wf(),
                seen.wf(),
                forall|x: u64| seen@.contains(x) <==> has_id(views.take(k as int), x),
                forall|a: int, b: int| 0 <= a < b < k ==> views[a].id != views[b].id,
            decreases cnt - k,
        {
            let id = out[k].id.0;
            if seen.contains(id) {
                proof {
                    let a = choose|a: int| 0 <= a < k && views.take(k as int)[a].id == id;
                    assert(views[a].id == views[k as int].id);
                    assert(!unique_ids(views));
                }
                return Err(McLoadError::DuplicateId);
            }
            proof {
                assert forall|a: int| 0 <= a < k implies views[a].id != views[k as int].id by {
                    if views[a].id == views[k as int].id {
                        assert(views.take(k as int)[a].id == views[k as int].id);
                        assert(has_id(views.take(k as int), id));
                    }
                }
            }
            seen.insert(id);
            k = k + 1;
            proof {
                assert forall|x: u64|
                    has_id(views.take(k as int), x) <==> has_id(views.take(k - 1), x) || x
                        == views[k - 1].id by {
                    let t1 = views.take(k as int);
                    let t0 = views.take(k - 1);
                    if has_id(t1, x) {
                        let q = choose|q: int| 0 <= q < t1.len() && t1[q].id == x;
                        if q < k - 1 {
                            assert(t0[q].id == x);
                        }
                    }
                    if has_id(t0, x) {
                        let q = choose|q: int| 0 <= q < t0.len() && t0[q].id == x;
                        assert(t1[q].id == x);
                    }
                    if x == views[k - 1].id {
                        assert(t1[k - 1].id == x);
                    }
                }
            }
        }
        proof {
            assert(views.take(cnt as int) =~= views);
            assert(unique_ids(views));
        }
        self.entries = out;
        Ok(())
    }
}

/// Why `load_bytes` refused a byte string.
#[derive(Clone, Copy, Debug, PartialEq, Eq, Structural)]
pub enum McLoadError {
    /// The bytes are not a back-to-back sequence of entry images.
    Malformed,
    /// Two encoded entries carry the same patch-point ID.
    DuplicateId,
}

} // verus!

