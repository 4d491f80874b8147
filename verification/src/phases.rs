//! The phase engine's candidate selection and mutator preparation.
//!
//! The Add phase extends an existing queue entry by activating additional
//! covered patch points.  Its candidate draw is a weighted composite
//! sample: already-active sites are forced in, then the unfuzzed,
//! yielding and random classes each draw their share from the remaining
//! (fresh) covered sites, and no class can redraw what an earlier class
//! took.

use vstd::prelude::*;
use vstd::multiset::Multiset;

use crate::cerebrum::Cerebrum;
use crate::config::AddPhaseConfig;
use crate::id_set::IdSet;
use crate::mutation_cache::{
    has_id, MceView, MutationCache, MutationCacheEntry, PatchPoint,
};
use crate::trace::Trace;
use crate::worker::FuzzingWorker;

verus! {

broadcast use vstd::seq_lib::group_to_multiset_ensures;

/// Relies on rand::Rng::gen_range over rand::thread_rng: a uniformly
/// drawn index strictly below `bound`.
#[verifier::external_body]
fn random_index_below(bound: usize) -> (r: usize)
    requires
        bound > 0,
    ensures
        r < bound,
{
    rand::Rng::gen_range(&mut rand::thread_rng(), 0..bound)
}

/// Reorder a vector randomly; the elements are kept exactly.
pub fn shuffle<T>(v: &mut Vec<T>)
    ensures
        final(v)@.to_multiset() == old(v)@.to_multiset(),
        final(v)@.len() == old(v)@.len(),
{
    broadcast use vstd::seq_lib::group_to_multiset_ensures;

    let mut out: Vec<T> = Vec::new();
    proof {
        assert(out@.to_multiset() =~= Multiset::<T>::empty());
        assert(out@.to_multiset().add(v@.to_multiset()) =~= v@.to_multiset());
    }
    while v.len() > 0
        invariant
            out@.to_multiset().add(v@.to_multiset()) == old(v)@.to_multiset(),
            out@.len() + v@.len() == old(v)@.len(),
        decreases v@.len(),
    {
        let i = random_index_below(v.len());
        let ghost outprev = out@;
        let ghost vprev = v@;
        let x = v.remove(i);
        out.push(x);
        proof {
            assert(out@.to_multiset() =~= outprev.to_multiset().insert(x));
            assert(vprev.contains(x));
            assert(v@.to_multiset() =~= vprev.to_multiset().remove(x));
            assert(out@.to_multiset().add(v@.to_multiset()) =~= outprev.to_multiset().add(
                vprev.to_multiset(),
            ));
        }
    }
    proof {
        assert(v@.to_multiset() =~= Multiset::<T>::empty());
        assert(out@.to_multiset().add(v@.to_multiset()) =~= out@.to_multiset());
    }
    *v = out;
}

/// Draw up to `k` elements uniformly without replacement; the pool loses
/// exactly what was drawn.
pub fn sample_ids(pool: &mut IdSet, k: usize) -> (r: Vec<u64>)
    requires
        old(pool).wf(),
    ensures
        final(pool).wf(),
        r@.len() == if k <= old(pool)@.len() {
            k as int
        } else {
            old(pool)@.len() as int
        },
        final(pool)@.len() + r@.len() == old(pool)@.len(),
        forall|i: int, j: int| 0 <= i < j < r@.len() ==> r@[i] != r@[j],
        forall|x: u64| #[trigger] r@.contains(x) ==> old(pool)@.contains(x),
        forall|x: u64|
            #[trigger] final(pool)@.contains(x) <==> old(pool)@.contains(x) && !r@.contains(
                x,
            ),
{
    let ghost pool0 = pool@;
    let mut r: Vec<u64> = Vec::new();
    let mut i: usize = 0;
    while i < k && pool.len() > 0
        invariant
            i <= k,
            pool.wf(),
            r@.len() == i,
            i + pool@.len() == pool0.len(),
            forall|a: int, b: int| 0 <= a < b < r@.len() ==> r@[a] != r@[b],
            forall|x: u64| r@.contains(x) ==> #[trigger] pool0.contains(x),
            forall|x: u64|
                pool@.contains(x) <==> #[trigger] pool0.contains(x) && !r@.contains(x),
        decreases k - i,
    {
        let idx = random_index_below(pool.len());
        let id = pool.index(idx);
        proof {
            assert(pool@.contains(id));
            assert(pool0.contains(id));
            assert(pool@.contains(id) <==> pool0.contains(id) && !r@.contains(id));
            assert(!r@.contains(id));
        }
        let ghost poolpre = pool@;
        pool.remove(id);
        let ghost rprev = r@;
        r.push(id);
        proof {
            assert forall|a: int, b: int| 0 <= a < b < r@.len() implies r@[a] != r@[b] by {
                if b == r@.len() - 1 {
                    assert(rprev.contains(r@[a]));
                } else {
                    assert(r@[a] == rprev[a] && r@[b] == rprev[b]);
                }
            }
            assert forall|x: u64| r@.contains(x) <==> rprev.contains(x) || x == id by {
                if r@.contains(x) {
                    let w = choose|w: int| 0 <= w < r@.len() && r@[w] == x;
                    if w < rprev.len() {
                        assert(rprev[w] == x);
                    }
                }
                if rprev.contains(x) {
                    let w = choose|w: int| 0 <= w < rprev.len() && rprev[w] == x;
                    assert(r@[w] == x);
                }
                if x == id {
                    assert(r@[r@.len() - 1] == x);
                }
            }
            assert forall|x: u64| r@.contains(x) implies pool0.contains(x) by {
                if x != id {
                    assert(rprev.contains(x));
                }
            }
            assert forall|x: u64|
                pool@.contains(x) <==> pool0.contains(x) && !r@.contains(x) by {
                assert(pool@.contains(x) <==> poolpre.contains(x) && x != id);
                assert(pool0.contains(x) || !poolpre.contains(x));
                assert(poolpre.contains(x) <==> pool0.contains(x) && !rprev.contains(x));
                assert(r@.contains(x) <==> rprev.contains(x) || x == id);
            }
        }
        i = i + 1;
    }
    r
}

/// Remove every element of `ids` from the pool.
pub fn withdraw_ids(pool: &mut IdSet, ids: &Vec<u64>)
    requires
        old(pool).wf(),
    ensures
        final(pool).wf(),
        forall|x: u64|
            #[trigger] final(pool)@.contains(x) <==> old(pool)@.contains(x) && !ids@.contains(
                x,
            ),
{
    let n = ids.len();
    let mut i: usize = 0;
    while i < n
        invariant
            i <= n,
            n == ids@.len(),
            pool.wf(),
            forall|x: u64|
                pool@.contains(x) <==> old(pool)@.contains(x) && !ids@.take(i as int).contains(
                    x,
                ),
        decreases n - i,
    {
        pool.remove(ids[i]);
        i = i + 1;
        proof {
            assert forall|x: u64|
                ids@.take(i as int).contains(x) <==> ids@.take(i - 1).contains(x) || x == ids@[i
                - 1] by {
                let t1 = ids@.take(i as int);
                let t0 = ids@.take(i - 1);
                if t1.contains(x) {
                    let w = choose|w: int| 0 <= w < t1.len() && t1[w] == x;
                    if w < i - 1 {
                        assert(t0[w] == x);
                    }
                }
                if t0.contains(x) {
                    let w = choose|w: int| 0 <= w < t0.len() && t0[w] == x;
                    assert(t1[w] == x);
                }
                if x == ids@[i - 1] {
                    assert(t1[i - 1] == x);
                }
            }
        }
    }
    proof {
        assert(ids@.take(n as int) =~= ids@);
    }
}

/// The iteration budget of the random-byte mutator for a mask of `len`
/// bytes: generous for short masks, linear in the middle, capped at 2048.
pub open spec fn spec_mutator_iterations(len: nat) -> nat {
    if len <= 32 {
        32 * len
    } else if len <= 128 {
        16 * len
    } else {
        2048
    }
}

/// The iteration budget for a mask of `msk_len` bytes.
pub fn mutator_iterations(msk_len: usize) -> (r: u64)
    ensures
        r == spec_mutator_iterations(msk_len as nat),
{
    if msk_len <= 32 {
        32 * (msk_len as u64)
    } else if msk_len <= 128 {
        16 * (msk_len as u64)
    } else {
        2048
    }
}

/// One selection class's share of the batch:
/// `floor((weight / weights_sum) · batch_size)`.
pub open spec fn spec_share(weight: u32, weights_sum: u32, batch_size: u32) -> int {
    (weight * batch_size) / (weights_sum as int)
}

/// Compute one class's share of the batch.
pub fn calc_share(weight: u32, weights_sum: u32, batch_size: u32) -> (r: u64)
    requires
        weights_sum > 0,
        weight <= weights_sum,
    ensures
        r == spec_share(weight, weights_sum, batch_size),
        r <= batch_size,
{
    proof {
        assert((weight as int) * (batch_size as int) <= 0xFFFFFFFFu64 * 0xFFFFFFFFu64)
            by (nonlinear_arith)
            requires
                0 <= weight as int <= 0xFFFFFFFFu64,
                0 <= batch_size as int <= 0xFFFFFFFFu64,
        ;
    }
    let r = ((weight as u64) * (batch_size as u64)) / (weights_sum as u64);
    proof {
        let w = weight as int;
        let s = weights_sum as int;
        let b = batch_size as int;
        assert(w * b <= s * b) by (nonlinear_arith)
            requires
                0 <= w <= s,
                0 <= b,
        ;
        vstd::arithmetic::div_mod::lemma_div_is_ordered(w * b, s * b, s);
        vstd::arithmetic::div_mod::lemma_div_by_multiple(b, s);
    }
    r
}

/// The three class shares never oversubscribe the batch: when the weights
/// sum to `weights_sum`, the floors of the three proportional shares add
/// up to at most `batch_size`.
pub proof fn lemma_shares_fit_batch(w1: u32, w2: u32, w3: u32, s: u32, b: u32)
    requires
        s > 0,
        w1 + w2 + w3 == s,
    ensures
        spec_share(w1, s, b) + spec_share(w2, s, b) + spec_share(w3, s, b) <= b,
{
    let si = s as int;
    let w1i = w1 as int;
    let w2i = w2 as int;
    let w3i = w3 as int;
    let bi = b as int;
    let x1 = w1i * bi;
    let x2 = w2i * bi;
    let x3 = w3i * bi;
    let q1 = x1 / si;
    let q2 = x2 / si;
    let q3 = x3 / si;
    vstd::arithmetic::div_mod::lemma_fundamental_div_mod(x1, si);
    vstd::arithmetic::div_mod::lemma_fundamental_div_mod(x2, si);
    vstd::arithmetic::div_mod::lemma_fundamental_div_mod(x3, si);
    vstd::arithmetic::div_mod::lemma_mod_bound(x1, si);
    vstd::arithmetic::div_mod::lemma_mod_bound(x2, si);
    vstd::arithmetic::div_mod::lemma_mod_bound(x3, si);
    assert(x1 >= 0 && x2 >= 0 && x3 >= 0) by (nonlinear_arith)
        requires
            w1i >= 0 && w2i >= 0 && w3i >= 0 && bi >= 0,
            x1 == w1i * bi,
            x2 == w2i * bi,
            x3 == w3i * bi,
    ;
    assert(x1 + x2 + x3 == si * bi) by (nonlinear_arith)
        requires
            w1i + w2i + w3i == si,
            x1 == w1i * bi,
            x2 == w2i * bi,
            x3 == w3i * bi,
    ;
    assert(si * (q1 + q2 + q3) <= si * bi) by (nonlinear_arith)
        requires
            x1 == si * q1 + x1 % si,
            x2 == si * q2 + x2 % si,
            x3 == si * q3 + x3 % si,
            x1 % si >= 0,
            x2 % si >= 0,
            x3 % si >= 0,
            x1 + x2 + x3 == si * bi,
    ;
    assert(q1 + q2 + q3 <= bi) by (nonlinear_arith)
        requires
            si > 0,
            si * (q1 + q2 + q3) <= si * bi,
    ;
}

/// A mutation mask with bit `i` (little-endian within each byte) flipped.
pub open spec fn flip_bit(m: Seq<u8>, i: int) -> Seq<u8> {
    m.update(i / 8, (m[i / 8] ^ (1u8 << (i % 8) as u8)) as u8)
}

/// One mutator in a target's pipeline.
#[derive(Clone, Copy, Debug, PartialEq, Eq, Structural)]
pub enum Mutator {
    /// Systematic single-bit flip: step `i` flips bit `i` and restores
    /// bit `i - 1`, so each step's mask differs from the base in one bit.
    FlipOnce { next_bit: u64, total_bits: u64 },
    /// Random single-byte overwrite, with a bounded iteration budget.
    RandomByte1 { remaining: u64 },
}

impl Mutator {
    /// The bit-flip mutator over a mask of `msk_len` bytes.
    pub fn flip_once_new(msk_len: usize) -> (r: Mutator)
        requires
            msk_len * 8 <= u64::MAX,
        ensures
            r == (Mutator::FlipOnce { next_bit: 0, total_bits: (msk_len * 8) as u64 }),
    {
        Mutator::FlipOnce { next_bit: 0, total_bits: (msk_len as u64) * 8 }
    }

    /// The random-byte mutator, absent for empty masks.
    pub fn random_byte1_new(msk_len: usize, iterations: u64) -> (r: Option<Mutator>)
        ensures
            msk_len == 0 ==> r is None,
            msk_len > 0 ==> r == Some(Mutator::RandomByte1 { remaining: iterations }),
    {
        if msk_len == 0 {
            None
        } else {
            Some(Mutator::RandomByte1 { remaining: iterations })
        }
    }

    /// Apply one mutation step to `msk`.  Returns false, leaving the mask
    /// alone, once the mutator is exhausted.
    pub fn mutate(&mut self, msk: &mut Vec<u8>) -> (more: bool)
        requires
            (*old(self) matches Mutator::FlipOnce { next_bit, total_bits } ==> total_bits == old(
                msk,
            )@.len() * 8),
        ensures
            match *old(self) {
                Mutator::FlipOnce { next_bit, total_bits } => {
                    &&& (more <==> next_bit < total_bits)
                    &&& (more ==> {
                        &&& *final(self) == (Mutator::FlipOnce {
                            next_bit: (next_bit + 1) as u64,
                            total_bits,
                        })
                        &&& final(msk)@ == (if next_bit > 0 {
                            flip_bit(flip_bit(old(msk)@, next_bit - 1), next_bit as int)
                        } else {
                            flip_bit(old(msk)@, next_bit as int)
                        })
                    })
                    &&& (!more ==> *final(self) == *old(self) && final(msk)@ == old(msk)@)
                },
                Mutator::RandomByte1 { remaining } => {
                    &&& (more <==> remaining > 0 && old(msk)@.len() > 0)
                    &&& (more ==> {
                        &&& *final(self) == (Mutator::RandomByte1 {
                            remaining: (remaining - 1) as u64,
                        })
                        &&& exists|p: int, b: u8|
                            0 <= p < old(msk)@.len() && final(msk)@ == old(msk)@.update(p, b)
                    })
                    &&& (!more ==> *final(self) == *old(self) && final(msk)@ == old(msk)@)
                },
            },
    {
        match *self {
            Mutator::FlipOnce { next_bit, total_bits } => {
                if next_bit >= total_bits {
                    return false;
                }
                proof {
                    assert(*old(self) == (Mutator::FlipOnce { next_bit, total_bits }));
                    assert(total_bits == old(msk)@.len() * 8);
                }
                let len = msk.len();
                proof {
                    let nb = next_bit as int;
                    let li = len as int;
                    assert(nb / 8 < li) by (nonlinear_arith)
                        requires
                            0 <= nb,
                            nb < li * 8,
                    ;
                }
                if next_bit > 0 {
                    let prev = next_bit - 1;
                    let bi = (prev / 8) as usize;
                    let mask: u8 = 1u8 << ((prev % 8) as u8);
                    let b = msk[bi];
                    msk[bi] = b ^ mask;
                    proof {
                        assert(msk@ =~= flip_bit(old(msk)@, prev as int));
                    }
                }
                let ghost mid = msk@;
                let bi = (next_bit / 8) as usize;
                let mask: u8 = 1u8 << ((next_bit % 8) as u8);
                let b = msk[bi];
                msk[bi] = b ^ mask;
                *self = Mutator::FlipOnce { next_bit: next_bit + 1, total_bits };
                proof {
                    assert(msk@ =~= flip_bit(mid, next_bit as int));
                }
                true
            },
            Mutator::RandomByte1 { remaining } => {
                if remaining == 0 || msk.len() == 0 {
                    return false;
                }
                let pos = random_index_below(msk.len());
                let val = random_index_below(256) as u8;
                msk[pos] = val;
                *self = Mutator::RandomByte1 { remaining: remaining - 1 };
                proof {
                    assert(msk@ == old(msk)@.update(pos as int, val));
                }
                true
            },
        }
    }
}

/// The mutator pipelines prepared for a fresh target whose mask has
/// `len` bytes: always the systematic bit flip, plus the random-byte
/// mutator when the mask is not empty.
pub open spec fn spec_pipelines_for(len: nat) -> Seq<Mutator> {
    if len > 0 {
        seq![
            Mutator::FlipOnce { next_bit: 0, total_bits: (len * 8) as u64 },
            Mutator::RandomByte1 { remaining: spec_mutator_iterations(len) as u64 },
        ]
    } else {
        seq![Mutator::FlipOnce { next_bit: 0, total_bits: 0 }]
    }
}

/// Overlaying an all-nop patch-point cache with the entry's cache keeps
/// exactly the known sites, and a site is active afterwards exactly when
/// the entry's cache had it active.
proof fn lemma_union_site_chars(
    pps: Seq<PatchPoint>,
    t0: Seq<MceView>,
    mc: Seq<MceView>,
    t1: Seq<MceView>,
    x: u64,
)
    requires
        t0.len() == pps.len(),
        forall|i: int|
            0 <= i < pps.len() ==> t0[i] == (MceView {
                id: pps[i].id.0,
                instruction_kind: pps[i].instruction_kind,
                width: pps[i].width,
                msk: Seq::<u8>::empty(),
            }),
        crate::mutation_cache::unique_ids(mc),
        t1 == t0.map_values(|e: MceView| crate::mutation_cache::override_from(mc, e))
            + mc.filter(|e: MceView| !has_id(t0, e.id)),
    ensures
        has_id(t1, x) <==> known_site(pps, mc, x),
        active_in(t1, x) <==> active_in(mc, x),
{
    let fpred = |e: MceView| !has_id(t0, e.id);
    let f = mc.filter(fpred);
    // Overriding keeps every ID in place.
    assert forall|q: int| 0 <= q < t0.len() implies (#[trigger] t1[q]).id == t0[q].id by {
        if crate::mutation_cache::has_id(mc, t0[q].id) {
            let w = crate::mutation_cache::idx_of(mc, t0[q].id);
            assert(0 <= w < mc.len() && mc[w].id == t0[q].id);
        }
    }
    if has_id(t1, x) {
        let q = choose|q: int| 0 <= q < t1.len() && t1[q].id == x;
        if q < t0.len() {
            assert(pps[q].id.0 == x);
        } else {
            crate::id_set::lemma_filter_membership(mc, fpred, t1[q]);
            assert(f.contains(t1[q]));
            let w = choose|w: int| 0 <= w < mc.len() && mc[w] == t1[q];
            assert(has_id(mc, x));
        }
        assert(known_site(pps, mc, x));
    }
    if known_site(pps, mc, x) {
        if exists|i: int| 0 <= i < pps.len() && (#[trigger] pps[i]).id.0 == x {
            let i = choose|i: int| 0 <= i < pps.len() && (#[trigger] pps[i]).id.0 == x;
            assert(t1[i].id == x);
            assert(has_id(t1, x));
        } else {
            let w = choose|w: int| 0 <= w < mc.len() && (#[trigger] mc[w]).id == x;
            if has_id(t0, x) {
                let q = choose|q: int| 0 <= q < t0.len() && t0[q].id == x;
                assert(t1[q].id == x);
            } else {
                assert(fpred(mc[w]));
                crate::id_set::lemma_filter_membership(mc, fpred, mc[w]);
                assert(f.contains(mc[w]));
                let pos = choose|pos: int| 0 <= pos < f.len() && f[pos] == mc[w];
                assert(t1[t0.len() + pos] == mc[w]);
            }
            assert(has_id(t1, x));
        }
    }
    if active_in(t1, x) {
        let q = choose|q: int| 0 <= q < t1.len() && t1[q].id == x && t1[q].msk.len() > 0;
        if q < t0.len() {
            assert(t1[q] == crate::mutation_cache::override_from(mc, t0[q]));
            if crate::mutation_cache::has_id(mc, t0[q].id) {
                let w = crate::mutation_cache::idx_of(mc, t0[q].id);
                assert(0 <= w < mc.len() && mc[w].id == t0[q].id);
                assert(t1[q] == mc[w]);
                assert(active_in(mc, x));
            } else {
                assert(t1[q] == t0[q]);
                assert(false);
            }
        } else {
            crate::id_set::lemma_filter_membership(mc, fpred, t1[q]);
            let w = choose|w: int| 0 <= w < mc.len() && mc[w] == t1[q];
            assert(active_in(mc, x));
        }
    }
    if active_in(mc, x) {
        let w = choose|w: int| 0 <= w < mc.len() && (#[trigger] mc[w]).id == x && mc[w].msk.len()
            > 0;
        if has_id(t0, x) {
            let q = choose|q: int| 0 <= q < t0.len() && t0[q].id == x;
            assert(t1[q] == crate::mutation_cache::override_from(mc, t0[q]));
            assert(crate::mutation_cache::has_id(mc, x));
            let v = crate::mutation_cache::idx_of(mc, x);
            assert(0 <= v < mc.len() && mc[v].id == x);
            assert(v == w);
            assert(t1[q] == mc[w]);
            assert(active_in(t1, x));
        } else {
            assert(fpred(mc[w]));
            crate::id_set::lemma_filter_membership(mc, fpred, mc[w]);
            let pos = choose|pos: int| 0 <= pos < f.len() && f[pos] == mc[w];
            assert(t1[t0.len() + pos] == mc[w]);
            assert(active_in(t1, x));
        }
    }
}

/// Trimming to the covered sites keeps membership and activity exactly
/// on the covered sites.
proof fn lemma_trim_site_chars(t1: Seq<MceView>, covered: Seq<u64>, t2: Seq<MceView>, x: u64)
    requires
        t2 == t1.filter(|e: MceView| covered.contains(e.id)),
    ensures
        has_id(t2, x) <==> has_id(t1, x) && covered.contains(x),
        active_in(t2, x) <==> active_in(t1, x) && covered.contains(x),
{
    let pred = |e: MceView| covered.contains(e.id);
    if has_id(t2, x) {
        let q = choose|q: int| 0 <= q < t2.len() && t2[q].id == x;
        crate::id_set::lemma_filter_membership(t1, pred, t2[q]);
        let w = choose|w: int| 0 <= w < t1.len() && t1[w] == t2[q];
        assert(has_id(t1, x) && covered.contains(x));
    }
    if has_id(t1, x) && covered.contains(x) {
        let q = choose|q: int| 0 <= q < t1.len() && (#[trigger] t1[q]).id == x;
        assert(pred(t1[q]));
        crate::id_set::lemma_filter_membership(t1, pred, t1[q]);
        let pos = choose|pos: int| 0 <= pos < t2.len() && t2[pos] == t1[q];
        assert(has_id(t2, x));
    }
    if active_in(t2, x) {
        let q = choose|q: int| 0 <= q < t2.len() && t2[q].id == x && t2[q].msk.len() > 0;
        crate::id_set::lemma_filter_membership(t1, pred, t2[q]);
        let w = choose|w: int| 0 <= w < t1.len() && t1[w] == t2[q];
        assert(active_in(t1, x) && covered.contains(x));
    }
    if active_in(t1, x) && covered.contains(x) {
        let q = choose|q: int|
            0 <= q < t1.len() && (#[trigger] t1[q]).id == x && t1[q].msk.len() > 0;
        assert(pred(t1[q]));
        crate::id_set::lemma_filter_membership(t1, pred, t1[q]);
        let pos = choose|pos: int| 0 <= pos < t2.len() && t2[pos] == t1[q];
        assert(active_in(t2, x));
    }
}

/// Some entry of the cache carries this ID with a non-empty mask.
pub open spec fn active_in(mc: Seq<MceView>, id: u64) -> bool {
    exists|i: int| 0 <= i < mc.len() && (#[trigger] mc[i]).id == id && mc[i].msk.len() > 0
}

/// The ID names a known site: a patch point, or an entry of the queue
/// entry's own cache.
pub open spec fn known_site(pps: Seq<PatchPoint>, mc: Seq<MceView>, id: u64) -> bool {
    (exists|i: int| 0 <= i < pps.len() && (#[trigger] pps[i]).id.0 == id) || has_id(mc, id)
}

/// A forced site: already active in the entry's cache and covered by its
/// trace — always part of the Add phase's selection.
pub open spec fn forced_site(mc: Seq<MceView>, covered: Seq<u64>, id: u64) -> bool {
    active_in(mc, id) && covered.contains(id)
}

/// A fresh site: known and covered but not yet active — the drawable
/// candidate pool of the Add phase.
pub open spec fn fresh_site(pps: Seq<PatchPoint>, mc: Seq<MceView>, covered: Seq<u64>, id: u64) -> bool {
    known_site(pps, mc, id) && covered.contains(id) && !active_in(mc, id)
}

/// What the Add phase hands to the execution loop.
pub struct AddSelection {
    /// The new active mutation cache: the entry's own sites plus the
    /// drawn fresh sites, all covered by the entry's trace.
    pub new_mc: MutationCache,
    /// The drawn fresh entries, shuffled, to be mutated one by one.
    pub targets: Vec<MutationCacheEntry>,
    /// The IDs drawn by the unfuzzed class, in deterministic order.
    pub unfuzzed_drawn: Vec<u64>,
    /// The IDs drawn by the yielding class.
    pub yielding_drawn: Vec<u64>,
    /// The IDs drawn by the random class.
    pub random_drawn: Vec<u64>,
}

impl AddSelection {
    /// The three classes draw disjoint ID sets and stay within the batch.
    pub open spec fn classes_ok(&self, batch_size: u32) -> bool {
        &&& self.unfuzzed_drawn@.len() + self.yielding_drawn@.len() + self.random_drawn@.len()
            <= batch_size
        &&& forall|x: u64|
            !(self.unfuzzed_drawn@.contains(x) && self.yielding_drawn@.contains(x))
        &&& forall|x: u64| !(self.unfuzzed_drawn@.contains(x) && self.random_drawn@.contains(x))
        &&& forall|x: u64| !(self.yielding_drawn@.contains(x) && self.random_drawn@.contains(x))
    }

    /// `x` was drawn by one of the three classes.
    pub open spec fn drawn(&self, x: u64) -> bool {
        self.unfuzzed_drawn@.contains(x) || self.yielding_drawn@.contains(x)
            || self.random_drawn@.contains(x)
    }
}

impl FuzzingWorker {
    /// Choose the Add phase's candidates for one queue entry.
    ///
    /// A temporary cache is built over every known patch point, overlaid
    /// with the entry's own cache, trimmed to the entry's trace and
    /// resized to the instrumented widths.  The entry's own active sites
    /// are forced into the selection; the unfuzzed, yielding and random
    /// classes then each draw exactly their weight share of the fresh
    /// covered sites (or all that remain), the unfuzzed class taking the
    /// first in ascending order, and each class withdrawing its draw so
    /// no later class can repeat it.  The installed cache holds exactly
    /// the forced and drawn sites — all covered by the entry's trace —
    /// and the drawn sites come back, shuffled, as the mutation targets.
    pub fn add_phase_choose_candidates(
        entry_mc: &MutationCache,
        all_patch_points: &Vec<PatchPoint>,
        trace: &Trace,
        cerebrum: &Cerebrum,
        config: &AddPhaseConfig,
    ) -> (r: AddSelection)
        requires
            entry_mc.wf(),
            trace.wf(),
            cerebrum.wf(),
            forall|i: int, j: int|
                0 <= i < j < all_patch_points@.len() ==> all_patch_points@[i].id.0
                    != all_patch_points@[j].id.0,
            config.select_unfuzzed_weight + config.select_yielding_weight
                + config.select_random_weight <= u32::MAX,
            config.select_unfuzzed_weight + config.select_yielding_weight
                + config.select_random_weight > 0,
        ensures
            r.new_mc.wf(),
            forall|i: int|
                0 <= i < r.new_mc@.len() ==> trace@.contains(#[trigger] r.new_mc@[i].id),
            r.classes_ok(config.batch_size),
            // the installed cache holds exactly the forced sites and the draws
            forall|id: u64|
                #[trigger] has_id(r.new_mc@, id) <==> forced_site(entry_mc@, trace@, id)
                    || r.drawn(id),
            // the unfuzzed class takes the first of its candidates in
            // deterministic (ascending) order, exhaustively up to its share
            crate::id_set::strictly_sorted(r.unfuzzed_drawn@),
            forall|x: u64|
                #[trigger] r.unfuzzed_drawn@.contains(x) ==> cerebrum.spec_unfuzzed().contains(
                    x,
                ) && fresh_site(all_patch_points@, entry_mc@, trace@, x),
            forall|x: u64|
                (cerebrum.spec_unfuzzed().contains(x) && #[trigger] fresh_site(
                    all_patch_points@,
                    entry_mc@,
                    trace@,
                    x,
                ) && !r.unfuzzed_drawn@.contains(x)) ==> (r.unfuzzed_drawn@.len() == spec_share(
                    config.select_unfuzzed_weight,
                    (config.select_unfuzzed_weight + config.select_yielding_weight
                        + config.select_random_weight) as u32,
                    config.batch_size,
                ) && (forall|k: int|
                    0 <= k < r.unfuzzed_drawn@.len() ==> r.unfuzzed_drawn@[k] < x)),
            // the yielding class draws from what the unfuzzed class left,
            // exhaustively up to its share
            forall|x: u64|
                #[trigger] r.yielding_drawn@.contains(x) ==> cerebrum.spec_yielded().contains(
                    x,
                ) && fresh_site(all_patch_points@, entry_mc@, trace@, x)
                    && !r.unfuzzed_drawn@.contains(x),
            forall|x: u64|
                (cerebrum.spec_yielded().contains(x) && #[trigger] fresh_site(
                    all_patch_points@,
                    entry_mc@,
                    trace@,
                    x,
                ) && !r.unfuzzed_drawn@.contains(x) && !r.yielding_drawn@.contains(x))
                    ==> r.yielding_drawn@.len() == spec_share(
                    config.select_yielding_weight,
                    (config.select_unfuzzed_weight + config.select_yielding_weight
                        + config.select_random_weight) as u32,
                    config.batch_size,
                ),
            // the random class draws from the remainder, exhaustively
            forall|x: u64|
                #[trigger] r.random_drawn@.contains(x) ==> fresh_site(
                    all_patch_points@,
                    entry_mc@,
                    trace@,
                    x,
                ) && !r.unfuzzed_drawn@.contains(x) && !r.yielding_drawn@.contains(x),
            forall|x: u64|
                (#[trigger] fresh_site(all_patch_points@, entry_mc@, trace@, x)
                    && !r.unfuzzed_drawn@.contains(x) && !r.yielding_drawn@.contains(x)
                    && !r.random_drawn@.contains(x)) ==> r.random_drawn@.len() == spec_share(
                    config.select_random_weight,
                    (config.select_unfuzzed_weight + config.select_yielding_weight
                        + config.select_random_weight) as u32,
                    config.batch_size,
                ),
            // the targets are exactly the drawn sites, one nop entry each
            forall|i: int|
                0 <= i < r.targets@.len() ==> r.drawn((#[trigger] r.targets@[i])@.id),
            forall|i: int|
                0 <= i < r.targets@.len() ==> (#[trigger] r.targets@[i])@.msk.len() == 0,
            forall|i: int, k: int|
                0 <= i < k < r.targets@.len() ==> (#[trigger] r.targets@[i])@.id != (
                #[trigger] r.targets@[k])@.id,
            forall|x: u64|
                #[trigger] r.drawn(x) ==> exists|i: int|
                    0 <= i < r.targets@.len() && (#[trigger] r.targets@[i])@.id == x,
    {
        // Step 1: every known patch point, overlaid with the entry's
        // cache, trimmed to the trace, resized to the instrumented
        // widths.  No handle into the cache is held across these calls.
        let mut tmp = MutationCache::from_patchpoints(all_patch_points);
        let ghost t0 = tmp@;
        tmp.union_and_replace(entry_mc);
        let ghost before_trim = tmp@;
        tmp.remove_uncovered(trace);
        let ghost t2 = tmp@;
        proof {
            let pred = |e: MceView| trace@.contains(e.id);
            assert forall|q: int| 0 <= q < tmp@.len() implies trace@.contains(
                (#[trigger] tmp@[q]).id,
            ) by {
                Seq::lemma_filter_pred(before_trim, pred, q);
            }
            // per-site membership and activity of the trimmed cache
            assert forall|x: u64|
                #[trigger] has_id(t2, x) == (known_site(all_patch_points@, entry_mc@, x)
                    && trace@.contains(x)) by {
                lemma_union_site_chars(all_patch_points@, t0, entry_mc@, before_trim, x);
                lemma_trim_site_chars(before_trim, trace@, t2, x);
            }
            assert forall|x: u64|
                #[trigger] active_in(t2, x) == (active_in(entry_mc@, x) && trace@.contains(
                    x,
                )) by {
                lemma_union_site_chars(all_patch_points@, t0, entry_mc@, before_trim, x);
                lemma_trim_site_chars(before_trim, trace@, t2, x);
            }
        }
        // Step 2: partition, before resizing, into the entry's own
        // active sites (forced into the selection) and the fresh, still
        // nop sites (the drawable pool).
        let mut fresh_pool = IdSet::new();
        let n = tmp.len();
        let mut i: usize = 0;
        while i < n
            invariant
                i <= n,
                n == tmp@.len(),
                tmp@ == t2,
                tmp.wf(),
                fresh_pool.wf(),
                forall|q: int| 0 <= q < n ==> trace@.contains((#[trigger] tmp@[q]).id),
                forall|x: u64| #[trigger] fresh_pool@.contains(x) ==> trace@.contains(x),
                forall|x: u64|
                    #[trigger] fresh_pool@.contains(x) <==> exists|q: int|
                        0 <= q < i && (#[trigger] t2[q]).id == x && t2[q].msk.len() == 0,
            decreases n - i,
        {
            let e = tmp.entry_at(i);
            let ghost poolpre = fresh_pool@;
            if e.is_nop() {
                let id0 = e.id.0;
                fresh_pool.insert(id0);
                proof {
                    assert(trace@.contains(tmp@[i as int].id));
                    assert forall|x: u64| #[trigger] fresh_pool@.contains(x) implies
                        trace@.contains(x) by {
                        assert(fresh_pool@.contains(x) <==> poolpre.contains(x) || x == id0);
                    }
                }
            }
            i = i + 1;
            proof {
                assert forall|x: u64|
                    #[trigger] fresh_pool@.contains(x) <==> exists|q: int|
                        0 <= q < i && (#[trigger] t2[q]).id == x && t2[q].msk.len() == 0 by {
                    if t2[i - 1].msk.len() == 0 {
                        assert(fresh_pool@.contains(x) <==> poolpre.contains(x) || x == t2[i
                            - 1].id);
                        if x == t2[i - 1].id {
                            assert(t2[i - 1].id == x && t2[i - 1].msk.len() == 0);
                        }
                    } else {
                        assert(fresh_pool@ == poolpre);
                        if exists|q: int|
                            0 <= q < i && (#[trigger] t2[q]).id == x && t2[q].msk.len() == 0 {
                            let q = choose|q: int|
                                0 <= q < i && (#[trigger] t2[q]).id == x && t2[q].msk.len()
                                    == 0;
                            assert(q < i - 1 || q == i - 1);
                        }
                    }
                }
            }
        }
        proof {
            // the drawable pool holds exactly the fresh sites
            assert forall|x: u64|
                #[trigger] fresh_pool@.contains(x) == fresh_site(
                    all_patch_points@,
                    entry_mc@,
                    trace@,
                    x,
                ) by {
                if fresh_pool@.contains(x) {
                    let q = choose|q: int|
                        0 <= q < n && (#[trigger] t2[q]).id == x && t2[q].msk.len() == 0;
                    assert(has_id(t2, x));
                    assert(!active_in(t2, x)) by {
                        if active_in(t2, x) {
                            let p = choose|p: int|
                                0 <= p < t2.len() && (#[trigger] t2[p]).id == x
                                    && t2[p].msk.len() > 0;
                            assert(p != q);
                            assert(t2[p].id == t2[q].id);
                        }
                    }
                }
                if fresh_site(all_patch_points@, entry_mc@, trace@, x) {
                    assert(has_id(t2, x) && !active_in(t2, x));
                    let q = choose|q: int| 0 <= q < t2.len() && (#[trigger] t2[q]).id == x;
                    assert(t2[q].msk.len() == 0) by {
                        if t2[q].msk.len() > 0 {
                            assert(active_in(t2, x));
                        }
                    }
                }
            }
        }
        let fresh_all = fresh_pool.snapshot();
        proof {
            assert forall|x: u64|
                #[trigger] fresh_all@.contains(x) == fresh_site(
                    all_patch_points@,
                    entry_mc@,
                    trace@,
                    x,
                ) by {
                assert(fresh_all@ == fresh_pool@);
                assert(fresh_pool@.contains(x) == fresh_site(
                    all_patch_points@,
                    entry_mc@,
                    trace@,
                    x,
                ));
            }
        }
        tmp.resize_covered_entries(trace);
        let ghost t3 = tmp@;
        proof {
            assert(forall|q: int|
                0 <= q < tmp@.len() ==> trace@.contains((#[trigger] tmp@[q]).id));
            // resizing keeps every ID, so site membership is unchanged
            assert(forall|q: int| 0 <= q < t3.len() ==> (#[trigger] t3[q]).id == t2[q].id);
            assert forall|x: u64| #[trigger] has_id(t3, x) == has_id(t2, x) by {
                if has_id(t3, x) {
                    let q = choose|q: int| 0 <= q < t3.len() && t3[q].id == x;
                    assert(t2[q].id == x);
                }
                if has_id(t2, x) {
                    let q = choose|q: int| 0 <= q < t2.len() && t2[q].id == x;
                    assert(t3[q].id == x);
                }
            }
        }
        // Step 3: the weight shares.
        let wsum = config.weights_sum();
        let s_u = calc_share(config.select_unfuzzed_weight, wsum, config.batch_size);
        let s_y = calc_share(config.select_yielding_weight, wsum, config.batch_size);
        let s_r = calc_share(config.select_random_weight, wsum, config.batch_size);
        proof {
            lemma_shares_fit_batch(
                config.select_unfuzzed_weight,
                config.select_yielding_weight,
                config.select_random_weight,
                wsum,
                config.batch_size,
            );
        }
        // Unfuzzed class: first share, in deterministic iteration order.
        let unf = cerebrum.patch_points_unfuzzed();
        let unf_cov = unf.intersect(trace.covered());
        let unf_cand = unf_cov.intersect(&fresh_pool);
        let unf_taken = unf_cand.take_first(s_u as usize);
        let unfuzzed_drawn = unf_taken.to_vec();
        proof {
            // the unfuzzed candidates are the unfuzzed fresh sites
            assert forall|x: u64|
                #[trigger] unf_cand@.contains(x) == (cerebrum.spec_unfuzzed().contains(x)
                    && fresh_site(all_patch_points@, entry_mc@, trace@, x)) by {
                assert(fresh_pool@.contains(x) == fresh_site(
                    all_patch_points@,
                    entry_mc@,
                    trace@,
                    x,
                ));
            }
            assert forall|x: u64| unfuzzed_drawn@.contains(x) implies unf_cand@.contains(
                x,
            ) by {
                let w = choose|w: int|
                    0 <= w < unfuzzed_drawn@.len() && unfuzzed_drawn@[w] == x;
                if s_u as usize <= unf_cand@.len() {
                    assert(unf_cand@[w] == x);
                }
            }
            assert(unfuzzed_drawn@.len() <= s_u);
            assert(crate::id_set::strictly_sorted(unfuzzed_drawn@));
            // the draw is the first of the candidates, exhaustively
            assert forall|x: u64|
                (cerebrum.spec_unfuzzed().contains(x) && #[trigger] fresh_site(
                    all_patch_points@,
                    entry_mc@,
                    trace@,
                    x,
                ) && !unfuzzed_drawn@.contains(x)) implies (unfuzzed_drawn@.len() == s_u && (
            forall|k: int|
                0 <= k < unfuzzed_drawn@.len() ==> unfuzzed_drawn@[k] < x)) by {
                assert(unf_cand@.contains(x));
                let idx = choose|idx: int| 0 <= idx < unf_cand@.len() && unf_cand@[idx] == x;
                if s_u as usize <= unf_cand@.len() {
                    assert(unfuzzed_drawn@ == unf_cand@.take(s_u as usize as int));
                    assert(idx >= s_u) by {
                        if idx < s_u {
                            assert(unfuzzed_drawn@[idx] == x);
                        }
                    }
                    assert forall|k: int|
                        0 <= k < unfuzzed_drawn@.len() implies unfuzzed_drawn@[k] < x by {
                        assert(unfuzzed_drawn@[k] == unf_cand@[k]);
                        assert(unf_cand@[k] < unf_cand@[idx]);
                    }
                } else {
                    assert(unfuzzed_drawn@ == unf_cand@);
                    assert(false);
                }
            }
        }
        withdraw_ids(&mut fresh_pool, &unfuzzed_drawn);
        proof {
            // the pool now holds the fresh sites the unfuzzed class left
            assert forall|x: u64|
                #[trigger] fresh_pool@.contains(x) == (fresh_site(
                    all_patch_points@,
                    entry_mc@,
                    trace@,
                    x,
                ) && !unfuzzed_drawn@.contains(x)) by {
                assert(fresh_all@.contains(x) == fresh_site(
                    all_patch_points@,
                    entry_mc@,
                    trace@,
                    x,
                ));
            }
        }
        // Yielding class: uniform draw without replacement.
        let yld = cerebrum.patch_points_yielded();
        let yld_cov = yld.intersect(trace.covered());
        let mut yld_cand = yld_cov.intersect(&fresh_pool);
        proof {
            // the yielding candidates are the yielded fresh sites the
            // unfuzzed class left
            assert forall|x: u64|
                #[trigger] yld_cand@.contains(x) == (cerebrum.spec_yielded().contains(x)
                    && fresh_site(all_patch_points@, entry_mc@, trace@, x)
                    && !unfuzzed_drawn@.contains(x)) by {
                assert(fresh_pool@.contains(x) == (fresh_site(
                    all_patch_points@,
                    entry_mc@,
                    trace@,
                    x,
                ) && !unfuzzed_drawn@.contains(x)));
            }
        }
        let ghost ycand0 = yld_cand@;
        let yielding_drawn = sample_ids(&mut yld_cand, s_y as usize);
        proof {
            assert(yielding_drawn@.len() <= s_y);
            assert forall|x: u64| #[trigger] yielding_drawn@.contains(x) implies (
            cerebrum.spec_yielded().contains(x) && fresh_site(
                all_patch_points@,
                entry_mc@,
                trace@,
                x,
            ) && !unfuzzed_drawn@.contains(x)) by {
                assert(ycand0.contains(x));
            }
            // the draw is exhaustive up to its share
            assert forall|x: u64|
                (cerebrum.spec_yielded().contains(x) && #[trigger] fresh_site(
                    all_patch_points@,
                    entry_mc@,
                    trace@,
                    x,
                ) && !unfuzzed_drawn@.contains(x) && !yielding_drawn@.contains(x)) implies
                yielding_drawn@.len() == s_y by {
                assert(ycand0.contains(x));
                assert(yld_cand@.contains(x));
                if yielding_drawn@.len() < s_y {
                    assert(yld_cand@.len() == 0);
                }
            }
        }
        withdraw_ids(&mut fresh_pool, &yielding_drawn);
        proof {
            // the remaining pool is what both earlier classes left
            assert forall|x: u64|
                #[trigger] fresh_pool@.contains(x) == (fresh_site(
                    all_patch_points@,
                    entry_mc@,
                    trace@,
                    x,
                ) && !unfuzzed_drawn@.contains(x) && !yielding_drawn@.contains(x)) by {
                assert(fresh_all@.contains(x) == fresh_site(
                    all_patch_points@,
                    entry_mc@,
                    trace@,
                    x,
                ));
            }
        }
        // Random class: uniform draw from what is left.
        let ghost rpool0 = fresh_pool@;
        let random_drawn = sample_ids(&mut fresh_pool, s_r as usize);
        proof {
            assert(random_drawn@.len() <= s_r);
            assert forall|x: u64| #[trigger] random_drawn@.contains(x) implies (fresh_site(
                all_patch_points@,
                entry_mc@,
                trace@,
                x,
            ) && !unfuzzed_drawn@.contains(x) && !yielding_drawn@.contains(x)) by {
                assert(rpool0.contains(x));
            }
            assert forall|x: u64|
                (#[trigger] fresh_site(all_patch_points@, entry_mc@, trace@, x)
                    && !unfuzzed_drawn@.contains(x) && !yielding_drawn@.contains(x)
                    && !random_drawn@.contains(x)) implies random_drawn@.len() == s_r by {
                assert(rpool0.contains(x));
                assert(fresh_pool@.contains(x));
                if random_drawn@.len() < s_r {
                    assert(fresh_pool@.len() == 0);
                }
            }
        }
        // The selected fresh sites, as one vector and one set.
        let mut sel_vec: Vec<u64> = Vec::new();
        push_all(&mut sel_vec, &unfuzzed_drawn);
        push_all(&mut sel_vec, &yielding_drawn);
        push_all(&mut sel_vec, &random_drawn);
        proof {
            assert forall|x: u64|
                sel_vec@.contains(x) <==> unfuzzed_drawn@.contains(x)
                    || yielding_drawn@.contains(x) || random_drawn@.contains(x) by {
                lemma_concat_contains(unfuzzed_drawn@ + yielding_drawn@, random_drawn@, x);
                lemma_concat_contains(unfuzzed_drawn@, yielding_drawn@, x);
            }
        }
        let selected = IdSet::from_ids(&sel_vec);
        // Step 4: the new cache holds the forced sites plus the drawn
        // ones; the drawn ones, shuffled, become the mutation targets.
        let mut kept: Vec<MutationCacheEntry> = Vec::new();
        let mut targets: Vec<MutationCacheEntry> = Vec::new();
        let m = tmp.len();
        let mut j: usize = 0;
        while j < m
            invariant
                j <= m,
                m == tmp@.len(),
                tmp.wf(),
                tmp@ == t3,
                selected.wf(),
                forall|x: u64| selected@.contains(x) <==> sel_vec@.contains(x),
                forall|q: int| 0 <= q < m ==> trace@.contains((#[trigger] tmp@[q]).id),
                forall|k: int|
                    0 <= k < kept@.len() ==> exists|q: int|
                        0 <= q < j && (#[trigger] kept@[k])@ == tmp@[q],
                forall|k: int, l: int|
                    0 <= k < l < kept@.len() ==> (#[trigger] kept@[k])@.id != (
                    #[trigger] kept@[l])@.id,
                forall|x: u64|
                    #![trigger fresh_all@.contains(x)]
                    has_id(kept@.map_values(|e: MutationCacheEntry| e@), x) <==> exists|q: int|
                        0 <= q < j && (#[trigger] t3[q]).id == x && (!fresh_all@.contains(x)
                            || sel_vec@.contains(x)),
                forall|k: int|
                    0 <= k < targets@.len() ==> sel_vec@.contains(
                        (#[trigger] targets@[k])@.id,
                    ) && targets@[k]@.msk.len() == 0,
                forall|k: int|
                    0 <= k < targets@.len() ==> exists|q: int|
                        0 <= q < j && (#[trigger] t3[q]).id == (#[trigger] targets@[k])@.id,
                forall|k: int, l: int|
                    0 <= k < l < targets@.len() ==> (#[trigger] targets@[k])@.id != (
                    #[trigger] targets@[l])@.id,
                forall|x: u64|
                    (sel_vec@.contains(x) && (exists|q: int|
                        0 <= q < j && (#[trigger] t3[q]).id == x)) ==> (exists|k: int|
                        0 <= k < targets@.len() && (#[trigger] targets@[k])@.id == x),
            decreases m - j,
        {
            let e = tmp.entry_at(j);
            let id = e.id.0;
            let is_selected = selected.contains(id);
            let forced = !fresh_all.contains(id);
            let ghost keptviews0 = kept@.map_values(|q: MutationCacheEntry| q@);
            let ghost targets0 = targets@;
            if forced || is_selected {
                let ghost keptpre = kept@;
                kept.push(e.duplicate());
                proof {
                    assert(kept@[kept@.len() - 1]@ == tmp@[j as int]);
                    assert forall|k: int, l: int|
                        0 <= k < l < kept@.len() implies (#[trigger] kept@[k])@.id != (
                        #[trigger] kept@[l])@.id by {
                        if l == kept@.len() - 1 {
                            let q = choose|q: int|
                                0 <= q < j && (#[trigger] keptpre[k])@ == tmp@[q];
                            assert(tmp@[q].id != tmp@[j as int].id);
                        }
                    }
                }
            }
            if is_selected {
                targets.push(
                    MutationCacheEntry {
                        id: e.id,
                        instruction_kind: e.instruction_kind,
                        width: e.width,
                        msk: Vec::new(),
                    },
                );
                proof {
                    assert(targets@.last()@.id == t3[j as int].id);
                    assert forall|k: int, l: int|
                        0 <= k < l < targets@.len() implies (#[trigger] targets@[k])@.id != (
                        #[trigger] targets@[l])@.id by {
                        if l == targets@.len() - 1 {
                            let q = choose|q: int|
                                0 <= q < j && (#[trigger] t3[q]).id == targets0[k]@.id;
                            assert(t3[q].id != t3[j as int].id);
                        }
                    }
                }
            }
            j = j + 1;
            proof {
                let kv = kept@.map_values(|q: MutationCacheEntry| q@);
                assert forall|x: u64|
                    #[trigger] has_id(kv, x) <==> exists|q: int|
                        0 <= q < j && (#[trigger] t3[q]).id == x && (!fresh_all@.contains(x)
                            || sel_vec@.contains(x)) by {
                    if forced || is_selected {
                        assert(kv =~= keptviews0.push(t3[j - 1]));
                        if has_id(kv, x) {
                            let k = choose|k: int| 0 <= k < kv.len() && kv[k].id == x;
                            if k < keptviews0.len() {
                                assert(has_id(keptviews0, x));
                            } else {
                                assert(t3[j - 1].id == x);
                            }
                        }
                        if exists|q: int|
                            0 <= q < j && (#[trigger] t3[q]).id == x && (!fresh_all@.contains(
                                x,
                            ) || sel_vec@.contains(x)) {
                            let q = choose|q: int|
                                0 <= q < j && (#[trigger] t3[q]).id == x && (
                                !fresh_all@.contains(x) || sel_vec@.contains(x));
                            if q < j - 1 {
                                assert(exists|q2: int|
                                    0 <= q2 < j - 1 && (#[trigger] t3[q2]).id == x && (
                                    !fresh_all@.contains(x) || sel_vec@.contains(x)));
                                assert(has_id(keptviews0, x));
                                let k = choose|k: int|
                                    0 <= k < keptviews0.len() && keptviews0[k].id == x;
                                assert(kv[k].id == x);
                            } else {
                                assert(kv[kv.len() - 1].id == x);
                            }
                        }
                    } else {
                        assert(kv == keptviews0);
                        if exists|q: int|
                            0 <= q < j && (#[trigger] t3[q]).id == x && (!fresh_all@.contains(
                                x,
                            ) || sel_vec@.contains(x)) {
                            let q = choose|q: int|
                                0 <= q < j && (#[trigger] t3[q]).id == x && (
                                !fresh_all@.contains(x) || sel_vec@.contains(x));
                            if q == j - 1 {
                                assert(!(forced || is_selected));
                                assert(t3[j - 1].id == id);
                                assert(false);
                            }
                            assert(0 <= q < j - 1);
                            assert(exists|q2: int|
                                0 <= q2 < j - 1 && (#[trigger] t3[q2]).id == x && (
                                !fresh_all@.contains(x) || sel_vec@.contains(x)));
                            assert(has_id(keptviews0, x));
                        }
                    }
                }
                assert forall|x: u64|
                    (sel_vec@.contains(x) && (exists|q: int|
                        0 <= q < j && (#[trigger] t3[q]).id == x)) implies (exists|k: int|
                        0 <= k < targets@.len() && (#[trigger] targets@[k])@.id == x) by {
                    let q = choose|q: int| 0 <= q < j && (#[trigger] t3[q]).id == x;
                    if q == j - 1 {
                        assert(x == id);
                        assert(is_selected);
                        assert(targets@[targets@.len() - 1]@.id == x);
                    } else {
                        let k = choose|k: int|
                            0 <= k < targets0.len() && (#[trigger] targets0[k])@.id == x;
                        assert(targets@[k]@.id == x);
                    }
                }
            }
        }
        let ghost targets_pre = targets@;
        shuffle(&mut targets);
        proof {
            assert forall|k: int|
                0 <= k < targets@.len() implies sel_vec@.contains(
                (#[trigger] targets@[k])@.id,
            ) && targets@[k]@.msk.len() == 0 by {
                let e = targets@[k];
                assert(targets@.contains(e));
                assert(targets@.to_multiset().count(e) > 0);
                assert(targets_pre.to_multiset().count(e) > 0);
                assert(targets_pre.contains(e));
                let w = choose|w: int| 0 <= w < targets_pre.len() && targets_pre[w] == e;
                assert(sel_vec@.contains(targets_pre[w]@.id));
                assert(targets_pre[w]@.msk.len() == 0);
            }
            // shuffling keeps the targets' IDs pairwise distinct
            assert(targets_pre.no_duplicates()) by {
                assert forall|a: int, b: int|
                    0 <= a < b < targets_pre.len() implies targets_pre[a] != targets_pre[b] by {
                    assert(targets_pre[a]@.id != targets_pre[b]@.id);
                }
            }
            targets_pre.lemma_multiset_has_no_duplicates();
            assert(forall|e: MutationCacheEntry|
                targets@.to_multiset().contains(e) ==> #[trigger] targets@.to_multiset().count(
                    e,
                ) == 1);
            targets@.lemma_multiset_has_no_duplicates_conv();
            assert forall|i: int, k: int|
                0 <= i < k < targets@.len() implies (#[trigger] targets@[i])@.id != (
            #[trigger] targets@[k])@.id by {
                let e1 = targets@[i];
                let e2 = targets@[k];
                assert(e1 != e2);
                assert(targets@.contains(e1) && targets@.contains(e2));
                assert(targets_pre.to_multiset().count(e1) > 0);
                assert(targets_pre.to_multiset().count(e2) > 0);
                assert(targets_pre.contains(e1) && targets_pre.contains(e2));
                let p1 = choose|p: int| 0 <= p < targets_pre.len() && targets_pre[p] == e1;
                let p2 = choose|p: int| 0 <= p < targets_pre.len() && targets_pre[p] == e2;
                assert(p1 != p2);
                assert(targets_pre[p1]@.id != targets_pre[p2]@.id);
            }
            // every drawn site has its target, shuffling notwithstanding
            assert forall|x: u64| sel_vec@.contains(x) implies exists|i: int|
                0 <= i < targets@.len() && (#[trigger] targets@[i])@.id == x by {
                assert(fresh_site(all_patch_points@, entry_mc@, trace@, x));
                assert(has_id(t2, x));
                assert(has_id(t3, x));
                let q = choose|q: int| 0 <= q < t3.len() && (#[trigger] t3[q]).id == x;
                assert(exists|k: int|
                    0 <= k < targets_pre.len() && (#[trigger] targets_pre[k])@.id == x);
                let k = choose|k: int|
                    0 <= k < targets_pre.len() && (#[trigger] targets_pre[k])@.id == x;
                let e = targets_pre[k];
                assert(targets_pre.contains(e));
                assert(targets@.to_multiset().count(e) > 0);
                assert(targets@.contains(e));
                let i = choose|i: int| 0 <= i < targets@.len() && targets@[i] == e;
                assert(targets@[i]@.id == x);
            }
        }
        let ghost kept_views = kept@.map_values(|e: MutationCacheEntry| e@);
        proof {
            assert forall|k: int|
                0 <= k < kept_views.len() implies trace@.contains(
                (#[trigger] kept_views[k]).id,
            ) && kept_views[k].msk.len() <= u32::MAX by {
                let q = choose|q: int| 0 <= q < m && (#[trigger] kept@[k])@ == tmp@[q];
                assert(trace@.contains(tmp@[q].id));
            }
        }
        let new_mc = MutationCache::from_entries(kept);
        proof {
            // the installed cache holds exactly the forced and drawn sites
            assert forall|id: u64|
                #[trigger] has_id(new_mc@, id) <==> (forced_site(entry_mc@, trace@, id)
                    || unfuzzed_drawn@.contains(id) || yielding_drawn@.contains(id)
                    || random_drawn@.contains(id)) by {
                assert(new_mc@ == kept_views);
                assert(fresh_all@.contains(id) == fresh_site(
                    all_patch_points@,
                    entry_mc@,
                    trace@,
                    id,
                ));
                assert(sel_vec@.contains(id) <==> unfuzzed_drawn@.contains(id)
                    || yielding_drawn@.contains(id) || random_drawn@.contains(id));
                if has_id(new_mc@, id) {
                    let q = choose|q: int|
                        0 <= q < m && (#[trigger] t3[q]).id == id && (!fresh_all@.contains(id)
                            || sel_vec@.contains(id));
                    assert(has_id(t3, id));
                    assert(has_id(t2, id));
                    if !sel_vec@.contains(id) {
                        assert(!fresh_site(all_patch_points@, entry_mc@, trace@, id));
                        assert(known_site(all_patch_points@, entry_mc@, id)
                            && trace@.contains(id));
                        assert(active_in(entry_mc@, id));
                        assert(forced_site(entry_mc@, trace@, id));
                    }
                }
                if forced_site(entry_mc@, trace@, id) {
                    assert(active_in(entry_mc@, id));
                    let w = choose|w: int|
                        0 <= w < entry_mc@.len() && (#[trigger] entry_mc@[w]).id == id
                            && entry_mc@[w].msk.len() > 0;
                    assert(has_id(entry_mc@, id));
                    assert(known_site(all_patch_points@, entry_mc@, id));
                    assert(has_id(t2, id));
                    assert(has_id(t3, id));
                    let q = choose|q: int| 0 <= q < t3.len() && (#[trigger] t3[q]).id == id;
                    assert(!fresh_site(all_patch_points@, entry_mc@, trace@, id));
                    assert(has_id(new_mc@, id));
                }
                if sel_vec@.contains(id) {
                    assert(fresh_site(all_patch_points@, entry_mc@, trace@, id));
                    assert(has_id(t2, id));
                    assert(has_id(t3, id));
                    let q = choose|q: int| 0 <= q < t3.len() && (#[trigger] t3[q]).id == id;
                    assert(has_id(new_mc@, id));
                }
            }
            assert forall|x: u64| yielding_drawn@.contains(x) implies !unfuzzed_drawn@.contains(
                x,
            ) by {}
            assert forall|x: u64| random_drawn@.contains(x) implies trace@.contains(x)
                && !unfuzzed_drawn@.contains(x) && !yielding_drawn@.contains(x) by {}
            assert forall|x: u64| unfuzzed_drawn@.contains(x) implies
                cerebrum.spec_unfuzzed().contains(x) && trace@.contains(x) by {}
            assert forall|x: u64| yielding_drawn@.contains(x) implies
                cerebrum.spec_yielded().contains(x) && trace@.contains(x) by {}
        }
        let ghost tseq = targets@;
        let r = AddSelection { new_mc, targets, unfuzzed_drawn, yielding_drawn, random_drawn };
        proof {
            assert forall|x: u64| #[trigger] r.drawn(x) implies exists|i: int|
                0 <= i < r.targets@.len() && (#[trigger] r.targets@[i])@.id == x by {
                assert(sel_vec@.contains(x));
                assert(exists|i: int| 0 <= i < tseq.len() && (#[trigger] tseq[i])@.id == x);
                let i = choose|i: int| 0 <= i < tseq.len() && (#[trigger] tseq[i])@.id == x;
                assert(r.targets@ == tseq);
                assert(r.targets@[i]@.id == x);
            }
        }
        proof {
            assert(r.unfuzzed_drawn@.len() + r.yielding_drawn@.len() + r.random_drawn@.len()
                <= config.batch_size);
        }
        r
    }
}

impl FuzzingWorker {
    /// Prepare the mutator pipelines for the Add phase's targets: one
    /// pipeline pair per nop candidate; a non-nop candidate is already
    /// the Mutate phase's business and is skipped.  Each pipeline is
    /// sized by the candidate's instrumented width — the mask length the
    /// site has once installed and resized — holding the systematic bit
    /// flip and, for a positive width, the budgeted random-byte mutator,
    /// shuffled per target to avoid ordering bias.
    pub fn add_phase_prepare_mutations(targets: &Vec<MutationCacheEntry>) -> (r: Vec<
        (MutationCacheEntry, Vec<Mutator>),
    >)
        ensures
            r@.map_values(|p: (MutationCacheEntry, Vec<Mutator>)| p.0@) == targets@.map_values(
                |e: MutationCacheEntry| e@,
            ).filter(|e: MceView| e.msk.len() == 0),
            forall|i: int|
                0 <= i < r@.len() ==> (#[trigger] r@[i]).1@.to_multiset() == spec_pipelines_for(
                    r@[i].0@.width as nat,
                ).to_multiset(),
    {
        let ghost pred = |e: MceView| e.msk.len() == 0;
        let ghost tviews = targets@.map_values(|e: MutationCacheEntry| e@);
        let n = targets.len();
        let mut out: Vec<(MutationCacheEntry, Vec<Mutator>)> = Vec::new();
        let mut i: usize = 0;
        proof {
            reveal_with_fuel(Seq::filter, 1);
            assert(tviews.take(0) =~= Seq::<MceView>::empty());
            assert(out@.map_values(|p: (MutationCacheEntry, Vec<Mutator>)| p.0@)
                =~= Seq::<MceView>::empty());
        }
        while i < n
            invariant
                i <= n,
                n == targets@.len(),
                pred == (|e: MceView| e.msk.len() == 0),
                tviews == targets@.map_values(|e: MutationCacheEntry| e@),
                out@.map_values(|p: (MutationCacheEntry, Vec<Mutator>)| p.0@) == tviews.take(
                    i as int,
                ).filter(pred),
                forall|k: int|
                    0 <= k < out@.len() ==> (#[trigger] out@[k]).1@.to_multiset()
                        == spec_pipelines_for(out@[k].0@.width as nat).to_multiset(),
            decreases n - i,
        {
            let e = &targets[i];
            let ghost outprev = out@.map_values(|p: (MutationCacheEntry, Vec<Mutator>)| p.0@);
            if e.msk_len() == 0 {
                let w = e.width as usize;
                proof {
                    let wi = w as int;
                    assert(wi * 8 <= u64::MAX) by (nonlinear_arith)
                        requires
                            0 <= wi <= u32::MAX,
                    ;
                }
                let mut pipes: Vec<Mutator> = Vec::new();
                pipes.push(Mutator::flip_once_new(w));
                match Mutator::random_byte1_new(w, mutator_iterations(w)) {
                    Some(m) => {
                        pipes.push(m);
                    },
                    None => {},
                }
                proof {
                    assert(pipes@ =~= spec_pipelines_for(w as nat));
                }
                shuffle(&mut pipes);
                out.push((e.duplicate(), pipes));
                proof {
                    assert(out@.map_values(|p: (MutationCacheEntry, Vec<Mutator>)| p.0@)
                        =~= outprev.push(targets@[i as int]@));
                }
            }
            i = i + 1;
            proof {
                reveal_with_fuel(Seq::filter, 2);
                assert(tviews.take(i as int).drop_last() =~= tviews.take(i - 1));
                assert(tviews.take(i as int).last() == targets@[i - 1]@);
                assert(out@.map_values(|p: (MutationCacheEntry, Vec<Mutator>)| p.0@)
                    == tviews.take(i as int).filter(pred));
            }
        }
        proof {
            assert(tviews.take(n as int) =~= tviews);
        }
        out
    }

    /// Run the Add phase's preparation for one queue entry: choose the
    /// candidates, install them as the new cache, and hand back the
    /// shuffled targets with their mutator pipelines.  The execution of
    /// each pipeline step against the Sink is the caller's loop.
    pub fn do_add_phase(
        &mut self,
        entry_mc: &MutationCache,
        all_patch_points: &Vec<PatchPoint>,
        trace: &Trace,
        cerebrum: &Cerebrum,
        config: &AddPhaseConfig,
    ) -> (r: (AddSelection, Vec<(MutationCacheEntry, Vec<Mutator>)>))
        requires
            old(self).spec_state() == crate::worker::WorkerState::Ready,
            entry_mc.wf(),
            trace.wf(),
            cerebrum.wf(),
            forall|i: int, j: int|
                0 <= i < j < all_patch_points@.len() ==> all_patch_points@[i].id.0
                    != all_patch_points@[j].id.0,
            config.select_unfuzzed_weight + config.select_yielding_weight
                + config.select_random_weight <= u32::MAX,
            config.select_unfuzzed_weight + config.select_yielding_weight
                + config.select_random_weight > 0,
        ensures
            final(self).spec_state() == crate::worker::WorkerState::InPhase(
                crate::worker::FuzzingPhase::Add,
            ),
            r.0.new_mc.wf(),
            forall|i: int|
                0 <= i < r.0.new_mc@.len() ==> trace@.contains(#[trigger] r.0.new_mc@[i].id),
            r.0.classes_ok(config.batch_size),
            r.1@.len() == r.0.targets@.len(),
    {
        self.step(crate::worker::WorkerEvent::PhasePicked(crate::worker::FuzzingPhase::Add));
        let selection = FuzzingWorker::add_phase_choose_candidates(
            entry_mc,
            all_patch_points,
            trace,
            cerebrum,
            config,
        );
        let pipelines = FuzzingWorker::add_phase_prepare_mutations(&selection.targets);
        proof {
            // every target is a nop entry, so none is skipped
            let tv = selection.targets@.map_values(|e: MutationCacheEntry| e@);
            assert forall|k: int| 0 <= k < tv.len() implies (|e: MceView| e.msk.len() == 0)(
                #[trigger] tv[k],
            ) by {
                assert(selection.targets@[k]@.msk.len() == 0);
            }
            crate::id_set::lemma_filter_everything(tv, |e: MceView| e.msk.len() == 0);
            assert(pipelines@.map_values(|p: (MutationCacheEntry, Vec<Mutator>)| p.0@).len()
                == tv.len());
        }
        (selection, pipelines)
    }

    /// The Mutate phase's targets: the entry's own active (non-nop)
    /// sites, each to be mutated in turn with the budgeted pipelines.
    /// Fresh nop sites are the Add phase's business, not this one's.
    pub fn mutate_phase_targets(mc: &MutationCache) -> (r: Vec<MutationCacheEntry>)
        requires
            mc.wf(),
        ensures
            r@.map_values(|e: MutationCacheEntry| e@) == mc@.filter(
                |e: MceView| e.msk.len() > 0,
            ),
    {
        let ghost pred = |e: MceView| e.msk.len() > 0;
        let n = mc.len();
        let mut out: Vec<MutationCacheEntry> = Vec::new();
        let mut i: usize = 0;
        proof {
            reveal_with_fuel(Seq::filter, 1);
            assert(mc@.take(0) =~= Seq::<MceView>::empty());
            assert(out@.map_values(|e: MutationCacheEntry| e@) =~= Seq::<MceView>::empty());
        }
        while i < n
            invariant
                i <= n,
                n == mc@.len(),
                pred == (|e: MceView| e.msk.len() > 0),
                out@.map_values(|e: MutationCacheEntry| e@) == mc@.take(i as int).filter(pred),
            decreases n - i,
        {
            let e = mc.entry_at(i);
            let ghost out0 = out@.map_values(|q: MutationCacheEntry| q@);
            if !e.is_nop() {
                out.push(e.duplicate());
                proof {
                    assert(out@.map_values(|q: MutationCacheEntry| q@) =~= out0.push(
                        mc@[i as int],
                    ));
                }
            }
            i = i + 1;
            proof {
                reveal_with_fuel(Seq::filter, 2);
                assert(mc@.take(i as int).drop_last() =~= mc@.take(i - 1));
                assert(mc@.take(i as int).last() == mc@[i - 1]);
                assert(out@.map_values(|q: MutationCacheEntry| q@) == mc@.take(
                    i as int,
                ).filter(pred));
            }
        }
        proof {
            assert(mc@.take(n as int) =~= mc@);
        }
        out
    }

    /// The Combine phase's cache: the union of two entries' caches, the
    /// first one's entries replaced by the second's where the IDs match.
    pub fn combine_mutations(a: &MutationCache, b: &MutationCache) -> (r: MutationCache)
        requires
            a.wf(),
            b.wf(),
        ensures
            r.wf(),
            r@ == a@.map_values(
                |e: MceView| crate::mutation_cache::override_from(b@, e),
            ) + b@.filter(|e: MceView| !has_id(a@, e.id)),
    {
        let entries = a.entries();
        let mut r = MutationCache::from_entries(entries);
        proof {
            assert(r@ == a@);
        }
        r.union_and_replace(b);
        r
    }

    /// One Discovery batch: an all-nop cache over the patch points
    /// `[start, start + batch_size)` of the stable enumeration (clipped
    /// to its end).
    pub fn discovery_batch(
        all_patch_points: &Vec<PatchPoint>,
        start: usize,
        batch_size: u32,
    ) -> (r: MutationCache)
        requires
            start <= all_patch_points@.len(),
            forall|i: int, j: int|
                0 <= i < j < all_patch_points@.len() ==> all_patch_points@[i].id.0
                    != all_patch_points@[j].id.0,
        ensures
            r.wf(),
            r@.len() == (if start + batch_size <= all_patch_points@.len() {
                batch_size as int
            } else {
                all_patch_points@.len() - start
            }),
            forall|i: int|
                0 <= i < r@.len() ==> (#[trigger] r@[i]).id == all_patch_points@[start + i].id.0
                    && r@[i].msk.len() == 0,
    {
        let total = all_patch_points.len();
        let end = if batch_size as usize <= total - start {
            start + batch_size as usize
        } else {
            total
        };
        let mut batch: Vec<PatchPoint> = Vec::new();
        let mut i: usize = start;
        while i < end
            invariant
                start <= i <= end,
                end <= total,
                total == all_patch_points@.len(),
                batch@.len() == i - start,
                forall|k: int| 0 <= k < batch@.len() ==> batch@[k] == all_patch_points@[start + k],
            decreases end - i,
        {
            batch.push(all_patch_points[i]);
            i = i + 1;
        }
        proof {
            assert(forall|k: int, l: int|
                0 <= k < l < batch@.len() ==> batch@[k].id.0 != batch@[l].id.0);
        }
        MutationCache::from_patchpoints(&batch)
    }
}

/// Append every element of `src` to `dst`.
fn push_all(dst: &mut Vec<u64>, src: &Vec<u64>)
    ensures
        final(dst)@ == old(dst)@ + src@,
{
    let n = src.len();
    let ghost dst0 = dst@;
    let mut i: usize = 0;
    while i < n
        invariant
            i <= n,
            n == src@.len(),
            dst@ == dst0 + src@.take(i as int),
        decreases n - i,
    {
        dst.push(src[i]);
        proof {
            assert(dst@ =~= dst0 + src@.take(i + 1));
        }
        i = i + 1;
    }
    proof {
        assert(src@.take(n as int) =~= src@);
        assert(dst@ =~= dst0 + src@);
    }
}

/// An element is in a concatenation iff it is in one of the parts.
proof fn lemma_concat_contains(a: Seq<u64>, b: Seq<u64>, x: u64)
    ensures
        (a + b).contains(x) <==> a.contains(x) || b.contains(x),
{
    if (a + b).contains(x) {
        let w = choose|w: int| 0 <= w < (a + b).len() && (a + b)[w] == x;
        if w < a.len() {
            assert(a[w] == x);
        } else {
            assert(b[w - a.len()] == x);
        }
    }
    if a.contains(x) {
        let w = choose|w: int| 0 <= w < a.len() && a[w] == x;
        assert((a + b)[w] == x);
    }
    if b.contains(x) {
        let w = choose|w: int| 0 <= w < b.len() && b[w] == x;
        assert((a + b)[w + a.len()] == x);
    }
}


} // verus!
