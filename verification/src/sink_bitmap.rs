//! Coverage bitmaps and new-bit detection against virgin maps.
//!
//! A bitmap is a fixed-size byte map of edge counters reported by the Sink.
//! A *virgin* map starts with every byte `0xFF`; set bits mean "not yet
//! seen".  `has_new_bit` compares a coverage map against a virgin map,
//! clears every covered bit from the virgin map, and reports whether the
//! execution saw a brand-new edge, merely new hit counts, or nothing new.

use vstd::prelude::*;

verus! {

/// Result of checking one coverage map against a virgin map.
#[derive(Clone, Copy, Debug, PartialEq, Eq, Structural)]
pub enum BitmapStatus {
    /// Nothing in the coverage map was still virgin.
    NoNew,
    /// Some virgin bit was cleared, but no byte left the all-virgin state.
    NewHit,
    /// Some byte of the virgin map left the all-virgin state `0xFF`.
    NewEdge,
}

/// One virgin byte after the covered bits have been cleared from it.
pub open spec fn clear_byte(cov: u8, vir: u8) -> u8 {
    vir & !cov
}

/// The whole virgin map after `has_new_bit` has cleared every covered bit.
pub open spec fn clear_virgin(cov: Seq<u8>, vir: Seq<u8>) -> Seq<u8> {
    Seq::new(vir.len(), |i: int| clear_byte(cov[i], vir[i]))
}

/// Some covered bit is still set in the virgin map.
pub open spec fn hits_virgin(cov: Seq<u8>, vir: Seq<u8>) -> bool {
    exists|i: int| 0 <= i < vir.len() && cov[i] & vir[i] != 0
}

/// Some virgin byte would move from wholly unseen (`0xFF`) to partly seen.
pub open spec fn hits_edge(cov: Seq<u8>, vir: Seq<u8>) -> bool {
    exists|i: int| 0 <= i < vir.len() && cov[i] & vir[i] != 0 && vir[i] == 0xFF
}

/// The status `has_new_bit` reports for a coverage map against a virgin map.
pub open spec fn status_of(cov: Seq<u8>, vir: Seq<u8>) -> BitmapStatus {
    if hits_edge(cov, vir) {
        BitmapStatus::NewEdge
    } else if hits_virgin(cov, vir) {
        BitmapStatus::NewHit
    } else {
        BitmapStatus::NoNew
    }
}

/// Fixed-size byte map of edge counters.
#[derive(Clone, Debug)]
pub struct Bitmap {
    data: Vec<u8>,
}

impl View for Bitmap {
    type V = Seq<u8>;

    closed spec fn view(&self) -> Seq<u8> {
        self.data@
    }
}

impl Bitmap {
    /// An in-memory bitmap of `size` bytes, all set to `fill`.
    pub fn new_in_mem(size: usize, fill: u8) -> (r: Bitmap)
        ensures
            r@.len() == size,
            forall|i: int| 0 <= i < size ==> r@[i] == fill,
    {
        let mut data: Vec<u8> = Vec::new();
        let mut i: usize = 0;
        while i < size
            invariant
                i <= size,
                data@.len() == i,
                forall|j: int| 0 <= j < i ==> data@[j] == fill,
            decreases size - i,
        {
            data.push(fill);
            i = i + 1;
        }
        Bitmap { data }
    }

    /// Number of bytes in the map.
    pub fn len(&self) -> (n: usize)
        ensures
            n == self@.len(),
    {
        self.data.len()
    }

    /// The byte at position `i`.
    pub fn byte_at(&self, i: usize) -> (b: u8)
        requires
            i < self@.len(),
        ensures
            b == self@[i as int],
    {
        self.data[i]
    }

    /// Overwrite the byte at position `i`.
    pub fn set_byte(&mut self, i: usize, b: u8)
        requires
            i < old(self)@.len(),
        ensures
            final(self)@ == old(self)@.update(i as int, b),
    {
        self.data[i] = b;
    }

    /// Plain memcpy used to re-sync a local virgin map from the global one.
    pub fn copy_from(&mut self, other: &Bitmap)
        requires
            other@.len() == old(self)@.len(),
        ensures
            final(self)@ == other@,
    {
        let n = other.data.len();
        let mut i: usize = 0;
        while i < n
            invariant
                i <= n,
                self@.len() == n,
                other@.len() == n,
                forall|j: int| 0 <= j < i ==> self@[j] == other@[j],
            decreases n - i,
        {
            self.data[i] = other.data[i];
            i = i + 1;
        }
        assert(self@ =~= other@);
    }

    /// Check this coverage map against `virgin`, clear every covered bit
    /// from `virgin`, and classify the transition.
    ///
    /// Reports `NewEdge` iff some virgin byte moves from `0xFF` to a lesser
    /// value on this call, else `NewHit` iff any virgin bit is cleared, else
    /// `NoNew`.
    pub fn has_new_bit(&self, virgin: &mut Bitmap) -> (st: BitmapStatus)
        requires
            old(virgin)@.len() == self@.len(),
        ensures
            final(virgin)@ == clear_virgin(self@, old(virgin)@),
            st == status_of(self@, old(virgin)@),
    {
        let ghost vir0 = virgin@;
        let n = self.data.len();
        let mut hit = false;
        let mut edge = false;
        let mut i: usize = 0;
        while i < n
            invariant
                i <= n,
                self@.len() == n,
                virgin@.len() == n,
                vir0.len() == n,
                forall|j: int| 0 <= j < i ==> virgin@[j] == clear_byte(self@[j], vir0[j]),
                forall|j: int| i <= j < n ==> virgin@[j] == vir0[j],
                hit == exists|j: int| 0 <= j < i && self@[j] & vir0[j] != 0,
                edge == exists|j: int|
                    0 <= j < i && self@[j] & vir0[j] != 0 && vir0[j] == 0xFF,
            decreases n - i,
        {
            let c = self.data[i];
            let v = virgin.data[i];
            proof {
                assert(v == vir0[i as int]);
            }
            if c & v != 0 {
                hit = true;
                if v == 0xFF {
                    edge = true;
                }
                virgin.data[i] = v & !c;
                proof {
                    assert(self@[i as int] & vir0[i as int] != 0);
                }
            } else {
                proof {
                    assert(clear_byte(c, v) == v) by (bit_vector)
                        requires
                            c & v == 0,
                    ;
                    assert(self@[i as int] & vir0[i as int] == 0);
                }
            }
            i = i + 1;
        }
        assert(virgin@ =~= clear_virgin(self@, vir0));
        if edge {
            BitmapStatus::NewEdge
        } else if hit {
            BitmapStatus::NewHit
        } else {
            BitmapStatus::NoNew
        }
    }
}

/// After `has_new_bit` has cleared a coverage map's bits from a virgin map,
/// checking the very same coverage map again reports `NoNew`: the cleared
/// virgin map no longer overlaps the coverage map anywhere.
pub proof fn lemma_rescan_is_no_new(cov: Seq<u8>, vir: Seq<u8>)
    ensures
        status_of(cov, clear_virgin(cov, vir)) == BitmapStatus::NoNew,
{
    let vir2 = clear_virgin(cov, vir);
    assert forall|i: int| 0 <= i < vir2.len() implies cov[i] & vir2[i] == 0 by {
        let c = cov[i];
        let v = vir[i];
        assert(c & (v & !c) == 0) by (bit_vector);
    }
}

/// A coverage map changes a virgin map iff the check reports new coverage:
/// the virgin map is left untouched exactly when the status is `NoNew`.
pub proof fn lemma_virgin_transition_iff_new(cov: Seq<u8>, vir: Seq<u8>)
    requires
        cov.len() == vir.len(),
    ensures
        (clear_virgin(cov, vir) =~= vir) <==> status_of(cov, vir) == BitmapStatus::NoNew,
{
    if status_of(cov, vir) == BitmapStatus::NoNew {
        assert forall|i: int| 0 <= i < vir.len() implies clear_virgin(cov, vir)[i] == vir[i] by {
            let c = cov[i];
            let v = vir[i];
            assert(c & v == 0 ==> (v & !c) == v) by (bit_vector);
        }
    } else {
        let i = choose|i: int| 0 <= i < vir.len() && cov[i] & vir[i] != 0;
        let c = cov[i];
        let v = vir[i];
        assert(c & v != 0 ==> (v & !c) != v) by (bit_vector);
    }
}

} // verus!
