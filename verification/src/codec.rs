//! Little-endian byte-codec primitives.
//!
//! The queue dump and the mutation-cache snapshot share these helpers.  A
//! number is written least-significant byte first; the spec functions give
//! the byte image of a number and the number read back from bytes, and the
//! lemmas show that reading undoes writing.

use vstd::prelude::*;

verus! {

/// The four little-endian bytes of a 32-bit number.
pub open spec fn le32_bytes(n: u32) -> Seq<u8> {
    seq![
        (n & 0xFF) as u8,
        ((n >> 8) & 0xFF) as u8,
        ((n >> 16) & 0xFF) as u8,
        ((n >> 24) & 0xFF) as u8,
    ]
}

/// The eight little-endian bytes of a 64-bit number.
pub open spec fn le64_bytes(n: u64) -> Seq<u8> {
    seq![
        (n & 0xFF) as u8,
        ((n >> 8) & 0xFF) as u8,
        ((n >> 16) & 0xFF) as u8,
        ((n >> 24) & 0xFF) as u8,
        ((n >> 32) & 0xFF) as u8,
        ((n >> 40) & 0xFF) as u8,
        ((n >> 48) & 0xFF) as u8,
        ((n >> 56) & 0xFF) as u8,
    ]
}

/// The 32-bit number encoded by four little-endian bytes.
pub open spec fn le32_val(b0: u8, b1: u8, b2: u8, b3: u8) -> u32 {
    (b0 as u32) | ((b1 as u32) << 8) | ((b2 as u32) << 16) | ((b3 as u32) << 24)
}

/// The 64-bit number encoded by eight little-endian bytes.
pub open spec fn le64_val(b0: u8, b1: u8, b2: u8, b3: u8, b4: u8, b5: u8, b6: u8, b7: u8) -> u64 {
    (b0 as u64) | ((b1 as u64) << 8) | ((b2 as u64) << 16) | ((b3 as u64) << 24) | ((b4 as u64)
        << 32) | ((b5 as u64) << 40) | ((b6 as u64) << 48) | ((b7 as u64) << 56)
}

/// The 32-bit number starting at byte `off` of `data`.
pub open spec fn le32_at(data: Seq<u8>, off: int) -> u32 {
    le32_val(data[off], data[off + 1], data[off + 2], data[off + 3])
}

/// The 64-bit number starting at byte `off` of `data`.
pub open spec fn le64_at(data: Seq<u8>, off: int) -> u64 {
    le64_val(
        data[off],
        data[off + 1],
        data[off + 2],
        data[off + 3],
        data[off + 4],
        data[off + 5],
        data[off + 6],
        data[off + 7],
    )
}

/// Reading four written bytes gives the number back.
pub proof fn lemma_le32_round_trip(n: u32)
    ensures
        le32_at(le32_bytes(n), 0) == n,
{
    let b0 = (n & 0xFF) as u8;
    let b1 = ((n >> 8) & 0xFF) as u8;
    let b2 = ((n >> 16) & 0xFF) as u8;
    let b3 = ((n >> 24) & 0xFF) as u8;
    assert((b0 as u32) | ((b1 as u32) << 8) | ((b2 as u32) << 16) | ((b3 as u32) << 24)
        == n) by (bit_vector)
        requires
            b0 == (n & 0xFF) as u8,
            b1 == ((n >> 8) & 0xFF) as u8,
            b2 == ((n >> 16) & 0xFF) as u8,
            b3 == ((n >> 24) & 0xFF) as u8,
    ;
}

/// Reading eight written bytes gives the number back.
pub proof fn lemma_le64_round_trip(n: u64)
    ensures
        le64_at(le64_bytes(n), 0) == n,
{
    let b0 = (n & 0xFF) as u8;
    let b1 = ((n >> 8) & 0xFF) as u8;
    let b2 = ((n >> 16) & 0xFF) as u8;
    let b3 = ((n >> 24) & 0xFF) as u8;
    let b4 = ((n >> 32) & 0xFF) as u8;
    let b5 = ((n >> 40) & 0xFF) as u8;
    let b6 = ((n >> 48) & 0xFF) as u8;
    let b7 = ((n >> 56) & 0xFF) as u8;
    assert((b0 as u64) | ((b1 as u64) << 8) | ((b2 as u64) << 16) | ((b3 as u64) << 24) | ((b4
        as u64) << 32) | ((b5 as u64) << 40) | ((b6 as u64) << 48) | ((b7 as u64) << 56)
        == n) by (bit_vector)
        requires
            b0 == (n & 0xFF) as u8,
            b1 == ((n >> 8) & 0xFF) as u8,
            b2 == ((n >> 16) & 0xFF) as u8,
            b3 == ((n >> 24) & 0xFF) as u8,
            b4 == ((n >> 32) & 0xFF) as u8,
            b5 == ((n >> 40) & 0xFF) as u8,
            b6 == ((n >> 48) & 0xFF) as u8,
            b7 == ((n >> 56) & 0xFF) as u8,
    ;
}

/// Append the four little-endian bytes of `n`.
pub fn push_u32_le(out: &mut Vec<u8>, n: u32)
    ensures
        final(out)@ == old(out)@ + le32_bytes(n),
{
    out.push((n & 0xFF) as u8);
    out.push(((n >> 8) & 0xFF) as u8);
    out.push(((n >> 16) & 0xFF) as u8);
    out.push(((n >> 24) & 0xFF) as u8);
    proof {
        assert(out@ =~= old(out)@ + le32_bytes(n));
    }
}

/// Append the eight little-endian bytes of `n`.
pub fn push_u64_le(out: &mut Vec<u8>, n: u64)
    ensures
        final(out)@ == old(out)@ + le64_bytes(n),
{
    out.push((n & 0xFF) as u8);
    out.push(((n >> 8) & 0xFF) as u8);
    out.push(((n >> 16) & 0xFF) as u8);
    out.push(((n >> 24) & 0xFF) as u8);
    out.push(((n >> 32) & 0xFF) as u8);
    out.push(((n >> 40) & 0xFF) as u8);
    out.push(((n >> 48) & 0xFF) as u8);
    out.push(((n >> 56) & 0xFF) as u8);
    proof {
        assert(out@ =~= old(out)@ + le64_bytes(n));
    }
}

/// Append a byte sequence.
pub fn push_bytes(out: &mut Vec<u8>, data: &Vec<u8>)
    ensures
        final(out)@ == old(out)@ + data@,
{
    let n = data.len();
    let mut i: usize = 0;
    while i < n
        invariant
            i <= n,
            n == data@.len(),
            out@ == old(out)@ + data@.take(i as int),
        decreases n - i,
    {
        out.push(data[i]);
        proof {
            assert(out@ =~= old(out)@ + data@.take(i + 1));
        }
        i = i + 1;
    }
    proof {
        assert(data@.take(n as int) =~= data@);
    }
}

/// Read the 32-bit number at `off`.
pub fn read_u32_le(data: &Vec<u8>, off: usize) -> (n: u32)
    requires
        off + 4 <= data@.len(),
    ensures
        n == le32_at(data@, off as int),
{
    let total = data.len();
    assert(off + 4 <= total);
    (data[off] as u32) | ((data[off + 1] as u32) << 8) | ((data[off + 2] as u32) << 16) | ((data[off
        + 3] as u32) << 24)
}

/// Read the 64-bit number at `off`.
pub fn read_u64_le(data: &Vec<u8>, off: usize) -> (n: u64)
    requires
        off + 8 <= data@.len(),
    ensures
        n == le64_at(data@, off as int),
{
    let total = data.len();
    assert(off + 8 <= total);
    (data[off] as u64) | ((data[off + 1] as u64) << 8) | ((data[off + 2] as u64) << 16) | ((data[off
        + 3] as u64) << 24) | ((data[off + 4] as u64) << 32) | ((data[off + 5] as u64) << 40)
        | ((data[off + 6] as u64) << 48) | ((data[off + 7] as u64) << 56)
}

/// Copy `len` bytes starting at `off` into a fresh vector.
pub fn read_bytes(data: &Vec<u8>, off: usize, len: usize) -> (r: Vec<u8>)
    requires
        off + len <= data@.len(),
    ensures
        r@ == data@.subrange(off as int, off as int + len as int),
{
    let total = data.len();
    let mut out: Vec<u8> = Vec::new();
    let mut i: usize = 0;
    while i < len
        invariant
            i <= len,
            total == data@.len(),
            off + len <= total,
            out@ == data@.subrange(off as int, off as int + i as int),
        decreases len - i,
    {
        out.push(data[off + i]);
        proof {
            assert(out@ =~= data@.subrange(off as int, off as int + i + 1));
        }
        i = i + 1;
    }
    out
}

} // verus!
