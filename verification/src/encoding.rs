//! Reading and writing little-endian `u64` fields and fixed-width byte
//! strings inside a byte buffer.

use vstd::prelude::*;

verus! {

use vstd::bytes::{
    lemma_auto_spec_u64_to_from_le_bytes, spec_u64_from_le_bytes, u64_from_le_bytes,
    u64_to_le_bytes,
};
use vstd::slice::slice_subrange;

/// The `u64` stored at byte offset `off` of `b` in little-endian order.
pub open spec fn spec_u64_at(b: Seq<u8>, off: int) -> u64 {
    spec_u64_from_le_bytes(b.subrange(off, off + 8))
}

/// Reads the little-endian `u64` stored at byte offset `off`.
pub fn read_u64_at(bytes: &Vec<u8>, off: usize) -> (r: u64)
    requires
        off + 8 <= bytes@.len(),
    ensures
        r == spec_u64_at(bytes@, off as int),
{
    proof {
        assert(bytes.len() == bytes@.len());
    }
    let s = slice_subrange(bytes.as_slice(), off, off + 8);
    u64_from_le_bytes(s)
}

/// Writes `v` at byte offset `off` as eight little-endian bytes, leaving
/// every other byte of the buffer unchanged.
pub fn write_u64_at(bytes: &mut Vec<u8>, off: usize, v: u64)
    requires
        off + 8 <= old(bytes)@.len(),
    ensures
        final(bytes)@.len() == old(bytes)@.len(),
        forall|i: int|
            0 <= i < old(bytes)@.len() && !(off <= i < off + 8) ==> final(bytes)@[i] == old(
                bytes,
            )@[i],
        spec_u64_at(final(bytes)@, off as int) == v,
{
    proof {
        assert(bytes.len() == bytes@.len());
    }
    let data = u64_to_le_bytes(v);
    let mut k: usize = 0;
    while k < 8
        invariant
            0 <= k <= 8,
            off + 8 <= bytes@.len() <= usize::MAX,
            bytes@.len() == old(bytes)@.len(),
            data@.len() == 8,
            forall|i: int|
                0 <= i < old(bytes)@.len() && !(off <= i < off + k) ==> bytes@[i] == old(
                    bytes,
                )@[i],
            forall|j: int| 0 <= j < k ==> bytes@[off + j] == data@[j],
        decreases 8 - k,
    {
        let b = data[k];
        bytes.set(off + k, b);
        k = k + 1;
    }
    proof {
        lemma_auto_spec_u64_to_from_le_bytes();
        assert(bytes@.subrange(off as int, off + 8) =~= data@);
    }
}

/// Reads the 32 bytes stored at byte offset `off` into an array.
pub fn read_bytes32_at(bytes: &Vec<u8>, off: usize) -> (r: [u8; 32])
    requires
        off + 32 <= bytes@.len(),
    ensures
        r@ == bytes@.subrange(off as int, off + 32),
{
    proof {
        assert(bytes.len() == bytes@.len());
    }
    let mut r = [0u8; 32];
    let mut k: usize = 0;
    while k < 32
        invariant
            0 <= k <= 32,
            off + 32 <= bytes@.len() <= usize::MAX,
            forall|j: int| 0 <= j < k ==> r@[j] == bytes@[off + j],
        decreases 32 - k,
    {
        r[k] = bytes[off + k];
        k = k + 1;
    }
    proof {
        assert(r@ =~= bytes@.subrange(off as int, off + 32));
    }
    r
}

/// Writes the 32 bytes of `data` at byte offset `off`, leaving every other
/// byte of the buffer unchanged.
pub fn write_bytes32_at(bytes: &mut Vec<u8>, off: usize, data: &[u8; 32])
    requires
        off + 32 <= old(bytes)@.len(),
    ensures
        final(bytes)@.len() == old(bytes)@.len(),
        forall|i: int|
            0 <= i < old(bytes)@.len() && !(off <= i < off + 32) ==> final(bytes)@[i] == old(
                bytes,
            )@[i],
        final(bytes)@.subrange(off as int, off + 32) == data@,
{
    proof {
        assert(bytes.len() == bytes@.len());
    }
    let mut k: usize = 0;
    while k < 32
        invariant
            0 <= k <= 32,
            off + 32 <= bytes@.len() <= usize::MAX,
            bytes@.len() == old(bytes)@.len(),
            forall|i: int|
                0 <= i < old(bytes)@.len() && !(off <= i < off + k) ==> bytes@[i] == old(
                    bytes,
                )@[i],
            forall|j: int| 0 <= j < k ==> bytes@[off + j] == data@[j],
        decreases 32 - k,
    {
        let b = data[k];
        bytes.set(off + k, b);
        k = k + 1;
    }
    proof {
        assert(bytes@.subrange(off as int, off + 32) =~= data@);
    }
}

} // verus!
