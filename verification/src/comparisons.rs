//! Standalone equality tests over 32-byte keys, each proved to agree with
//! byte-for-byte comparison.

use vstd::prelude::*;

verus! {

/// Compares two 32-byte keys with an early-exit loop.
pub fn manual_compare_32(a: &[u8; 32], b: &[u8; 32]) -> (r: bool)
    ensures
        r <==> a@ == b@,
{
    let mut i: usize = 0;
    while i < 32
        invariant
            0 <= i <= 32,
            forall|j: int| 0 <= j < i ==> a@[j] == b@[j],
        decreases 32 - i,
    {
        if a[i] != b[i] {
            return false;
        }
        i = i + 1;
    }
    proof {
        assert(a@ =~= b@);
    }
    true
}

/// Compares two 32-byte keys one explicit byte position at a time.
pub fn unrolled_compare_32(a: &[u8; 32], b: &[u8; 32]) -> (r: bool)
    ensures
        r <==> a@ == b@,
{
    if a[0] != b[0] {
        return false;
    }
    if a[1] != b[1] {
        return false;
    }
    if a[2] != b[2] {
        return false;
    }
    if a[3] != b[3] {
        return false;
    }
    if a[4] != b[4] {
        return false;
    }
    if a[5] != b[5] {
        return false;
    }
    if a[6] != b[6] {
        return false;
    }
    if a[7] != b[7] {
        return false;
    }
    if a[8] != b[8] {
        return false;
    }
    if a[9] != b[9] {
        return false;
    }
    if a[10] != b[10] {
        return false;
    }
    if a[11] != b[11] {
        return false;
    }
    if a[12] != b[12] {
        return false;
    }
    if a[13] != b[13] {
        return false;
    }
    if a[14] != b[14] {
        return false;
    }
    if a[15] != b[15] {
        return false;
    }
    if a[16] != b[16] {
        return false;
    }
    if a[17] != b[17] {
        return false;
    }
    if a[18] != b[18] {
        return false;
    }
    if a[19] != b[19] {
        return false;
    }
    if a[20] != b[20] {
        return false;
    }
    if a[21] != b[21] {
        return false;
    }
    if a[22] != b[22] {
        return false;
    }
    if a[23] != b[23] {
        return false;
    }
    if a[24] != b[24] {
        return false;
    }
    if a[25] != b[25] {
        return false;
    }
    if a[26] != b[26] {
        return false;
    }
    if a[27] != b[27] {
        return false;
    }
    if a[28] != b[28] {
        return false;
    }
    if a[29] != b[29] {
        return false;
    }
    if a[30] != b[30] {
        return false;
    }
    if a[31] != b[31] {
        return false;
    }
    proof {
        assert(a@ =~= b@);
    }
    true
}

} // verus!
