//! Keys and hashes of thirty-two bytes.

use vstd::prelude::*;

verus! {

/// A node's public key.
pub type Pubkey = [u8; 32];

/// Whether two keys or hashes are the same.
pub fn same_bytes(left: &[u8; 32], right: &[u8; 32]) -> (same: bool)
    ensures
        same == (*left == *right),
{
    for index in 0..32usize
        invariant
            forall|i: int| 0 <= i < index ==> left@[i] == right@[i],
    {
        if left[index] != right[index] {
            return false;
        }
    }
    assert(*left =~= *right);
    true
}

} // verus!
