//! Thirty-two byte account keys, compared byte by byte.
use vstd::prelude::*;

verus! {

/// The all-zero key, used as "no key".
pub open spec fn is_null_key(k: [u8; 32]) -> bool {
    forall|i: int| 0 <= i < 32 ==> k@[i] == 0u8
}

/// Two keys are the same key when all their bytes agree.
pub fn keys_equal(a: &[u8; 32], b: &[u8; 32]) -> (r: bool)
    ensures
        r == (*a == *b),
{
    broadcast use vstd::array::group_array_axioms;
    let mut i: usize = 0;
    while i < 32
        invariant
            0 <= i <= 32,
            a@.len() == 32,
            b@.len() == 32,
            forall|j: int| 0 <= j < i ==> a@[j] == b@[j],
        decreases 32 - i,
    {
        if a[i] != b[i] {
            assert(a@[i as int] != b@[i as int]);
            return false;
        }
        i = i + 1;
    }
    assert(*a =~= *b);
    true
}

/// Whether every byte of the key is zero.
pub fn is_zero_key(k: &[u8; 32]) -> (r: bool)
    ensures
        r == is_null_key(*k),
{
    let mut i: usize = 0;
    while i < 32
        invariant
            0 <= i <= 32,
            k@.len() == 32,
            forall|j: int| 0 <= j < i ==> k@[j] == 0u8,
        decreases 32 - i,
    {
        if k[i] != 0 {
            return false;
        }
        i = i + 1;
    }
    true
}

/// The all-zero key.
pub fn null_key() -> (k: [u8; 32])
    ensures
        is_null_key(k),
{
    broadcast use vstd::array::group_array_axioms;
    [0u8; 32]
}

} // verus!
