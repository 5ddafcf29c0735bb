use vstd::prelude::*;

verus! {

/// A 256-bit hash, as the runtime stores it (the bytes of an `H256`).
#[derive(Clone, Copy, Debug, PartialEq, Eq)]
pub struct H256(pub [u8; 32]);

/// A 32-byte account identifier (the bytes of an `AccountId32`).
#[derive(Clone, Copy, Debug, PartialEq, Eq)]
pub struct AccountId32(pub [u8; 32]);

/// Byte-wise equality of two 32-byte arrays.
pub fn bytes32_eq(a: &[u8; 32], b: &[u8; 32]) -> (r: bool)
    ensures
        r == (a@ == b@),
{
    let mut i: usize = 0;
    while i < 32
        invariant
            0 <= i <= 32,
            a@.len() == 32,
            b@.len() == 32,
            forall|j: int| 0 <= j < i ==> a@[j] == b@[j],
        decreases 32 - i,
    {
        if a[i] != b[i] {
            assert(a@[i as int] != b@[i as int]);
            return false;
        }
        i = i + 1;
    }
    assert(a@ =~= b@);
    true
}

impl H256 {
    /// Whether two hashes hold the same bytes.
    pub fn same(&self, other: &H256) -> (r: bool)
        ensures
            r == (*self == *other),
    {
        proof {
            if self.0@ == other.0@ {
                vstd::array::axiom_array_ext_equal(self.0, other.0);
            }
        }
        bytes32_eq(&self.0, &other.0)
    }
}

impl AccountId32 {
    /// Whether two accounts hold the same bytes.
    pub fn same(&self, other: &AccountId32) -> (r: bool)
        ensures
            r == (*self == *other),
    {
        proof {
            if self.0@ == other.0@ {
                vstd::array::axiom_array_ext_equal(self.0, other.0);
            }
        }
        bytes32_eq(&self.0, &other.0)
    }
}

} // verus!
