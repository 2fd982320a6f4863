//! Fixed-size byte values, and the hashes that commit to byte strings.

use vstd::prelude::*;
use vstd::std_specs::cmp::PartialEqSpec;

verus! {

/// A 32-byte hash or trie root.
#[derive(Clone, Copy, Debug)]
pub struct B256(pub [u8; 32]);

impl PartialEq for B256 {
    fn eq(&self, other: &Self) -> (r: bool) {
        let mut i: usize = 0;
        while i < 32
            invariant
                i <= 32,
                forall|j: int| 0 <= j < i ==> self.0@[j] == other.0@[j],
            decreases 32 - i,
        {
            if self.0[i] != other.0[i] {
                return false;
            }
            i = i + 1;
        }
        assert(self.0 =~= other.0);
        true
    }
}

impl Eq for B256 {

}

impl vstd::std_specs::cmp::PartialEqSpecImpl for B256 {
    open spec fn obeys_eq_spec() -> bool {
        true
    }

    open spec fn eq_spec(&self, other: &Self) -> bool {
        *self == *other
    }
}

/// A 256-bit number, most significant byte first.
#[derive(Clone, Copy, Debug, PartialEq, Eq)]
pub struct U256(pub [u8; 32]);

/// A 20-byte account address.
#[derive(Clone, Copy, Debug, PartialEq, Eq)]
pub struct Address(pub [u8; 20]);

/// An 8-byte value.
#[derive(Clone, Copy, Debug, PartialEq, Eq)]
pub struct B64(pub [u8; 8]);

/// A 2048-bit log filter.
#[derive(Clone, Copy, Debug, PartialEq, Eq)]
pub struct Bloom(pub [u8; 256]);

/// The Keccak-256 digest of a byte string.
pub uninterp spec fn keccak256_digest(bytes: Seq<u8>) -> B256;

/// Calls `alloy_primitives::keccak256`: the digest is a function of the bytes
/// alone. Nothing further is claimed of it; two strings may share a digest.
#[verifier::external_body]
pub(crate) fn keccak256(bytes: &Vec<u8>) -> (digest: B256)
    ensures
        digest == keccak256_digest(bytes@),
{
    B256(alloy_primitives::keccak256(bytes).0)
}

/// The root of the Merkle-Patricia trie that holds the `i`-th item under the
/// RLP encoding of `i`.
pub uninterp spec fn ordered_trie_root(items: Seq<Seq<u8>>) -> B256;

/// Calls `alloy_consensus::proofs::ordered_trie_root_encoded`, which is what
/// both the transaction root and the receipt root of a block come to once each
/// item is encoded: the root is a function of the encodings, in their order.
#[verifier::external_body]
pub(crate) fn ordered_trie_root_encoded(items: &Vec<&Vec<u8>>) -> (root: B256)
    ensures
        root == ordered_trie_root(items@.map_values(|item: &Vec<u8>| item@)),
{
    B256(alloy_consensus::proofs::ordered_trie_root_encoded(items).0)
}

/// Two hashes are equal exactly if they have the same 32 bytes.
pub proof fn law_hashes_are_compared_byte_by_byte(a: B256, b: B256)
    ensures
        B256::obeys_eq_spec(),
        a.eq_spec(&b) <==> forall|i: int|
            0 <= i < 32 ==> a.0@[i] == b.0@[i],
{
    if forall|i: int| 0 <= i < 32 ==> a.0@[i] == b.0@[i] {
        assert(a.0 =~= b.0);
    }
}

} // verus!
