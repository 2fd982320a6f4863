//! The block under validation and the witness that comes with it.

use vstd::prelude::*;

use crate::header::SealedHeader;

verus! {

/// A transaction, as the bytes that the block commits to.
#[derive(Clone, Debug, PartialEq, Eq)]
pub struct Transaction {
    /// The EIP-2718 encoding.
    pub encoded: Vec<u8>,
}

/// The encodings of a list of transactions.
pub open spec fn encodings(transactions: Seq<Transaction>) -> Seq<Seq<u8>> {
    transactions.map_values(|transaction: Transaction| transaction.encoded@)
}

/// A block whose senders have been authenticated.
#[derive(Clone, Debug, PartialEq, Eq)]
pub struct RecoveredBlock {
    /// The header and the block's hash.
    pub sealed_header: SealedHeader,
    /// The transactions, in block order.
    pub transactions: Vec<Transaction>,
}

/// The part of an execution witness that the ancestor checks read.
#[derive(Clone, Debug, PartialEq, Eq)]
pub struct ExecutionWitness {
    /// RLP encodings of ancestor headers, oldest first; the last is the parent.
    pub headers: Vec<Vec<u8>>,
}

impl ExecutionWitness {
    /// The ancestor headers as byte sequences.
    pub open spec fn header_bytes(&self) -> Seq<Seq<u8>> {
        self.headers@.map_values(|bytes: Vec<u8>| bytes@)
    }
}

/// Nothing of a block's transactions, or of a witness's headers, is lost or moved where they are
/// taken as bytes.
pub proof fn law_encodings_keep_every_item(
    transactions: Seq<Transaction>,
    witness: ExecutionWitness,
)
    ensures
        encodings(transactions).len() == transactions.len(),
        forall|i: int|
            0 <= i < transactions.len() ==> #[trigger] encodings(transactions)[i]
                == transactions[i].encoded@,
        witness.header_bytes().len() == witness.headers@.len(),
        forall|i: int|
            0 <= i < witness.headers@.len() ==> #[trigger] witness.header_bytes()[i]
                == witness.headers@[i]@,
{
}

} // verus!
