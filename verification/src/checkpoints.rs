//! Selection of transaction checkpoints within a block.

use vstd::prelude::*;

use crate::error::StatelessValidationError;
use crate::primitives::B256;

verus! {

/// A cumulative state root immediately after one transaction.
#[derive(Clone, Copy, Debug, PartialEq, Eq)]
pub struct TransactionStateCheckpoint {
    /// Zero-based position of the transaction in the block.
    pub transaction_index: usize,
    /// State root after this transaction and before post-execution changes.
    pub state_root: B256,
    /// Hash of the candidate block for this prefix: what to hold if settlement stops here.
    pub block_hash: B256,
}

/// Selected transaction state checkpoints from one validated block.
#[derive(Clone, Debug, PartialEq, Eq)]
pub struct BlockStateCheckpoints {
    /// Requested cumulative transaction checkpoints, in transaction order.
    pub transaction_state_checkpoints: Vec<TransactionStateCheckpoint>,
}

/// Every index is less than each index behind it.
pub open spec fn strictly_increasing(indices: Seq<usize>) -> bool {
    forall|i: int, j: int| 0 <= i < j < indices.len() ==> indices[i] < indices[j]
}

/// Every index names one of `transactions` transactions.
pub open spec fn within_block(indices: Seq<usize>, transactions: usize) -> bool {
    forall|i: int| 0 <= i < indices.len() ==> indices[i] < transactions
}

/// `i` is the first position whose index is not less than its successor.
pub open spec fn first_unordered(indices: Seq<usize>, i: int) -> bool {
    &&& 0 <= i < indices.len() - 1
    &&& indices[i] >= indices[i + 1]
    &&& forall|j: int| 0 <= j < i ==> indices[j] < #[trigger] indices[j + 1]
}

proof fn lemma_pairwise_increasing(indices: Seq<usize>)
    requires
        forall|j: int| 0 <= j < indices.len() - 1 ==> indices[j] < #[trigger] indices[j + 1],
    ensures
        strictly_increasing(indices),
{
    assert forall|i: int, j: int| 0 <= i < j < indices.len() implies indices[i] < indices[j] by {
        lemma_pair_increasing(indices, i, j);
    }
}

proof fn lemma_pair_increasing(indices: Seq<usize>, i: int, j: int)
    requires
        forall|k: int| 0 <= k < indices.len() - 1 ==> indices[k] < #[trigger] indices[k + 1],
        0 <= i < j < indices.len(),
    ensures
        indices[i] < indices[j],
    decreases j,
{
    assert(indices[j - 1] < indices[(j - 1) + 1]);
    if i < j - 1 {
        lemma_pair_increasing(indices, i, j - 1);
    }
}

/// Validates the sparse checkpoint selection before any witness work begins.
///
/// The selection must be strictly increasing and within the block. An ordering
/// fault is reported ahead of an index that is out of bounds, and the first
/// ordering fault ahead of later ones.
pub fn validate_transaction_indices(
    transaction_indices: &[usize],
    transactions: usize,
) -> (r: Result<(), StatelessValidationError>)
    ensures
        r is Ok <==> strictly_increasing(transaction_indices@) && within_block(
            transaction_indices@,
            transactions,
        ),
        !strictly_increasing(transaction_indices@) ==> exists|i: int|
            #[trigger] first_unordered(transaction_indices@, i) && r == Err::<
                (),
                StatelessValidationError,
            >(
                StatelessValidationError::UnorderedTransactionCheckpoints {
                    previous: transaction_indices@[i],
                    current: transaction_indices@[i + 1],
                },
            ),
        strictly_increasing(transaction_indices@) && !within_block(
            transaction_indices@,
            transactions,
        ) ==> r == Err::<(), StatelessValidationError>(
            StatelessValidationError::TransactionCheckpointOutOfBounds {
                index: transaction_indices@.last(),
                transactions,
            },
        ),
        r is Ok <==> {
            &&& forall|i: int, j: int|
                0 <= i < j < transaction_indices@.len() ==> transaction_indices@[i]
                    < transaction_indices@[j]
            &&& forall|i: int|
                0 <= i < transaction_indices@.len() ==> transaction_indices@[i] < transactions
        },
        r matches Err(e) ==> match e {
            StatelessValidationError::UnorderedTransactionCheckpoints { previous, current } => {
                &&& previous >= current
                &&& exists|i: int|
                    0 <= i < transaction_indices@.len() - 1 && previous == transaction_indices@[i]
                        && current == #[trigger] transaction_indices@[i + 1] && (forall|j: int, k: int|
                        0 <= j < k <= i ==> transaction_indices@[j] < transaction_indices@[k])
            },
            StatelessValidationError::TransactionCheckpointOutOfBounds { index, transactions: n } => {
                &&& n == transactions
                &&& index >= transactions
                &&& transaction_indices@.len() > 0
                &&& index == transaction_indices@[transaction_indices@.len() - 1]
                &&& forall|i: int, j: int|
                    0 <= i < j < transaction_indices@.len() ==> transaction_indices@[i]
                        < transaction_indices@[j]
            },
            _ => false,
        },
{
    let count: usize = transaction_indices.len();
    let mut i: usize = 1;
    while i < count
        invariant
            count == transaction_indices@.len(),
            1 <= i,
            count >= 1 ==> i <= count,
            forall|j: int| 0 <= j < i - 1 && j < count - 1 ==> transaction_indices@[j] < #[trigger] transaction_indices@[j + 1],
        decreases count - i,
    {
        let previous: usize = transaction_indices[i - 1];
        let current: usize = transaction_indices[i];
        if previous >= current {
            assert(first_unordered(transaction_indices@, i - 1));
            proof {
                let ordered = transaction_indices@.take(i as int);
                assert forall|j: int| 0 <= j < ordered.len() - 1 implies ordered[j]
                    < #[trigger] ordered[j + 1] by {
                    assert(transaction_indices@[j] < transaction_indices@[j + 1]);
                }
                lemma_pairwise_increasing(ordered);
                assert forall|j: int, k: int| 0 <= j < k <= i - 1 implies transaction_indices@[j]
                    < transaction_indices@[k] by {
                    assert(ordered[j] < ordered[k]);
                }
                assert(current == transaction_indices@[(i - 1) + 1]);
            }
            return Err(
                StatelessValidationError::UnorderedTransactionCheckpoints { previous, current },
            );
        }
        i = i + 1;
    }
    proof {
        lemma_pairwise_increasing(transaction_indices@);
    }
    if count > 0 {
        let index: usize = transaction_indices[count - 1];
        if index >= transactions {
            return Err(
                StatelessValidationError::TransactionCheckpointOutOfBounds { index, transactions },
            );
        }
    }
    Ok(())
}

/// A selection is in order exactly if each index is less than the next, and an ordered selection
/// is within the block exactly if its last index is. Where it is out of order, exactly one
/// position is the first at which it is, and everything up to there is in order.
pub proof fn law_selection_is_settled_by_neighbours(indices: Seq<usize>, transactions: usize)
    ensures
        strictly_increasing(indices) <==> forall|i: int|
            0 <= i < indices.len() - 1 ==> indices[i] < #[trigger] indices[i + 1],
        strictly_increasing(indices) ==> (within_block(indices, transactions) <==> (indices.len()
            > 0 ==> indices[indices.len() - 1] < transactions)),
        within_block(indices, transactions) <==> forall|i: int|
            0 <= i < indices.len() ==> indices[i] < transactions,
        forall|i: int| #[trigger]
            first_unordered(indices, i) <==> {
                &&& 0 <= i < indices.len() - 1
                &&& indices[i] >= indices[i + 1]
                &&& strictly_increasing(indices.take(i + 1))
            },
{
    if forall|i: int| 0 <= i < indices.len() - 1 ==> indices[i] < #[trigger] indices[i + 1] {
        lemma_pairwise_increasing(indices);
    }
    assert forall|i: int| #[trigger] first_unordered(indices, i) implies strictly_increasing(
        indices.take(i + 1),
    ) by {
        let ordered = indices.take(i + 1);
        assert forall|j: int| 0 <= j < ordered.len() - 1 implies ordered[j]
            < #[trigger] ordered[j + 1] by {
            assert(indices[j] < indices[j + 1]);
        }
        lemma_pairwise_increasing(ordered);
    }
    assert forall|i: int|
        0 <= i < indices.len() - 1 && indices[i] >= indices[i + 1] && strictly_increasing(
            indices.take(i + 1),
        ) implies #[trigger] first_unordered(indices, i) by {
        let ordered = indices.take(i + 1);
        assert forall|j: int| 0 <= j < i implies indices[j] < #[trigger] indices[j + 1] by {
            assert(ordered[j] < ordered[j + 1]);
        }
    }
}

} // verus!
