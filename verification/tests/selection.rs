use stateless::checkpoints::validate_transaction_indices;
use stateless::error::{ConsensusError, StatelessTrieError, StatelessValidationError};
use stateless::primitives::B256;

#[test]
fn accepts_empty_and_strictly_ordered_checkpoint_indices() {
    assert!(validate_transaction_indices(&[], 0).is_ok());
    assert!(validate_transaction_indices(&[0, 2, 4], 5).is_ok());
}

#[test]
fn rejects_duplicate_or_descending_checkpoint_indices() {
    for indices in [&[1, 1][..], &[2, 1][..]] {
        assert!(matches!(
            validate_transaction_indices(indices, 3),
            Err(StatelessValidationError::UnorderedTransactionCheckpoints { .. })
        ));
    }
}

#[test]
fn rejects_out_of_bounds_checkpoint_indices() {
    assert!(matches!(
        validate_transaction_indices(&[0, 3], 3),
        Err(StatelessValidationError::TransactionCheckpointOutOfBounds {
            index: 3,
            transactions: 3,
        })
    ));
}

#[test]
fn the_first_ordering_fault_is_reported_ahead_of_the_bounds() {
    assert_eq!(
        validate_transaction_indices(&[0, 5, 5, 4], 3),
        Err(StatelessValidationError::UnorderedTransactionCheckpoints { previous: 5, current: 5 }),
    );
    assert_eq!(
        validate_transaction_indices(&[2, 1], 3),
        Err(StatelessValidationError::UnorderedTransactionCheckpoints { previous: 2, current: 1 }),
    );
}

#[test]
fn a_selection_in_an_empty_block_is_out_of_bounds() {
    assert_eq!(
        validate_transaction_indices(&[0], 0),
        Err(StatelessValidationError::TransactionCheckpointOutOfBounds {
            index: 0,
            transactions: 0,
        }),
    );
    assert_eq!(validate_transaction_indices(&[], usize::MAX), Ok(()));
    assert_eq!(validate_transaction_indices(&[0], 1), Ok(()));
}

#[test]
fn the_last_index_is_the_one_reported() {
    assert_eq!(
        validate_transaction_indices(&[3, 4, usize::MAX], 3),
        Err(StatelessValidationError::TransactionCheckpointOutOfBounds {
            index: usize::MAX,
            transactions: 3,
        }),
    );
}

#[test]
fn trie_errors_keep_what_they_say() {
    let one = B256([1; 32]);
    let two = B256([2; 32]);
    assert_eq!(
        StatelessValidationError::from(StatelessTrieError::WitnessRevealFailed {
            pre_state_root: one,
        }),
        StatelessValidationError::WitnessRevealFailed { pre_state_root: one },
    );
    assert_eq!(
        StatelessValidationError::from(StatelessTrieError::StatelessStateRootCalculationFailed),
        StatelessValidationError::StatelessStateRootCalculationFailed,
    );
    assert_eq!(
        StatelessValidationError::from(StatelessTrieError::StatelessPreStateRootCalculationFailed),
        StatelessValidationError::StatelessPreStateRootCalculationFailed,
    );
    assert_eq!(
        StatelessValidationError::from(StatelessTrieError::PreStateRootMismatch {
            got: one,
            expected: two,
        }),
        StatelessValidationError::PreStateRootMismatch { got: one, expected: two },
    );
    let objection = ConsensusError { message: "no".to_string() };
    assert_eq!(
        StatelessValidationError::from(objection.clone()),
        StatelessValidationError::ConsensusValidationFailed(objection),
    );
}
