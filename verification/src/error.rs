//! What can go wrong while a block is validated.

use vstd::prelude::*;

use crate::primitives::B256;

verus! {

/// A failure reported by the witness trie.
#[derive(Clone, Debug, PartialEq, Eq)]
pub enum StatelessTrieError {
    /// The witness data could not be revealed.
    WitnessRevealFailed {
        /// The pre-state root used for verification.
        pre_state_root: B256,
    },
    /// The state root could not be calculated.
    StatelessStateRootCalculationFailed,
    /// The pre-state root could not be calculated from the witness data.
    StatelessPreStateRootCalculationFailed,
    /// The computed pre-state root is not the expected one.
    PreStateRootMismatch {
        /// The computed pre-state root.
        got: B256,
        /// The expected pre-state root.
        expected: B256,
    },
}

/// A consensus rule's objection, in its own words.
#[derive(Clone, Debug, PartialEq, Eq)]
pub struct ConsensusError {
    /// The text of the objection.
    pub message: String,
}

/// Errors that can occur during stateless validation.
#[derive(Clone, Debug, PartialEq, Eq)]
pub enum StatelessValidationError {
    /// The number of ancestor headers exceeds the limit.
    AncestorHeaderLimitExceeded {
        /// The number of headers provided.
        count: usize,
        /// The limit.
        limit: usize,
    },
    /// An ancestor header hash does not match its child's parent hash.
    InvalidAncestorParentHash {
        /// The child block number whose parent hash was checked.
        child_number: u64,
        /// The ancestor block number provided as the parent.
        parent_number: u64,
        /// The parent hash committed to by the child header.
        expected_parent_hash: B256,
        /// The hash of the provided ancestor header.
        actual_parent_hash: B256,
    },
    /// Ancestor header numbers are not contiguous.
    InvalidAncestorNumber {
        /// The child block number whose parent number was checked.
        child_number: u64,
        /// The expected parent block number.
        expected_parent_number: u64,
        /// The ancestor block number provided as the parent.
        parent_number: u64,
    },
    /// Revealing the witness data failed.
    WitnessRevealFailed {
        /// The pre-state root used for verification.
        pre_state_root: B256,
    },
    /// Stateless block execution failed.
    StatelessExecutionFailed(String),
    /// Consensus validation of the block failed.
    ConsensusValidationFailed(ConsensusError),
    /// The block access list exceeds the per-block item gas limit (EIP-7928).
    BlockAccessListGasLimitExceeded {
        /// The number of block access list items produced during execution.
        items: u64,
        /// The most items allowed: the block gas limit divided by the per item cost.
        limit: u64,
    },
    /// A last-transaction checkpoint matches the block root only if
    /// post-execution changes touch no state.
    PostExecutionChangesNotStateNeutral {
        /// Root at the last transaction, before post-execution changes.
        checkpoint: B256,
        /// The block's validated post-state root.
        block: B256,
    },
    /// A block carries a field a candidate cannot reproduce from a prefix.
    CandidateBlockUnsupportedField(&'static str),
    /// The state root could not be calculated.
    StatelessStateRootCalculationFailed,
    /// The pre-state root could not be calculated from the witness data.
    StatelessPreStateRootCalculationFailed,
    /// Required ancestor headers are missing.
    MissingAncestorHeader,
    /// An ancestor header could not be deserialized.
    HeaderDeserializationFailed,
    /// The computed state root does not match the one in the block header.
    PostStateRootMismatch {
        /// The computed post-state root.
        got: B256,
        /// The expected post-state root, in the block header.
        expected: B256,
    },
    /// The computed pre-state root does not match the expected one.
    PreStateRootMismatch {
        /// The computed pre-state root.
        got: B256,
        /// The expected pre-state root, from the previous block.
        expected: B256,
    },
    /// Signer recovery failed.
    SignerRecovery,
    /// Requested transaction checkpoints are not strictly ordered.
    UnorderedTransactionCheckpoints {
        /// The preceding requested transaction index.
        previous: usize,
        /// The next requested transaction index.
        current: usize,
    },
    /// A requested checkpoint is outside the block's transactions.
    TransactionCheckpointOutOfBounds {
        /// The requested transaction index.
        index: usize,
        /// The number of transactions in the block.
        transactions: usize,
    },
    /// A signature has a non-normalized s value in a homestead block.
    HomesteadSignatureNotNormalized,
    /// Custom error.
    Custom(&'static str),
}

/// The validation error that each trie error becomes.
pub open spec fn trie_failure(err: StatelessTrieError) -> StatelessValidationError {
    match err {
        StatelessTrieError::WitnessRevealFailed { pre_state_root } => {
            StatelessValidationError::WitnessRevealFailed { pre_state_root }
        },
        StatelessTrieError::StatelessStateRootCalculationFailed => {
            StatelessValidationError::StatelessStateRootCalculationFailed
        },
        StatelessTrieError::StatelessPreStateRootCalculationFailed => {
            StatelessValidationError::StatelessPreStateRootCalculationFailed
        },
        StatelessTrieError::PreStateRootMismatch { got, expected } => {
            StatelessValidationError::PreStateRootMismatch { got, expected }
        },
    }
}

impl From<StatelessTrieError> for StatelessValidationError {
    fn from(err: StatelessTrieError) -> (r: Self) {
        match err {
            StatelessTrieError::WitnessRevealFailed { pre_state_root } => {
                StatelessValidationError::WitnessRevealFailed { pre_state_root }
            },
            StatelessTrieError::StatelessStateRootCalculationFailed => {
                StatelessValidationError::StatelessStateRootCalculationFailed
            },
            StatelessTrieError::StatelessPreStateRootCalculationFailed => {
                StatelessValidationError::StatelessPreStateRootCalculationFailed
            },
            StatelessTrieError::PreStateRootMismatch { got, expected } => {
                StatelessValidationError::PreStateRootMismatch { got, expected }
            },
        }
    }
}

impl vstd::std_specs::convert::FromSpecImpl<StatelessTrieError> for StatelessValidationError {
    open spec fn obeys_from_spec() -> bool {
        true
    }

    open spec fn from_spec(err: StatelessTrieError) -> Self {
        trie_failure(err)
    }
}

impl From<ConsensusError> for StatelessValidationError {
    fn from(err: ConsensusError) -> (r: Self) {
        StatelessValidationError::ConsensusValidationFailed(err)
    }
}

impl vstd::std_specs::convert::FromSpecImpl<ConsensusError> for StatelessValidationError {
    open spec fn obeys_from_spec() -> bool {
        true
    }

    open spec fn from_spec(err: ConsensusError) -> Self {
        StatelessValidationError::ConsensusValidationFailed(err)
    }
}

/// No two trie errors become the same validation error.
pub proof fn law_trie_failures_stay_distinct(a: StatelessTrieError, b: StatelessTrieError)
    requires
        trie_failure(a) == trie_failure(b),
    ensures
        a == b,
{
}

/// A trie error becomes the validation error of the same name, with the same roots in the same
/// places.
pub proof fn law_trie_failures_keep_what_they_say(one: B256, other: B256)
    ensures
        trie_failure(StatelessTrieError::WitnessRevealFailed { pre_state_root: one })
            == (StatelessValidationError::WitnessRevealFailed { pre_state_root: one }),
        trie_failure(StatelessTrieError::StatelessStateRootCalculationFailed)
            == StatelessValidationError::StatelessStateRootCalculationFailed,
        trie_failure(StatelessTrieError::StatelessPreStateRootCalculationFailed)
            == StatelessValidationError::StatelessPreStateRootCalculationFailed,
        trie_failure(StatelessTrieError::PreStateRootMismatch { got: one, expected: other })
            == (StatelessValidationError::PreStateRootMismatch { got: one, expected: other }),
{
}

/// Converting an error into a validation error is what a stage does with it: a trie error
/// becomes its failure, and an objection is carried as it is.
pub proof fn law_conversions_carry_the_error(trie: StatelessTrieError, objection: ConsensusError)
    ensures
        <StatelessValidationError as vstd::std_specs::convert::FromSpec<
            StatelessTrieError,
        >>::obeys_from_spec(),
        <StatelessValidationError as vstd::std_specs::convert::FromSpec<
            StatelessTrieError,
        >>::from_spec(trie) == trie_failure(trie),
        <StatelessValidationError as vstd::std_specs::convert::FromSpec<
            ConsensusError,
        >>::obeys_from_spec(),
        <StatelessValidationError as vstd::std_specs::convert::FromSpec<
            ConsensusError,
        >>::from_spec(objection) == StatelessValidationError::ConsensusValidationFailed(objection),
{
}

} // verus!
