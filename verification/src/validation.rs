//! The course of a validation, as a sequence of stages.
//!
//! A stage says what to ask for next. Its one method takes the reply and gives the next
//! stage, or the error that ends the validation. Stages cannot be skipped, repeated or
//! taken out of order: each is made only by the one before it.
//!
//! ```text
//! inputs -> consensus rules -> trie -> execution -> post-execution rules -> state root
//! ```
//!
//! Execution is either of the whole block at once, or a replay, transaction by transaction,
//! that stops for a state root at each selected checkpoint.

use std::collections::BTreeMap;

use vstd::prelude::*;

use crate::access_list::{entries, limit_exceeded, within_item_limit, AccountAccess};
use crate::ancestors::{
    hashes_by_number, header_decoding, inputs_accepted, inputs_fault, parent_state_root,
    sealed_ancestors, validate_block_inputs,
};
use crate::block::{ExecutionWitness, RecoveredBlock};
use crate::checkpoints::{
    first_unordered, strictly_increasing, validate_transaction_indices, within_block,
};
use crate::error::{trie_failure, ConsensusError, StatelessTrieError, StatelessValidationError};
use crate::header::SealedHeader;
use crate::output::{ExecutedView, PostExecutionCheck};
use crate::primitives::{keccak256_digest, B256};
use crate::replay::ExecutorSetup;

verus! {

/// What a validation is about.
pub struct ContextView {
    /// The block under validation.
    pub block: RecoveredBlock,
    /// Whether the block is replayed transaction by transaction, or executed as a whole.
    pub replayed: bool,
    /// The checkpoints selected for the replay.
    pub transaction_indices: Seq<usize>,
    /// The ancestor headers of the witness.
    pub headers: Seq<Seq<u8>>,
}

impl ContextView {
    /// The witness headers lead up to the block, and the selection fits it.
    pub open spec fn accepted(self) -> bool {
        &&& inputs_accepted(self.block, self.headers)
        &&& strictly_increasing(self.transaction_indices)
        &&& within_block(self.transaction_indices, self.block.transactions.len())
        &&& !self.replayed ==> self.transaction_indices.len() == 0
    }

    /// Execution is to build a block access list.
    pub open spec fn tracks_access_list(self) -> bool {
        self.block.sealed_header.header.block_access_list_hash is Some
    }
}

/// A block whose witness headers and checkpoint selection have been accepted.
pub struct BlockContext {
    block: RecoveredBlock,
    replayed: bool,
    transaction_indices: Vec<usize>,
    ancestor_hashes: BTreeMap<u64, B256>,
    parent: SealedHeader,
    headers: Ghost<Seq<Seq<u8>>>,
}

impl View for BlockContext {
    type V = ContextView;

    closed spec fn view(&self) -> ContextView {
        ContextView {
            block: self.block,
            replayed: self.replayed,
            transaction_indices: self.transaction_indices@,
            headers: self.headers@,
        }
    }
}

impl BlockContext {
    #[verifier::type_invariant]
    spec fn well_formed(self) -> bool {
        &&& self@.accepted()
        &&& self.ancestor_hashes@ == hashes_by_number(
            self.block,
            sealed_ancestors(self.headers@),
            0,
        )
        &&& header_decoding(self.headers@.last()) == Some(self.parent.header@)
        &&& self.parent.hash == keccak256_digest(self.headers@.last())
    }

    /// The block under validation.
    pub fn block(&self) -> (block: &RecoveredBlock)
        ensures
            *block == self@.block,
            self@.accepted(),
    {
        proof {
            use_type_invariant(self);
        }
        &self.block
    }

    /// Whether the block is replayed transaction by transaction.
    pub fn replayed(&self) -> (replayed: bool)
        ensures
            replayed == self@.replayed,
    {
        self.replayed
    }

    /// The selected checkpoints.
    pub fn transaction_indices(&self) -> (indices: &Vec<usize>)
        ensures
            indices@ == self@.transaction_indices,
    {
        &self.transaction_indices
    }

    /// The hash of each ancestor by its number, for `BLOCKHASH`.
    pub fn ancestor_hashes(&self) -> (hashes: &BTreeMap<u64, B256>)
        ensures
            hashes@ == hashes_by_number(self@.block, sealed_ancestors(self@.headers), 0),
    {
        proof {
            use_type_invariant(self);
        }
        &self.ancestor_hashes
    }

    /// The state root that the block is executed from.
    pub fn pre_state_root(&self) -> (root: B256)
        ensures
            root == parent_state_root(self@.headers),
            header_decoding(self@.headers.last()) matches Some(parent) && root
                == parent.state_root,
    {
        proof {
            use_type_invariant(self);
        }
        self.parent.header.state_root
    }

    /// The parent of the block: the last header of the witness, known by the hash of its
    /// encoding.
    pub fn parent(&self) -> (parent: &SealedHeader)
        ensures
            header_decoding(self@.headers.last()) == Some(parent.header@),
            parent.hash == keccak256_digest(self@.headers.last()),
    {
        proof {
            use_type_invariant(self);
        }
        &self.parent
    }

    /// Whether execution is to build a block access list. The stages of a replay say under
    /// which index each of its steps is recorded.
    pub fn tracks_access_list(&self) -> (r: bool)
        ensures
            r == self@.tracks_access_list(),
            r == (self@.block.sealed_header.header.block_access_list_hash is Some),
    {
        self.block.sealed_header.header.block_access_list_hash.is_some()
    }
}

/// Accepts the witness headers for a block with a selection that fits it.
fn accept_inputs(
    current_block: RecoveredBlock,
    witness: &ExecutionWitness,
    replayed: bool,
    transaction_indices: Vec<usize>,
) -> (r: Result<ConsensusCheck, StatelessValidationError>)
    requires
        strictly_increasing(transaction_indices@),
        within_block(transaction_indices@, current_block.transactions.len()),
        !replayed ==> transaction_indices@.len() == 0,
    ensures
        r is Ok <==> inputs_accepted(current_block, witness.header_bytes()),
        r matches Ok(check) ==> {
            &&& check.context() == (ContextView {
                block: current_block,
                replayed,
                transaction_indices: transaction_indices@,
                headers: witness.header_bytes(),
            })
            &&& check.asked() is Header
        },
        r matches Err(e) ==> inputs_fault(current_block, witness.header_bytes(), e),
{
    match validate_block_inputs(&current_block, witness) {
        Ok((ancestor_hashes, parent)) => {
            let context = BlockContext {
                block: current_block,
                replayed,
                transaction_indices,
                ancestor_hashes,
                parent,
                headers: Ghost(witness.header_bytes()),
            };
            Ok(ConsensusCheck { context, rule: ConsensusRule::Header })
        },
        Err(e) => Err(e),
    }
}

/// Begins the validation of an already-recovered block that is executed as a whole.
///
/// The caller must have authenticated the recovered senders.
pub fn stateless_validation_recovered_with_trie(
    current_block: RecoveredBlock,
    witness: &ExecutionWitness,
) -> (r: Result<ConsensusCheck, StatelessValidationError>)
    ensures
        r is Ok <==> inputs_accepted(current_block, witness.header_bytes()),
        r matches Ok(check) ==> {
            &&& check.context() == (ContextView {
                block: current_block,
                replayed: false,
                transaction_indices: Seq::empty(),
                headers: witness.header_bytes(),
            })
            &&& check.asked() is Header
        },
        r matches Err(e) ==> inputs_fault(current_block, witness.header_bytes(), e),
{
    accept_inputs(current_block, witness, false, Vec::new())
}

/// Begins the validation of a block whose senders are recovered first: takes what recovery
/// gave, and passes a failure of recovery on.
pub fn stateless_validation_with_trie(
    recovered: Result<RecoveredBlock, StatelessValidationError>,
    witness: &ExecutionWitness,
) -> (r: Result<ConsensusCheck, StatelessValidationError>)
    ensures
        r is Ok <==> (recovered matches Ok(block) && inputs_accepted(
            block,
            witness.header_bytes(),
        )),
        r matches Ok(check) ==> {
            &&& check.context() == (ContextView {
                block: recovered->Ok_0,
                replayed: false,
                transaction_indices: Seq::empty(),
                headers: witness.header_bytes(),
            })
            &&& check.asked() is Header
        },
        r matches Err(e) ==> match recovered {
            Ok(block) => inputs_fault(block, witness.header_bytes(), e),
            Err(failure) => e == failure,
        },
{
    match recovered {
        Ok(block) => stateless_validation_recovered_with_trie(block, witness),
        Err(e) => Err(e),
    }
}

/// Begins a validation that derives the state root after each selected transaction.
///
/// `transaction_indices` must be strictly increasing and within the block; that is settled
/// before the witness is looked at.
pub fn stateless_validation_recovered_with_trie_and_state_checkpoints(
    current_block: RecoveredBlock,
    witness: &ExecutionWitness,
    transaction_indices: &[usize],
) -> (r: Result<ConsensusCheck, StatelessValidationError>)
    ensures
        ({
            let ordered = strictly_increasing(transaction_indices@);
            let within = within_block(transaction_indices@, current_block.transactions.len());
            &&& r is Ok <==> ordered && within && inputs_accepted(
                current_block,
                witness.header_bytes(),
            )
            &&& r matches Ok(check) ==> {
                &&& check.context() == (ContextView {
                    block: current_block,
                    replayed: true,
                    transaction_indices: transaction_indices@,
                    headers: witness.header_bytes(),
                })
                &&& check.asked() is Header
            }
            &&& r matches Err(e) ==> {
                if !ordered {
                    exists|i: int| #[trigger]
                        first_unordered(transaction_indices@, i) && e
                            == (StatelessValidationError::UnorderedTransactionCheckpoints {
                            previous: transaction_indices@[i],
                            current: transaction_indices@[i + 1],
                        })
                } else if !within {
                    e == (StatelessValidationError::TransactionCheckpointOutOfBounds {
                        index: transaction_indices@.last(),
                        transactions: current_block.transactions.len(),
                    })
                } else {
                    inputs_fault(current_block, witness.header_bytes(), e)
                }
            }
        }),
{
    match validate_transaction_indices(transaction_indices, current_block.transactions.len()) {
        Ok(()) => {},
        Err(e) => {
            return Err(e);
        },
    }
    let mut selected: Vec<usize> = Vec::new();
    selected.extend_from_slice(transaction_indices);
    assert(selected@ =~= transaction_indices@);
    accept_inputs(current_block, witness, true, selected)
}

/// The consensus rules that a block is held to before execution, in their order.
#[derive(Clone, Copy, Debug, PartialEq, Eq)]
pub enum ConsensusRule {
    /// The block's header by itself.
    Header,
    /// The block's header against its parent, which the context holds.
    AgainstParent,
    /// The block before execution.
    PreExecution,
}

/// Waits for the verdict of a consensus rule.
pub struct ConsensusCheck {
    context: BlockContext,
    rule: ConsensusRule,
}

/// What follows a consensus rule that was kept.
pub enum ConsensusStep {
    /// The next rule.
    Check(ConsensusCheck),
    /// The rules are done; the trie comes next.
    BuildTrie(TrieConstruction),
}

impl ConsensusCheck {
    /// What the validation is about.
    pub closed spec fn context(self) -> ContextView {
        self.context@
    }

    /// The rule whose verdict is waited for.
    pub closed spec fn asked(self) -> ConsensusRule {
        self.rule
    }

    /// What the validation is about.
    pub fn block_context(&self) -> (context: &BlockContext)
        ensures
            context@ == self.context(),
    {
        &self.context
    }

    /// The rule whose verdict is waited for.
    pub fn rule(&self) -> (rule: ConsensusRule)
        ensures
            rule == self.asked(),
    {
        self.rule
    }

    /// Takes the rule's verdict. An objection ends the validation.
    pub fn answered(self, reply: Result<(), ConsensusError>) -> (r: Result<
        ConsensusStep,
        StatelessValidationError,
    >)
        ensures
            match reply {
                Err(objection) => r == Err::<ConsensusStep, StatelessValidationError>(
                    StatelessValidationError::ConsensusValidationFailed(objection),
                ),
                Ok(()) => match self.asked() {
                    ConsensusRule::Header => r matches Ok(ConsensusStep::Check(next))
                        && next.context() == self.context() && next.asked() is AgainstParent,
                    ConsensusRule::AgainstParent => r matches Ok(ConsensusStep::Check(next))
                        && next.context() == self.context() && next.asked() is PreExecution,
                    ConsensusRule::PreExecution => r matches Ok(ConsensusStep::BuildTrie(next))
                        && next.context() == self.context(),
                },
            },
    {
        match reply {
            Err(objection) => Err(StatelessValidationError::from(objection)),
            Ok(()) => match self.rule {
                ConsensusRule::Header => Ok(
                    ConsensusStep::Check(
                        ConsensusCheck {
                            context: self.context,
                            rule: ConsensusRule::AgainstParent,
                        },
                    ),
                ),
                ConsensusRule::AgainstParent => Ok(
                    ConsensusStep::Check(
                        ConsensusCheck {
                            context: self.context,
                            rule: ConsensusRule::PreExecution,
                        },
                    ),
                ),
                ConsensusRule::PreExecution => Ok(
                    ConsensusStep::BuildTrie(TrieConstruction { context: self.context }),
                ),
            },
        }
    }
}

/// Waits for the witness trie, which is built for the pre-state root.
pub struct TrieConstruction {
    context: BlockContext,
}

impl TrieConstruction {
    /// What the validation is about.
    pub closed spec fn context(self) -> ContextView {
        self.context@
    }

    /// What the validation is about.
    pub fn block_context(&self) -> (context: &BlockContext)
        ensures
            context@ == self.context(),
    {
        &self.context
    }

    /// Takes the outcome of building the trie.
    pub fn built(self, reply: Result<(), StatelessTrieError>) -> (r: Result<
        ExecutionStep,
        StatelessValidationError,
    >)
        ensures
            match reply {
                Err(failure) => r == Err::<ExecutionStep, StatelessValidationError>(
                    trie_failure(failure),
                ),
                Ok(()) => if self.context().replayed {
                    r matches Ok(ExecutionStep::Replay(next)) && next.context() == self.context()
                } else {
                    r matches Ok(ExecutionStep::Whole(next)) && next.context() == self.context()
                },
            },
    {
        proof {
            use_type_invariant(&self.context);
        }
        match reply {
            Err(failure) => Err(StatelessValidationError::from(failure)),
            Ok(()) => if self.context.replayed {
                Ok(ExecutionStep::Replay(ExecutorSetup::begin(self.context)))
            } else {
                Ok(ExecutionStep::Whole(WholeExecution { context: self.context }))
            },
        }
    }
}

/// How the block is executed.
pub enum ExecutionStep {
    /// As a whole.
    Whole(WholeExecution),
    /// Transaction by transaction.
    Replay(ExecutorSetup),
}

/// Waits for the block to be executed as a whole.
pub struct WholeExecution {
    context: BlockContext,
}

impl WholeExecution {
    /// What the validation is about.
    pub closed spec fn context(self) -> ContextView {
        self.context@
    }

    #[verifier::type_invariant]
    spec fn well_formed(self) -> bool {
        !self.context@.replayed
    }

    /// What the validation is about.
    pub fn block_context(&self) -> (context: &BlockContext)
        ensures
            context@ == self.context(),
    {
        &self.context
    }

    /// Takes the outcome of the execution: what it produced and the block access list, or the
    /// text of the failure. An access list over its limit ends the validation.
    pub fn executed<O>(self, reply: Result<(O, Option<Vec<AccountAccess>>), String>) -> (r: Result<
        PostExecutionCheck<O>,
        StatelessValidationError,
    >)
        ensures
            match reply {
                Err(text) => r == Err::<PostExecutionCheck<O>, StatelessValidationError>(
                    StatelessValidationError::StatelessExecutionFailed(text),
                ),
                Ok((output, list)) => {
                    let gas_limit = self.context().block.sealed_header.header.gas_limit;
                    if within_item_limit(gas_limit, entries(list)) {
                        r matches Ok(next) && next.executed() == (ExecutedView {
                            context: self.context(),
                            output,
                            block_access_list: list,
                            checkpoints: Seq::empty(),
                            receipts: Seq::empty(),
                        })
                    } else {
                        r matches Err(e) && limit_exceeded(gas_limit, entries(list), e)
                    }
                },
            },
    {
        proof {
            use_type_invariant(&self);
            use_type_invariant(&self.context);
        }
        match reply {
            Err(text) => Err(StatelessValidationError::StatelessExecutionFailed(text)),
            Ok((output, list)) => PostExecutionCheck::begin(
                self.context,
                output,
                list,
                Vec::new(),
                Ghost(Seq::empty()),
            ),
        }
    }
}

/// What has been accepted is this: witness headers that lead up to the block, and indices that
/// grow and name transactions of the block, none of them where the block is executed as a whole.
/// An access list is built exactly if the header commits to one.
pub proof fn law_accepted_context_has_a_fitting_selection(context: ContextView)
    requires
        context.accepted(),
    ensures
        inputs_accepted(context.block, context.headers),
        forall|i: int, j: int|
            0 <= i < j < context.transaction_indices.len() ==> context.transaction_indices[i]
                < context.transaction_indices[j],
        forall|i: int|
            0 <= i < context.transaction_indices.len() ==> context.transaction_indices[i]
                < context.block.transactions@.len(),
        !context.replayed ==> context.transaction_indices.len() == 0,
        context.tracks_access_list() <==> context.block.sealed_header.header.block_access_list_hash
            is Some,
{
}

} // verus!
