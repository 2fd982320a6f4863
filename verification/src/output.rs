//! The checks on what execution produced.

use vstd::prelude::*;

use crate::access_list::{
    access_list_hash, commitment, entries, limit_exceeded, validate_block_access_list, within_item_limit,
    AccountAccess,
};
use crate::ancestors::{
    header_decoding, inputs_accepted, law_accepted_inputs_lead_up_to_the_block, parent_state_root,
};
use crate::block::encodings;
use crate::candidate::{
    candidate_header, law_full_candidate_is_the_block, prefix_commitments, reproducible,
};
use crate::checkpoints::{BlockStateCheckpoints, TransactionStateCheckpoint};
use crate::error::{trie_failure, ConsensusError, StatelessTrieError, StatelessValidationError};
use crate::header::header_hash;
use crate::primitives::B256;
use crate::receipt::ReceiptView;
use crate::validation::{BlockContext, ContextView};

verus! {

/// Output of successful stateless block validation.
///
/// `O` is what execution produced, which the validation carries but does not read.
#[derive(Clone, Debug, PartialEq, Eq)]
pub struct StatelessValidationOutput<O> {
    /// Hash of the validated block.
    pub block_hash: B256,
    /// State root from which the validated block was executed.
    pub pre_state_root: B256,
    /// State root recomputed after executing and finalizing the validated block.
    pub post_state_root: B256,
    /// Execution output produced while validating the block.
    pub execution_output: O,
    /// Block access list produced during execution, if available.
    pub block_access_list: Option<Vec<AccountAccess>>,
}

/// Successful stateless validation with opt-in execution checkpoints.
#[derive(Clone, Debug, PartialEq, Eq)]
pub struct StatelessValidationWithStateCheckpointsOutput<O> {
    /// The ordinary block validation output.
    pub validation: StatelessValidationOutput<O>,
    /// State roots derived at the block's execution boundaries.
    pub checkpoints: BlockStateCheckpoints,
}

/// A checkpoint is the candidate block for the transactions up to its own, sealed with the
/// receipts of these and with the checkpoint's state root.
pub open spec fn checkpoint_sealed(
    context: ContextView,
    checkpoint: TransactionStateCheckpoint,
    receipts: Seq<ReceiptView>,
) -> bool {
    let settling = context.block.sealed_header.header@;
    let executed = checkpoint.transaction_index + 1;
    &&& executed <= context.block.transactions@.len()
    &&& receipts.len() == executed
    &&& reproducible(settling)
    &&& checkpoint.block_hash == header_hash(
        candidate_header(
            settling,
            encodings(context.block.transactions@.take(executed)),
            receipts,
            checkpoint.state_root,
        ),
    )
}

/// The checkpoints are those of the first selected transactions, in order, each sealed
/// with its receipts.
pub open spec fn collected(
    context: ContextView,
    checkpoints: Seq<TransactionStateCheckpoint>,
    receipts: Seq<Seq<ReceiptView>>,
) -> bool {
    &&& receipts.len() == checkpoints.len()
    &&& checkpoints.len() <= context.transaction_indices.len()
    &&& forall|k: int|
        0 <= k < checkpoints.len() ==> {
            &&& (#[trigger] checkpoints[k]).transaction_index == context.transaction_indices[k]
            &&& checkpoint_sealed(context, checkpoints[k], receipts[k])
        }
}

/// The checkpoints come from one course of execution, with state root `roots[i]` after
/// transaction `i` and with these receipts: each has the root after its transaction, and is
/// sealed with the receipts up to it.
pub open spec fn derived_from(
    checkpoints: Seq<TransactionStateCheckpoint>,
    sealed_with: Seq<Seq<ReceiptView>>,
    roots: Seq<B256>,
    receipts: Seq<ReceiptView>,
) -> bool {
    forall|k: int|
        0 <= k < checkpoints.len() ==> {
            let index = (#[trigger] checkpoints[k]).transaction_index as int;
            &&& checkpoints[k].state_root == roots[index]
            &&& sealed_with[k] == receipts.take(index + 1)
        }
}

/// An executed block: what the validation is about, what execution produced, and the
/// checkpoints that were collected on the way, with the receipts that sealed each.
pub struct ExecutedView<O> {
    pub context: ContextView,
    pub output: O,
    pub block_access_list: Option<Vec<AccountAccess>>,
    pub checkpoints: Seq<TransactionStateCheckpoint>,
    pub receipts: Seq<Seq<ReceiptView>>,
}

impl<O> ExecutedView<O> {
    /// The block's inputs were accepted, the access list keeps to its limit, and there is a
    /// checkpoint for each selected transaction.
    pub open spec fn sound(self) -> bool {
        &&& self.context.accepted()
        &&& within_item_limit(
            self.context.block.sealed_header.header.gas_limit,
            entries(self.block_access_list),
        )
        &&& collected(self.context, self.checkpoints, self.receipts)
        &&& self.checkpoints.len() == self.context.transaction_indices.len()
    }

    /// The two are of one block and witness, and execution produced the same.
    pub open spec fn agrees(self, other: ExecutedView<O>) -> bool {
        &&& self.context.block == other.context.block
        &&& self.context.headers == other.context.headers
        &&& self.output == other.output
        &&& self.block_access_list == other.block_access_list
    }

    /// The state after the last transaction of the block, where it is a checkpoint.
    pub open spec fn closing_root(self) -> Option<B256> {
        if self.checkpoints.len() > 0 && self.checkpoints.last().transaction_index + 1
            == self.context.block.transactions@.len() {
            Some(self.checkpoints.last().state_root)
        } else {
            None
        }
    }

    /// The changes after the last transaction leave the state as they found it, as far as the
    /// checkpoints show.
    pub open spec fn state_neutral(self) -> bool {
        self.closing_root() matches Some(root) ==> root
            == self.context.block.sealed_header.header.state_root
    }

    /// Why the block is refused, if it is, given what the trie makes of its state root: first
    /// comes a failure of the trie, then a root that is not the one in the header, then a
    /// state that changes after the last transaction.
    pub open spec fn refusal(self, reply: Result<B256, StatelessTrieError>) -> Option<
        StatelessValidationError,
    > {
        let expected = self.context.block.sealed_header.header.state_root;
        match reply {
            Err(failure) => Some(trie_failure(failure)),
            Ok(root) => if root != expected {
                Some(
                    StatelessValidationError::PostStateRootMismatch { got: root, expected },
                )
            } else if !self.state_neutral() {
                Some(
                    StatelessValidationError::PostExecutionChangesNotStateNeutral {
                        checkpoint: self.checkpoints.last().state_root,
                        block: expected,
                    },
                )
            } else {
                None
            },
        }
    }

    /// What is said of the block once it is accepted.
    pub open spec fn validation(self) -> StatelessValidationOutput<O> {
        let sealed = self.context.block.sealed_header;
        StatelessValidationOutput {
            block_hash: sealed.hash,
            pre_state_root: parent_state_root(self.context.headers),
            post_state_root: sealed.header.state_root,
            execution_output: self.output,
            block_access_list: self.block_access_list,
        }
    }
}

/// Only the last checkpoint can be that of the last transaction.
proof fn lemma_only_the_last_checkpoint_closes<O>(executed: ExecutedView<O>)
    requires
        executed.sound(),
    ensures
        forall|k: int|
            0 <= k < executed.checkpoints.len() && (
            #[trigger] executed.checkpoints[k]).transaction_index + 1
                == executed.context.block.transactions@.len() ==> k == executed.checkpoints.len() - 1,
{
    let indices = executed.context.transaction_indices;
    assert forall|k: int|
        0 <= k < executed.checkpoints.len() && (
        #[trigger] executed.checkpoints[k]).transaction_index + 1
            == executed.context.block.transactions@.len() implies k == executed.checkpoints.len()
        - 1 by {
        let last = executed.checkpoints.len() - 1;
        assert(executed.checkpoints[last].transaction_index == indices[last]);
        if k < last {
            assert(indices[k] < indices[last]);
        }
    }
}

struct ExecutedBlock<O> {
    context: BlockContext,
    output: O,
    block_access_list: Option<Vec<AccountAccess>>,
    checkpoints: Vec<TransactionStateCheckpoint>,
    receipts: Ghost<Seq<Seq<ReceiptView>>>,
}

impl<O> ExecutedBlock<O> {
    spec fn executed(self) -> ExecutedView<O> {
        ExecutedView {
            context: self.context@,
            output: self.output,
            block_access_list: self.block_access_list,
            checkpoints: self.checkpoints@,
            receipts: self.receipts@,
        }
    }

    #[verifier::type_invariant]
    spec fn well_formed(self) -> bool {
        self.executed().sound()
    }
}

/// Waits for the verdict of the post-execution consensus rules.
pub struct PostExecutionCheck<O> {
    block: ExecutedBlock<O>,
    block_access_list_hash: Option<B256>,
}

impl<O> PostExecutionCheck<O> {
    /// The executed block.
    pub closed spec fn executed(self) -> ExecutedView<O> {
        self.block.executed()
    }

    #[verifier::type_invariant]
    spec fn well_formed(self) -> bool {
        self.block_access_list_hash == commitment(entries(self.block.block_access_list))
    }

    /// Holds the access list against the gas limit.
    pub(crate) fn begin(
        context: BlockContext,
        output: O,
        block_access_list: Option<Vec<AccountAccess>>,
        checkpoints: Vec<TransactionStateCheckpoint>,
        receipts: Ghost<Seq<Seq<ReceiptView>>>,
    ) -> (r: Result<PostExecutionCheck<O>, StatelessValidationError>)
        requires
            collected(context@, checkpoints@, receipts@),
            checkpoints@.len() == context@.transaction_indices.len(),
        ensures
            ({
                let gas_limit = context@.block.sealed_header.header.gas_limit;
                if within_item_limit(gas_limit, entries(block_access_list)) {
                    r matches Ok(next) && next.executed() == (ExecutedView {
                        context: context@,
                        output,
                        block_access_list,
                        checkpoints: checkpoints@,
                        receipts: receipts@,
                    })
                } else {
                    r matches Err(e) && limit_exceeded(gas_limit, entries(block_access_list), e)
                }
            }),
    {
        let gas_limit: u64 = context.block().sealed_header.header.gas_limit;
        match validate_block_access_list(gas_limit, &block_access_list) {
            Ok(block_access_list_hash) => {
                let block = ExecutedBlock {
                    context,
                    output,
                    block_access_list,
                    checkpoints,
                    receipts,
                };
                Ok(PostExecutionCheck { block, block_access_list_hash })
            },
            Err(e) => Err(e),
        }
    }

    /// What the validation is about.
    pub fn block_context(&self) -> (context: &BlockContext)
        ensures
            context@ == self.executed().context,
    {
        &self.block.context
    }

    /// What execution produced.
    pub fn output(&self) -> (output: &O)
        ensures
            *output == self.executed().output,
    {
        &self.block.output
    }

    /// The hash of the access list that execution produced, which the rules hold against
    /// the header.
    pub fn block_access_list_hash(&self) -> (hash: Option<B256>)
        ensures
            hash == commitment(entries(self.executed().block_access_list)),
            match self.executed().block_access_list {
                Some(list) => hash == Some(
                    access_list_hash(list@.map_values(|account: AccountAccess| account@)),
                ),
                None => hash is None,
            },
    {
        proof {
            use_type_invariant(self);
        }
        self.block_access_list_hash
    }

    /// Takes the verdict of the rules. An objection ends the validation.
    pub fn answered(self, reply: Result<(), ConsensusError>) -> (r: Result<
        PostStateRoot<O>,
        StatelessValidationError,
    >)
        ensures
            match reply {
                Err(objection) => r == Err::<PostStateRoot<O>, StatelessValidationError>(
                    StatelessValidationError::ConsensusValidationFailed(objection),
                ),
                Ok(()) => r matches Ok(next) && next.executed() == self.executed(),
            },
    {
        match reply {
            Err(objection) => Err(StatelessValidationError::from(objection)),
            Ok(()) => Ok(PostStateRoot { block: self.block }),
        }
    }
}

/// Waits for the state root that the trie gives after the execution's changes.
pub struct PostStateRoot<O> {
    block: ExecutedBlock<O>,
}

impl<O> PostStateRoot<O> {
    /// The executed block.
    pub closed spec fn executed(self) -> ExecutedView<O> {
        self.block.executed()
    }

    /// What the validation is about.
    pub fn block_context(&self) -> (context: &BlockContext)
        ensures
            context@ == self.executed().context,
    {
        &self.block.context
    }

    /// What execution produced.
    pub fn output(&self) -> (output: &O)
        ensures
            *output == self.executed().output,
    {
        &self.block.output
    }

    /// Takes the state root and gives the verdict.
    ///
    /// The root must be the one in the block's header. Where the last transaction of the block
    /// is a checkpoint, its root must be that one too: a candidate relies on the changes after
    /// the last transaction not touching the state.
    pub fn computed(self, reply: Result<B256, StatelessTrieError>) -> (r: Result<
        StatelessValidationWithStateCheckpointsOutput<O>,
        StatelessValidationError,
    >)
        ensures
            self.executed().sound(),
            match self.executed().refusal(reply) {
                Some(e) => r == Err::<
                    StatelessValidationWithStateCheckpointsOutput<O>,
                    StatelessValidationError,
                >(e),
                None => r matches Ok(accepted) && {
                    &&& accepted.validation == self.executed().validation()
                    &&& accepted.checkpoints.transaction_state_checkpoints@
                        == self.executed().checkpoints
                },
            },
            r is Ok ==> reply == Ok::<B256, StatelessTrieError>(
                self.executed().context.block.sealed_header.header.state_root,
            ),
            reply matches Ok(root) && root
                != self.executed().context.block.sealed_header.header.state_root ==> r == Err::<
                StatelessValidationWithStateCheckpointsOutput<O>,
                StatelessValidationError,
            >(
                StatelessValidationError::PostStateRootMismatch {
                    got: reply->Ok_0,
                    expected: self.executed().context.block.sealed_header.header.state_root,
                },
            ),
            reply matches Err(failure) ==> r == Err::<
                StatelessValidationWithStateCheckpointsOutput<O>,
                StatelessValidationError,
            >(trie_failure(failure)),
            reply == Ok::<B256, StatelessTrieError>(
                self.executed().context.block.sealed_header.header.state_root,
            ) ==> {
                let executed = self.executed();
                let block = executed.context.block;
                let root = block.sealed_header.header.state_root;
                &&& r is Ok <==> forall|k: int|
                    0 <= k < executed.checkpoints.len() && (
                    #[trigger] executed.checkpoints[k]).transaction_index + 1
                        == block.transactions@.len() ==> executed.checkpoints[k].state_root == root
                &&& forall|k: int|
                    0 <= k < executed.checkpoints.len() && (
                    #[trigger] executed.checkpoints[k]).transaction_index + 1
                        == block.transactions@.len() && executed.checkpoints[k].state_root != root
                        ==> r == Err::<
                        StatelessValidationWithStateCheckpointsOutput<O>,
                        StatelessValidationError,
                    >(
                        StatelessValidationError::PostExecutionChangesNotStateNeutral {
                            checkpoint: executed.checkpoints[k].state_root,
                            block: root,
                        },
                    )
            },
            r matches Ok(accepted) ==> {
                let executed = self.executed();
                let context = executed.context;
                let sealed = context.block.sealed_header;
                let checkpoints = accepted.checkpoints.transaction_state_checkpoints@;
                &&& accepted.validation.block_hash == sealed.hash
                &&& reply == Ok::<B256, StatelessTrieError>(accepted.validation.post_state_root)
                &&& header_decoding(context.headers.last()) matches Some(parent)
                    && accepted.validation.pre_state_root == parent.state_root
                &&& accepted.validation.execution_output == executed.output
                &&& accepted.validation.block_access_list == executed.block_access_list
                &&& checkpoints.len() == context.transaction_indices.len()
                &&& forall|k: int|
                    0 <= k < checkpoints.len() ==> {
                        let c = #[trigger] checkpoints[k];
                        &&& c == executed.checkpoints[k]
                        &&& c.transaction_index == context.transaction_indices[k]
                        &&& c.transaction_index < context.block.transactions@.len()
                        &&& c.transaction_index + 1 == context.block.transactions@.len()
                            ==> c.state_root == sealed.header.state_root
                        &&& executed.receipts[k].len() == c.transaction_index + 1
                        &&& c.block_hash == header_hash(
                            candidate_header(
                                sealed.header@,
                                encodings(context.block.transactions@.take(c.transaction_index + 1)),
                                executed.receipts[k],
                                c.state_root,
                            ),
                        )
                    }
            },
    {
        proof {
            use_type_invariant(&self.block);
            lemma_only_the_last_checkpoint_closes(self.executed());
            law_accepted_inputs_lead_up_to_the_block(
                self.executed().context.block,
                self.executed().context.headers,
            );
        }
        let ExecutedBlock { context, output, block_access_list, checkpoints, receipts: _ } =
            self.block;
        let sealed = &context.block().sealed_header;
        let expected: B256 = sealed.header.state_root;
        let post_state_root: B256 = match reply {
            Ok(root) => root,
            Err(failure) => {
                return Err(StatelessValidationError::from(failure));
            },
        };
        if post_state_root != expected {
            return Err(
                StatelessValidationError::PostStateRootMismatch { got: post_state_root, expected },
            );
        }
        let count: usize = checkpoints.len();
        if count > 0 {
            let last = checkpoints[count - 1];
            if last.transaction_index + 1 == context.block().transactions.len() {
                if last.state_root != expected {
                    return Err(
                        StatelessValidationError::PostExecutionChangesNotStateNeutral {
                            checkpoint: last.state_root,
                            block: expected,
                        },
                    );
                }
            }
        }
        let validation = StatelessValidationOutput {
            block_hash: sealed.hash,
            pre_state_root: context.pre_state_root(),
            post_state_root,
            execution_output: output,
            block_access_list,
        };
        Ok(
            StatelessValidationWithStateCheckpointsOutput {
                validation,
                checkpoints: BlockStateCheckpoints { transaction_state_checkpoints: checkpoints },
            },
        )
    }
}

/// The checkpoints answer the selection: one for each selected transaction, in the order of
/// the transactions, and none besides.
pub proof fn law_checkpoints_answer_the_selection<O>(executed: ExecutedView<O>)
    requires
        executed.sound(),
    ensures
        executed.checkpoints.map_values(|c: TransactionStateCheckpoint| c.transaction_index)
            == executed.context.transaction_indices,
        forall|j: int, k: int|
            0 <= j < k < executed.checkpoints.len() ==> executed.checkpoints[j].transaction_index
                < executed.checkpoints[k].transaction_index,
{
    let positions = executed.checkpoints.map_values(
        |c: TransactionStateCheckpoint| c.transaction_index,
    );
    assert(positions =~= executed.context.transaction_indices);
    assert forall|j: int, k: int| 0 <= j < k < executed.checkpoints.len() implies
        executed.checkpoints[j].transaction_index < executed.checkpoints[k].transaction_index by {
        assert(executed.context.transaction_indices[j] < executed.context.transaction_indices[k]);
    }
}

/// Which transactions are selected, if any, does not change what is said of the block. It can
/// add one reason to refuse it: that its last transaction is a checkpoint, and the state changes
/// behind it. In all else two executions that agree are answered alike, whether the block was
/// replayed or executed as a whole.
pub proof fn law_checkpoints_leave_the_validation_as_it_is<O>(
    a: ExecutedView<O>,
    b: ExecutedView<O>,
    reply: Result<B256, StatelessTrieError>,
)
    requires
        a.sound(),
        b.sound(),
        a.agrees(b),
    ensures
        a.validation() == b.validation(),
        a.state_neutral() && b.state_neutral() ==> a.refusal(reply) == b.refusal(reply),
        a.refusal(reply) matches Some(e) ==> b.refusal(reply) == Some(e)
            || e is PostExecutionChangesNotStateNeutral,
        b.refusal(reply) matches Some(e) ==> a.refusal(reply) == Some(e)
            || e is PostExecutionChangesNotStateNeutral,
        a.checkpoints.len() == 0 && b.refusal(reply) is None ==> a.refusal(reply) is None,
{
}

/// A checkpoint depends on its own transaction alone, and not on what else is selected: two
/// selections of one block that share a transaction have the same checkpoint for it, where the
/// state root and the receipts there are the same.
pub proof fn law_checkpoint_is_fixed_by_root_and_receipts<O>(
    a: ExecutedView<O>,
    b: ExecutedView<O>,
    j: int,
    k: int,
)
    requires
        a.sound(),
        b.sound(),
        a.context.block == b.context.block,
        0 <= j < a.checkpoints.len(),
        0 <= k < b.checkpoints.len(),
        a.context.transaction_indices[j] == b.context.transaction_indices[k],
        a.checkpoints[j].state_root == b.checkpoints[k].state_root,
        a.receipts[j] == b.receipts[k],
    ensures
        a.checkpoints[j] == b.checkpoints[k],
{
    assert(checkpoint_sealed(a.context, a.checkpoints[j], a.receipts[j]));
    assert(checkpoint_sealed(b.context, b.checkpoints[k], b.receipts[k]));
}

/// Two selections of one block do not interfere: with the same course of execution behind them,
/// the same is said of the block, and every transaction that both select has the same checkpoint
/// in both.
pub proof fn law_selections_do_not_interfere<O>(
    a: ExecutedView<O>,
    b: ExecutedView<O>,
    roots: Seq<B256>,
    receipts: Seq<ReceiptView>,
)
    requires
        a.sound(),
        b.sound(),
        a.agrees(b),
        derived_from(a.checkpoints, a.receipts, roots, receipts),
        derived_from(b.checkpoints, b.receipts, roots, receipts),
    ensures
        a.validation() == b.validation(),
        forall|j: int, k: int|
            0 <= j < a.checkpoints.len() && 0 <= k < b.checkpoints.len()
                && #[trigger] a.checkpoints[j].transaction_index
                == #[trigger] b.checkpoints[k].transaction_index ==> a.checkpoints[j]
                == b.checkpoints[k],
        forall|i: usize|
            a.context.transaction_indices.contains(i) && b.context.transaction_indices.contains(i)
                ==> exists|c: TransactionStateCheckpoint|
                #![trigger a.checkpoints.contains(c)]
                c.transaction_index == i && a.checkpoints.contains(c) && b.checkpoints.contains(c),
{
    assert forall|j: int, k: int|
        0 <= j < a.checkpoints.len() && 0 <= k < b.checkpoints.len()
            && #[trigger] a.checkpoints[j].transaction_index
            == #[trigger] b.checkpoints[k].transaction_index implies a.checkpoints[j]
        == b.checkpoints[k] by {
        law_checkpoint_is_fixed_by_root_and_receipts(a, b, j, k);
    }
    assert forall|i: usize|
        a.context.transaction_indices.contains(i) && b.context.transaction_indices.contains(
            i,
        ) implies exists|c: TransactionStateCheckpoint|
        #![trigger a.checkpoints.contains(c)]
        c.transaction_index == i && a.checkpoints.contains(c) && b.checkpoints.contains(c) by {
        let j = a.context.transaction_indices.index_of(i);
        let k = b.context.transaction_indices.index_of(i);
        let c = a.checkpoints[j];
        assert(c.transaction_index == i);
        assert(b.checkpoints[k].transaction_index == i);
        assert(a.checkpoints.contains(c));
        assert(b.checkpoints.contains(c));
    }
}

/// To hold the candidate of the last transaction is to hold the block: where that transaction
/// is a checkpoint of an accepted block, and the header commits to the block's transactions and
/// to the receipts that sealed the checkpoint, the candidate has the hash of that header.
pub proof fn law_closing_checkpoint_is_the_block<O>(executed: ExecutedView<O>)
    requires
        executed.sound(),
        executed.closing_root() is Some,
        executed.state_neutral(),
        ({
            let header = executed.context.block.sealed_header.header@;
            let transactions = encodings(executed.context.block.transactions@);
            let prefix = prefix_commitments(
                transactions,
                executed.receipts.last(),
                header.state_root,
            );
            &&& header.transactions_root == prefix.transactions_root
            &&& header.receipts_root == prefix.receipts_root
            &&& header.logs_bloom == prefix.logs_bloom
            &&& header.gas_used == prefix.gas_used
        }),
    ensures
        executed.checkpoints.last().block_hash == header_hash(
            executed.context.block.sealed_header.header@,
        ),
{
    let block = executed.context.block;
    let last = executed.checkpoints.len() - 1;
    assert(checkpoint_sealed(
        executed.context,
        executed.checkpoints[last],
        executed.receipts[last],
    ));
    assert(block.transactions@.take(block.transactions@.len() as int) =~= block.transactions@);
    law_full_candidate_is_the_block(
        block.sealed_header.header@,
        encodings(block.transactions@),
        executed.receipts.last(),
        executed.checkpoints.last().state_root,
    );
}

/// A block is accepted only with the state root in its header, whatever else the header says:
/// any other root is reported beside it, and a failure of the trie as what it is.
pub proof fn law_the_state_root_is_the_one_in_the_header<O>(
    executed: ExecutedView<O>,
    root: B256,
    failure: StatelessTrieError,
)
    ensures
        ({
            let expected = executed.context.block.sealed_header.header.state_root;
            &&& executed.refusal(Ok(root)) is None ==> root == expected
            &&& root != expected ==> executed.refusal(Ok(root)) == Some(
                StatelessValidationError::PostStateRootMismatch { got: root, expected },
            )
            &&& executed.refusal(Err(failure)) == Some(trie_failure(failure))
        }),
{
}

/// However many transactions are selected, a block with the right state root is accepted exactly
/// if every checkpoint that stands at its last transaction has that root; where one has not, its
/// root is reported beside the block's.
pub proof fn law_closing_checkpoints_have_the_root_of_the_block<O>(executed: ExecutedView<O>)
    requires
        executed.sound(),
    ensures
        ({
            let block = executed.context.block;
            let root = block.sealed_header.header.state_root;
            &&& executed.refusal(Ok(root)) is None <==> forall|k: int|
                0 <= k < executed.checkpoints.len() && (
                #[trigger] executed.checkpoints[k]).transaction_index + 1
                    == block.transactions@.len() ==> executed.checkpoints[k].state_root == root
            &&& forall|k: int|
                0 <= k < executed.checkpoints.len() && (
                #[trigger] executed.checkpoints[k]).transaction_index + 1
                    == block.transactions@.len() && executed.checkpoints[k].state_root != root
                    ==> executed.refusal(Ok(root)) == Some(
                    StatelessValidationError::PostExecutionChangesNotStateNeutral {
                        checkpoint: executed.checkpoints[k].state_root,
                        block: root,
                    },
                )
            &&& executed.state_neutral() <==> executed.refusal(Ok(root)) is None
            &&& executed.closing_root() matches Some(closing) ==> executed.checkpoints.len() > 0
                && executed.checkpoints[executed.checkpoints.len() - 1].transaction_index + 1
                == block.transactions@.len()
                && executed.checkpoints[executed.checkpoints.len() - 1].state_root == closing
        }),
{
    lemma_only_the_last_checkpoint_closes(executed);
    if executed.checkpoints.len() > 0 {
        let last = executed.checkpoints.len() - 1;
        assert(executed.checkpoints[last] == executed.checkpoints.last());
    }
}

/// What is said of an accepted block is the block's own hash, the state root of the header that
/// the last witness header decodes to, the state root in the block's header, and what execution
/// produced.
pub proof fn law_validation_is_of_this_block<O>(executed: ExecutedView<O>)
    requires
        executed.sound(),
    ensures
        ({
            let sealed = executed.context.block.sealed_header;
            let validation = executed.validation();
            &&& validation.block_hash == sealed.hash
            &&& header_decoding(executed.context.headers.last()) matches Some(parent)
                && validation.pre_state_root == parent.state_root
            &&& validation.post_state_root == sealed.header.state_root
            &&& validation.execution_output == executed.output
            &&& validation.block_access_list == executed.block_access_list
        }),
{
    law_accepted_inputs_lead_up_to_the_block(executed.context.block, executed.context.headers);
}

/// A sound execution is of an accepted block, keeps its access list within the limit, and has for
/// each selected transaction, in order, the candidate over the transactions up to it, sealed with
/// as many receipts and with the root derived there, of a block that is not refused.
pub proof fn law_sound_checkpoints_seal_their_prefixes<O>(executed: ExecutedView<O>)
    requires
        executed.sound(),
    ensures
        inputs_accepted(executed.context.block, executed.context.headers),
        within_item_limit(
            executed.context.block.sealed_header.header.gas_limit,
            entries(executed.block_access_list),
        ),
        executed.checkpoints.len() == executed.context.transaction_indices.len(),
        executed.receipts.len() == executed.checkpoints.len(),
        forall|k: int|
            0 <= k < executed.checkpoints.len() ==> {
                let c = #[trigger] executed.checkpoints[k];
                let block = executed.context.block;
                &&& c.transaction_index == executed.context.transaction_indices[k]
                &&& c.transaction_index < block.transactions@.len()
                &&& executed.receipts[k].len() == c.transaction_index + 1
                &&& reproducible(block.sealed_header.header@)
                &&& c.block_hash == header_hash(
                    candidate_header(
                        block.sealed_header.header@,
                        encodings(block.transactions@.take(c.transaction_index + 1)),
                        executed.receipts[k],
                        c.state_root,
                    ),
                )
            },
{
}

} // verus!
