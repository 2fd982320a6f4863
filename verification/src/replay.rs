//! Replay of a block, transaction by transaction, with stops at the selected checkpoints.

use vstd::prelude::*;
use vstd::slice::slice_subrange;

use crate::access_list::{entries, limit_exceeded, within_item_limit, AccountAccess};
use crate::block::encodings;
use crate::candidate::{candidate_block_hash, candidate_header, refused_field, reproducible};
use crate::checkpoints::TransactionStateCheckpoint;
use crate::error::{trie_failure, StatelessTrieError, StatelessValidationError};
use crate::header::header_hash;
use crate::output::{
    checkpoint_sealed, collected, derived_from, ExecutedView, PostExecutionCheck,
};
use crate::primitives::B256;
use crate::receipt::{receipt_views, Receipt, ReceiptView};
use crate::validation::{BlockContext, ContextView};

verus! {

/// How far a replay has come.
pub struct ReplayView {
    /// What the validation is about.
    pub context: ContextView,
    /// How many transactions have been executed.
    pub executed: int,
    /// The checkpoints collected so far.
    pub checkpoints: Seq<TransactionStateCheckpoint>,
    /// The receipts that sealed each of them.
    pub receipts: Seq<Seq<ReceiptView>>,
}

impl ReplayView {
    /// The checkpoints of all selected transactions executed so far, and no others, have
    /// been collected.
    pub open spec fn caught_up(self) -> bool {
        &&& self.context.accepted()
        &&& 0 <= self.executed <= self.context.block.transactions@.len()
        &&& collected(self.context, self.checkpoints, self.receipts)
        &&& forall|k: int|
            0 <= k < self.context.transaction_indices.len() ==> (k < self.checkpoints.len()
                <==> #[trigger] self.context.transaction_indices[k] < self.executed)
    }

    /// The transaction executed last is selected, and its checkpoint is the only one due.
    pub open spec fn checkpoint_due(self) -> bool {
        &&& self.context.accepted()
        &&& 1 <= self.executed <= self.context.block.transactions@.len()
        &&& collected(self.context, self.checkpoints, self.receipts)
        &&& self.selected()
    }

    /// The transaction executed last is the next selected one.
    pub open spec fn selected(self) -> bool {
        &&& self.checkpoints.len() < self.context.transaction_indices.len()
        &&& self.context.transaction_indices[self.checkpoints.len() as int] == self.executed - 1
    }

    /// A block access list, if one is built, records the next step under this index: the first
    /// transaction under 1, what comes after the last one under the number that is next.
    pub open spec fn recorded_under(self, index: Option<u128>) -> bool {
        match index {
            Some(i) => self.context.tracks_access_list() && i == self.executed + 1,
            None => !self.context.tracks_access_list(),
        }
    }

    /// One more transaction has been executed.
    pub open spec fn advanced(self) -> ReplayView {
        ReplayView { executed: self.executed + 1, ..self }
    }

    /// The checkpoint of the transaction executed last: its state root, and the hash of the
    /// candidate block for the transactions up to it.
    pub open spec fn checkpoint(
        self,
        state_root: B256,
        receipts: Seq<ReceiptView>,
    ) -> TransactionStateCheckpoint {
        TransactionStateCheckpoint {
            transaction_index: (self.executed - 1) as usize,
            state_root,
            block_hash: header_hash(
                candidate_header(
                    self.context.block.sealed_header.header@,
                    encodings(self.context.block.transactions@.take(self.executed)),
                    receipts.take(self.executed),
                    state_root,
                ),
            ),
        }
    }

    /// The checkpoint of the transaction executed last has been collected.
    pub open spec fn stopped(self, state_root: B256, receipts: Seq<ReceiptView>) -> ReplayView {
        ReplayView {
            checkpoints: self.checkpoints.push(self.checkpoint(state_root, receipts)),
            receipts: self.receipts.push(receipts.take(self.executed)),
            ..self
        }
    }
}

/// Once the checkpoint that is due has been collected, none is.
proof fn lemma_stopped_is_caught_up(
    state: ReplayView,
    state_root: B256,
    receipts: Seq<ReceiptView>,
)
    requires
        state.checkpoint_due(),
        reproducible(state.context.block.sealed_header.header@),
        state.executed <= receipts.len(),
    ensures
        state.stopped(state_root, receipts).caught_up(),
{
    let next = state.stopped(state_root, receipts);
    let due = state.checkpoints.len() as int;
    let indices = state.context.transaction_indices;
    assert forall|k: int| 0 <= k < next.checkpoints.len() implies {
        &&& (#[trigger] next.checkpoints[k]).transaction_index == indices[k]
        &&& checkpoint_sealed(state.context, next.checkpoints[k], next.receipts[k])
    } by {
        if k < due {
            assert(next.checkpoints[k] == state.checkpoints[k]);
        }
    }
    assert forall|k: int| 0 <= k < indices.len() implies (k < next.checkpoints.len()
        <==> #[trigger] indices[k] < next.executed) by {
        if k < due {
            assert(indices[k] < indices[due]);
        }
        if due < k {
            assert(indices[due] < indices[k]);
        }
    }
}

/// A replay stops for a checkpoint behind the selected transactions and no others: it asks for
/// a state root after a transaction exactly if the selection holds the transaction's position.
pub proof fn law_replay_stops_at_the_selection(state: ReplayView)
    requires
        state.caught_up(),
        state.executed < state.context.block.transactions@.len(),
    ensures
        state.advanced().selected() <==> state.context.transaction_indices.contains(
            state.executed as usize,
        ),
{
    let indices = state.context.transaction_indices;
    let next = state.checkpoints.len() as int;
    if indices.contains(state.executed as usize) {
        let k = indices.index_of(state.executed as usize);
        assert(indices[k] == state.executed);
        if next < k {
            assert(indices[next] < indices[k]);
        }
    }
}

/// A replay that is fed from one course of execution collects checkpoints of that course: a
/// stop with the root after the transaction executed last, and with the receipts so far, keeps
/// to it, and so does one more transaction.
pub proof fn law_replay_keeps_to_the_execution(
    state: ReplayView,
    given: Seq<ReceiptView>,
    roots: Seq<B256>,
    receipts: Seq<ReceiptView>,
)
    requires
        state.checkpoint_due(),
        derived_from(state.checkpoints, state.receipts, roots, receipts),
        given.take(state.executed) == receipts.take(state.executed),
    ensures
        ({
            let next = state.stopped(roots[state.executed - 1], given);
            &&& derived_from(next.checkpoints, next.receipts, roots, receipts)
            &&& derived_from(next.advanced().checkpoints, next.advanced().receipts, roots, receipts)
        }),
{
    let next = state.stopped(roots[state.executed - 1], given);
    assert forall|k: int| 0 <= k < next.checkpoints.len() implies {
        let index = (#[trigger] next.checkpoints[k]).transaction_index as int;
        &&& next.checkpoints[k].state_root == roots[index]
        &&& next.receipts[k] == receipts.take(index + 1)
    } by {
        if k < state.checkpoints.len() {
            assert(next.checkpoints[k] == state.checkpoints[k]);
        }
    }
}

struct Replay {
    context: BlockContext,
    executed: usize,
    checkpoints: Vec<TransactionStateCheckpoint>,
    receipts: Ghost<Seq<Seq<ReceiptView>>>,
}

impl Replay {
    spec fn state(self) -> ReplayView {
        ReplayView {
            context: self.context@,
            executed: self.executed as int,
            checkpoints: self.checkpoints@,
            receipts: self.receipts@,
        }
    }

    /// The index under which a block access list records the next step, if one is built.
    fn access_list_index(&self) -> (index: Option<u128>)
        ensures
            self.state().recorded_under(index),
    {
        if self.context.tracks_access_list() {
            Some(self.executed as u128 + 1)
        } else {
            None
        }
    }

    /// Goes on to the next transaction, or to the end of the block.
    fn proceed(self) -> (step: ReplayStep)
        requires
            self.state().caught_up(),
        ensures
            step.proceeds(self.state()),
    {
        if self.executed < self.context.block().transactions.len() {
            ReplayStep::Execute(TransactionExecution { replay: self })
        } else {
            ReplayStep::Finish(PostExecution { replay: self })
        }
    }
}

/// What a replay asks for next.
pub enum ReplayStep {
    /// The next transaction.
    Execute(TransactionExecution),
    /// The state root after the transaction just executed.
    DeriveRoot(CheckpointRoot),
    /// The post-execution changes.
    Finish(PostExecution),
}

impl ReplayStep {
    /// The replay asks for the next transaction, or, if there is none, for the
    /// post-execution changes.
    pub open spec fn proceeds(self, state: ReplayView) -> bool {
        if state.executed < state.context.block.transactions@.len() {
            self matches ReplayStep::Execute(next) && next.state() == state
        } else {
            self matches ReplayStep::Finish(next) && next.state() == state
        }
    }
}

/// Waits for an executor for the block.
pub struct ExecutorSetup {
    context: BlockContext,
}

impl ExecutorSetup {
    /// What the validation is about.
    pub closed spec fn context(self) -> ContextView {
        self.context@
    }

    #[verifier::type_invariant]
    spec fn well_formed(self) -> bool {
        self.context@.accepted()
    }

    pub(crate) fn begin(context: BlockContext) -> (stage: ExecutorSetup)
        requires
            context@.accepted(),
        ensures
            stage.context() == context@,
    {
        ExecutorSetup { context }
    }

    /// What the validation is about.
    pub fn block_context(&self) -> (context: &BlockContext)
        ensures
            context@ == self.context(),
    {
        &self.context
    }

    /// Takes the outcome of setting the executor up: nothing, or the text of the failure.
    pub fn created(self, reply: Result<(), String>) -> (r: Result<
        PreExecution,
        StatelessValidationError,
    >)
        ensures
            match reply {
                Err(text) => r == Err::<PreExecution, StatelessValidationError>(
                    StatelessValidationError::StatelessExecutionFailed(text),
                ),
                Ok(()) => r matches Ok(next) && next.context() == self.context(),
            },
    {
        proof {
            use_type_invariant(&self);
        }
        match reply {
            Err(text) => Err(StatelessValidationError::StatelessExecutionFailed(text)),
            Ok(()) => Ok(PreExecution { context: self.context }),
        }
    }
}

/// Waits for the pre-execution changes.
pub struct PreExecution {
    context: BlockContext,
}

impl PreExecution {
    /// What the validation is about.
    pub closed spec fn context(self) -> ContextView {
        self.context@
    }

    #[verifier::type_invariant]
    spec fn well_formed(self) -> bool {
        self.context@.accepted()
    }

    /// What the validation is about.
    pub fn block_context(&self) -> (context: &BlockContext)
        ensures
            context@ == self.context(),
    {
        &self.context
    }

    /// The index under which a block access list records the pre-execution changes, if one is
    /// built: the first.
    pub fn access_list_index(&self) -> (index: Option<u128>)
        ensures
            match index {
                Some(i) => self.context().tracks_access_list() && i == 0,
                None => !self.context().tracks_access_list(),
            },
            index is Some <==> self.context().block.sealed_header.header.block_access_list_hash
                is Some,
    {
        if self.context.tracks_access_list() {
            Some(0)
        } else {
            None
        }
    }

    /// Takes the outcome of the pre-execution changes: nothing, or the text of the failure.
    pub fn applied(self, reply: Result<(), String>) -> (r: Result<
        ReplayStep,
        StatelessValidationError,
    >)
        ensures
            match reply {
                Err(text) => r == Err::<ReplayStep, StatelessValidationError>(
                    StatelessValidationError::StatelessExecutionFailed(text),
                ),
                Ok(()) => r matches Ok(step) && step.proceeds(
                    ReplayView {
                        context: self.context(),
                        executed: 0,
                        checkpoints: Seq::empty(),
                        receipts: Seq::empty(),
                    },
                ),
            },
            reply is Ok ==> {
                let start = ReplayView {
                    context: self.context(),
                    executed: 0,
                    checkpoints: Seq::empty(),
                    receipts: Seq::empty(),
                };
                if self.context().block.transactions@.len() > 0 {
                    r matches Ok(ReplayStep::Execute(next)) && next.state() == start
                } else {
                    r matches Ok(ReplayStep::Finish(next)) && next.state() == start
                }
            },
    {
        proof {
            use_type_invariant(&self);
        }
        match reply {
            Err(text) => Err(StatelessValidationError::StatelessExecutionFailed(text)),
            Ok(()) => {
                let replay = Replay {
                    context: self.context,
                    executed: 0,
                    checkpoints: Vec::new(),
                    receipts: Ghost(Seq::empty()),
                };
                Ok(replay.proceed())
            },
        }
    }
}

/// Waits for a transaction to be executed.
pub struct TransactionExecution {
    replay: Replay,
}

impl TransactionExecution {
    /// How far the replay has come.
    pub closed spec fn state(self) -> ReplayView {
        self.replay.state()
    }

    #[verifier::type_invariant]
    spec fn well_formed(self) -> bool {
        &&& self.state().caught_up()
        &&& self.state().executed < self.state().context.block.transactions@.len()
    }

    /// What the validation is about.
    pub fn block_context(&self) -> (context: &BlockContext)
        ensures
            context@ == self.state().context,
    {
        &self.replay.context
    }

    /// The position of the transaction in the block.
    pub fn index(&self) -> (index: usize)
        ensures
            index == self.state().executed,
            index < self.state().context.block.transactions@.len(),
    {
        proof {
            use_type_invariant(self);
        }
        self.replay.executed
    }

    /// The index under which a block access list records the transaction, if one is
    /// built: its position, counted from one.
    pub fn access_list_index(&self) -> (index: Option<u128>)
        ensures
            self.state().recorded_under(index),
            match index {
                Some(i) => {
                    &&& self.state().context.block.sealed_header.header.block_access_list_hash
                        is Some
                    &&& i == self.state().executed + 1
                },
                None => self.state().context.block.sealed_header.header.block_access_list_hash
                    is None,
            },
    {
        self.replay.access_list_index()
    }

    /// Takes the outcome of the transaction: nothing, or the text of the failure.
    pub fn executed(self, reply: Result<(), String>) -> (r: Result<
        ReplayStep,
        StatelessValidationError,
    >)
        ensures
            self.state().caught_up(),
            match reply {
                Err(text) => r == Err::<ReplayStep, StatelessValidationError>(
                    StatelessValidationError::StatelessExecutionFailed(text),
                ),
                Ok(()) => {
                    let state = self.state().advanced();
                    &&& r matches Ok(step)
                    &&& if state.selected() {
                        step matches ReplayStep::DeriveRoot(next) && next.state() == state
                    } else {
                        step.proceeds(state)
                    }
                },
            },
            reply is Ok ==> {
                let before = self.state();
                let after = ReplayView {
                    context: before.context,
                    executed: before.executed + 1,
                    checkpoints: before.checkpoints,
                    receipts: before.receipts,
                };
                if before.context.transaction_indices.contains(before.executed as usize) {
                    r matches Ok(ReplayStep::DeriveRoot(next)) && next.state() == after
                } else if before.executed + 1 < before.context.block.transactions@.len() {
                    r matches Ok(ReplayStep::Execute(next)) && next.state() == after
                } else {
                    r matches Ok(ReplayStep::Finish(next)) && next.state() == after
                }
            },
    {
        proof {
            use_type_invariant(&self);
            law_replay_stops_at_the_selection(self.state());
        }
        match reply {
            Err(text) => Err(StatelessValidationError::StatelessExecutionFailed(text)),
            Ok(()) => {
                let mut replay = self.replay;
                let index: usize = replay.executed;
                let collected: usize = replay.checkpoints.len();
                let selection = replay.context.transaction_indices();
                let selected: bool = collected < selection.len() && selection[collected] == index;
                replay.executed = index + 1;
                if selected {
                    Ok(ReplayStep::DeriveRoot(CheckpointRoot { replay }))
                } else {
                    Ok(replay.proceed())
                }
            },
        }
    }
}

/// Waits for the state root after a selected transaction.
pub struct CheckpointRoot {
    replay: Replay,
}

impl CheckpointRoot {
    /// How far the replay has come.
    pub closed spec fn state(self) -> ReplayView {
        self.replay.state()
    }

    #[verifier::type_invariant]
    spec fn well_formed(self) -> bool {
        self.state().checkpoint_due()
    }

    /// What the validation is about.
    pub fn block_context(&self) -> (context: &BlockContext)
        ensures
            context@ == self.state().context,
    {
        &self.replay.context
    }

    /// The position of the transaction in the block.
    pub fn index(&self) -> (index: usize)
        ensures
            index == self.state().executed - 1,
            index < self.state().context.block.transactions@.len(),
    {
        proof {
            use_type_invariant(self);
        }
        self.replay.executed - 1
    }

    /// Takes the state root and the receipts so far, and seals the candidate block. The
    /// receipts must cover every transaction executed; of a root that could not be had, none
    /// are needed.
    pub fn derived(self, reply: Result<B256, StatelessTrieError>, receipts: &[Receipt]) -> (r: Result<
        ReplayStep,
        StatelessValidationError,
    >)
        requires
            reply is Ok ==> self.state().executed <= receipts@.len(),
        ensures
            match reply {
                Err(failure) => r == Err::<ReplayStep, StatelessValidationError>(
                    trie_failure(failure),
                ),
                Ok(root) => {
                    let settling = self.state().context.block.sealed_header.header@;
                    if reproducible(settling) {
                        r matches Ok(step) && step.proceeds(
                            self.state().stopped(root, receipt_views(receipts@)),
                        )
                    } else {
                        r matches Err(
                            StatelessValidationError::CandidateBlockUnsupportedField(field),
                        ) && field@ == refused_field(settling)
                    }
                },
            },
            reply matches Ok(root) ==> r is Ok ==> {
                let before = self.state();
                let block = before.context.block;
                let prefix = receipt_views(receipts@).take(before.executed);
                let after = ReplayView {
                    context: before.context,
                    executed: before.executed,
                    checkpoints: before.checkpoints.push(
                        TransactionStateCheckpoint {
                            transaction_index: (before.executed - 1) as usize,
                            state_root: root,
                            block_hash: header_hash(
                                candidate_header(
                                    block.sealed_header.header@,
                                    encodings(block.transactions@.take(before.executed)),
                                    prefix,
                                    root,
                                ),
                            ),
                        },
                    ),
                    receipts: before.receipts.push(prefix),
                };
                if before.executed < block.transactions@.len() {
                    r matches Ok(ReplayStep::Execute(next)) && next.state() == after
                } else {
                    r matches Ok(ReplayStep::Finish(next)) && next.state() == after
                }
            },
    {
        proof {
            use_type_invariant(&self);
        }
        let state_root: B256 = match reply {
            Ok(root) => root,
            Err(failure) => {
                return Err(StatelessValidationError::from(failure));
            },
        };
        let mut replay = self.replay;
        let executed: usize = replay.executed;
        let block = replay.context.block();
        let transactions = slice_subrange(block.transactions.as_slice(), 0, executed);
        let prefix = slice_subrange(receipts, 0, executed);
        assert(transactions@ =~= block.transactions@.take(executed as int));
        assert(receipt_views(prefix@) =~= receipt_views(receipts@).take(executed as int));
        let block_hash: B256 = match candidate_block_hash(
            &block.sealed_header,
            transactions,
            prefix,
            state_root,
        ) {
            Ok(hash) => hash,
            Err(e) => {
                return Err(e);
            },
        };
        let checkpoint = TransactionStateCheckpoint {
            transaction_index: executed - 1,
            state_root,
            block_hash,
        };
        replay.checkpoints.push(checkpoint);
        replay.receipts = Ghost(
            replay.receipts@.push(receipt_views(receipts@).take(executed as int)),
        );
        proof {
            lemma_stopped_is_caught_up(self.state(), state_root, receipt_views(receipts@));
        }
        assert(replay.state() == self.state().stopped(state_root, receipt_views(receipts@)));
        Ok(replay.proceed())
    }
}

/// Waits for the post-execution changes.
pub struct PostExecution {
    replay: Replay,
}

impl PostExecution {
    /// How far the replay has come.
    pub closed spec fn state(self) -> ReplayView {
        self.replay.state()
    }

    #[verifier::type_invariant]
    spec fn well_formed(self) -> bool {
        &&& self.state().caught_up()
        &&& self.state().executed == self.state().context.block.transactions@.len()
    }

    /// What the validation is about.
    pub fn block_context(&self) -> (context: &BlockContext)
        ensures
            context@ == self.state().context,
    {
        &self.replay.context
    }

    /// The index under which a block access list records the post-execution changes, if one is
    /// built: the one behind the last transaction's.
    pub fn access_list_index(&self) -> (index: Option<u128>)
        ensures
            self.state().recorded_under(index),
            match index {
                Some(i) => {
                    &&& self.state().context.block.sealed_header.header.block_access_list_hash
                        is Some
                    &&& i == self.state().executed + 1
                },
                None => self.state().context.block.sealed_header.header.block_access_list_hash
                    is None,
            },
    {
        self.replay.access_list_index()
    }

    /// Takes the outcome of the post-execution changes: what execution produced and the block
    /// access list, or the text of the failure. An access list over its limit ends the
    /// validation.
    pub fn applied<O>(self, reply: Result<(O, Option<Vec<AccountAccess>>), String>) -> (r: Result<
        PostExecutionCheck<O>,
        StatelessValidationError,
    >)
        ensures
            self.state().checkpoints.len() == self.state().context.transaction_indices.len(),
            self.state().executed == self.state().context.block.transactions@.len(),
            match reply {
                Err(text) => r == Err::<PostExecutionCheck<O>, StatelessValidationError>(
                    StatelessValidationError::StatelessExecutionFailed(text),
                ),
                Ok((output, list)) => {
                    let gas_limit = self.state().context.block.sealed_header.header.gas_limit;
                    if within_item_limit(gas_limit, entries(list)) {
                        r matches Ok(next) && next.executed() == (ExecutedView {
                            context: self.state().context,
                            output,
                            block_access_list: list,
                            checkpoints: self.state().checkpoints,
                            receipts: self.state().receipts,
                        })
                    } else {
                        r matches Err(e) && limit_exceeded(gas_limit, entries(list), e)
                    }
                },
            },
    {
        proof {
            use_type_invariant(&self);
            let state = self.state();
            if state.checkpoints.len() < state.context.transaction_indices.len() {
                let k = state.checkpoints.len() as int;
                assert(state.context.transaction_indices[k] >= state.executed);
            }
        }
        match reply {
            Err(text) => Err(StatelessValidationError::StatelessExecutionFailed(text)),
            Ok((output, list)) => {
                let Replay { context, executed: _, checkpoints, receipts } = self.replay;
                PostExecutionCheck::begin(context, output, list, checkpoints, receipts)
            },
        }
    }
}

/// A replay that has caught up has, in the order of the selection, one checkpoint for each
/// selected transaction that has been executed, and none for the others. Before the checkpoint
/// that is due has been collected, the transaction executed last is the only one that lacks it.
pub proof fn law_replay_has_the_checkpoints_of_what_it_executed(state: ReplayView)
    ensures
        state.caught_up() ==> {
            let indices = state.context.transaction_indices;
            &&& 0 <= state.executed <= state.context.block.transactions@.len()
            &&& state.checkpoints.len() <= indices.len()
            &&& forall|k: int|
                0 <= k < state.checkpoints.len() ==> (
                #[trigger] state.checkpoints[k]).transaction_index == indices[k] && indices[k]
                    < state.executed
            &&& forall|k: int|
                state.checkpoints.len() <= k < indices.len() ==> #[trigger] indices[k]
                    >= state.executed
        },
        state.checkpoint_due() ==> {
            let indices = state.context.transaction_indices;
            let due = state.checkpoints.len() as int;
            &&& 1 <= state.executed <= state.context.block.transactions@.len()
            &&& due < indices.len() && indices[due] == state.executed - 1
            &&& forall|k: int|
                0 <= k < due ==> (#[trigger] state.checkpoints[k]).transaction_index == indices[k]
                    && indices[k] < state.executed - 1
            &&& forall|k: int| due < k < indices.len() ==> #[trigger] indices[k] >= state.executed
        },
{
    let indices = state.context.transaction_indices;
    if state.checkpoint_due() {
        let due = state.checkpoints.len() as int;
        assert forall|k: int| 0 <= k < due implies (
        #[trigger] state.checkpoints[k]).transaction_index == indices[k] && indices[k]
            < state.executed - 1 by {
            assert(indices[k] < indices[due]);
        }
        assert forall|k: int| due < k < indices.len() implies #[trigger] indices[k]
            >= state.executed by {
            assert(indices[due] < indices[k]);
        }
    }
}

/// One more transaction moves a replay on by one and changes nothing else. A stop adds one
/// checkpoint behind the others, that of the transaction executed last, sealed over the
/// transactions and receipts up to and including it, and changes nothing else.
pub proof fn law_steps_of_a_replay(
    state: ReplayView,
    state_root: B256,
    receipts: Seq<ReceiptView>,
    index: Option<u128>,
)
    requires
        1 <= state.executed <= state.context.block.transactions@.len(),
        state.context.block.transactions@.len() <= usize::MAX,
    ensures
        state.advanced().executed == state.executed + 1,
        state.advanced().context == state.context,
        state.advanced().checkpoints == state.checkpoints,
        state.advanced().receipts == state.receipts,
        ({
            let next = state.stopped(state_root, receipts);
            let block = state.context.block;
            let added = next.checkpoints.last();
            &&& next.executed == state.executed
            &&& next.context == state.context
            &&& next.checkpoints.drop_last() == state.checkpoints
            &&& next.receipts == state.receipts.push(receipts.take(state.executed))
            &&& added == state.checkpoint(state_root, receipts)
            &&& added.transaction_index == state.executed - 1
            &&& added.state_root == state_root
            &&& added.block_hash == header_hash(
                candidate_header(
                    block.sealed_header.header@,
                    encodings(block.transactions@.take(state.executed)),
                    receipts.take(state.executed),
                    state_root,
                ),
            )
        }),
        state.selected() <==> {
            let due = state.checkpoints.len() as int;
            &&& due < state.context.transaction_indices.len()
            &&& state.context.transaction_indices[due] == state.executed - 1
        },
        state.recorded_under(index) <==> match index {
            Some(i) => {
                &&& state.context.block.sealed_header.header.block_access_list_hash is Some
                &&& i == state.executed + 1
            },
            None => state.context.block.sealed_header.header.block_access_list_hash is None,
        },
{
    let next = state.stopped(state_root, receipts);
    assert(next.checkpoints.drop_last() =~= state.checkpoints);
}

/// A replay asks for the next transaction while there is one, and then for the post-execution
/// changes; what it asks carries the state as it is.
pub proof fn law_replay_goes_on_to_the_end(step: ReplayStep, state: ReplayView)
    requires
        step.proceeds(state),
    ensures
        match step {
            ReplayStep::Execute(next) => next.state() == state && state.executed
                < state.context.block.transactions@.len(),
            ReplayStep::DeriveRoot(_) => false,
            ReplayStep::Finish(next) => next.state() == state && state.executed
                >= state.context.block.transactions@.len(),
        },
{
}

} // verus!
