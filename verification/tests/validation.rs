use alloy_consensus::proofs::{calculate_receipt_root, calculate_transaction_root};
use alloy_consensus::{EthereumTxEnvelope, EthereumTypedTransaction, TxEip4844, TxLegacy, TxReceipt};
use alloy_eips::Encodable2718;
use alloy_primitives::Signature;
use stateless::access_list::AccountAccess;
use stateless::block::{ExecutionWitness, RecoveredBlock, Transaction};
use stateless::candidate::candidate_block_hash;
use stateless::checkpoints::TransactionStateCheckpoint;
use stateless::error::{ConsensusError, StatelessTrieError, StatelessValidationError};
use stateless::header::{Header, SealedHeader};
use stateless::output::{PostExecutionCheck, StatelessValidationOutput};
use stateless::primitives::{Address, Bloom, B256, B64, U256};
use stateless::receipt::{EthereumReceipt, Receipt, TxType};
use stateless::replay::{PreExecution, ReplayStep};
use stateless::validation::{
    stateless_validation_recovered_with_trie,
    stateless_validation_recovered_with_trie_and_state_checkpoints,
    stateless_validation_with_trie, ConsensusCheck, ConsensusRule, ConsensusStep, ExecutionStep,
    TrieConstruction, WholeExecution,
};

type Signed = EthereumTxEnvelope<TxEip4844>;

const PRE_ROOT: u8 = 0x41;
const POST_ROOT: u8 = 0x42;

fn hash(byte: u8) -> B256 {
    B256([byte; 32])
}

fn tx(nonce: u64) -> Signed {
    Signed::new_unhashed(
        EthereumTypedTransaction::Legacy(TxLegacy { nonce, ..Default::default() }),
        Signature::new(alloy_primitives::U256::from(1), alloy_primitives::U256::from(1), false),
    )
}

fn outside_receipts(count: u64) -> Vec<alloy_consensus::EthereumReceipt> {
    (1..=count)
        .map(|i| alloy_consensus::EthereumReceipt {
            tx_type: alloy_consensus::TxType::Legacy,
            success: true,
            cumulative_gas_used: 21_000 * i,
            logs: Vec::new(),
        })
        .collect()
}

fn receipts(count: u64) -> Vec<Receipt> {
    (1..=count)
        .map(|i| {
            EthereumReceipt {
                tx_type: TxType::Legacy,
                success: true,
                cumulative_gas_used: 21_000 * i,
                logs: Vec::new(),
            }
            .into_receipt()
        })
        .collect()
}

fn witness() -> (ExecutionWitness, alloy_primitives::B256) {
    let grandparent = alloy_rlp::encode(&alloy_consensus::Header { number: 6, ..Default::default() });
    let parent = alloy_rlp::encode(&alloy_consensus::Header {
        number: 7,
        parent_hash: alloy_primitives::keccak256(&grandparent),
        state_root: alloy_primitives::B256::repeat_byte(PRE_ROOT),
        ..Default::default()
    });
    let parent_hash = alloy_primitives::keccak256(&parent);
    (ExecutionWitness { headers: vec![grandparent, parent] }, parent_hash)
}

/// A block of `count` transactions on top of the witness, with every commitment in place.
fn block(count: u64) -> RecoveredBlock {
    let transactions: Vec<Signed> = (0..count).map(tx).collect();
    let receipts = outside_receipts(count);
    let with_bloom: Vec<_> = receipts.iter().map(TxReceipt::with_bloom_ref).collect();
    let header = Header {
        parent_hash: B256(witness().1 .0),
        ommers_hash: hash(1),
        beneficiary: Address([2; 20]),
        state_root: hash(POST_ROOT),
        transactions_root: B256(calculate_transaction_root(&transactions).0),
        receipts_root: B256(calculate_receipt_root(&with_bloom).0),
        logs_bloom: Bloom([0; 256]),
        difficulty: U256([0; 32]),
        number: 8,
        gas_limit: 30_000_000,
        gas_used: 21_000 * count,
        timestamp: 9,
        extra_data: vec![10],
        mix_hash: hash(11),
        nonce: B64([0; 8]),
        base_fee_per_gas: Some(12),
        withdrawals_root: None,
        blob_gas_used: None,
        excess_blob_gas: None,
        parent_beacon_block_root: None,
        requests_hash: None,
        block_access_list_hash: None,
        slot_number: None,
    };
    RecoveredBlock {
        sealed_header: SealedHeader::seal_slow(header),
        transactions: transactions
            .iter()
            .map(|tx| Transaction { encoded: tx.encoded_2718() })
            .collect(),
    }
}

fn objection() -> ConsensusError {
    ConsensusError { message: "gas limit".to_string() }
}

/// Answers every rule in the affirmative, and checks the order in which they are asked.
fn keep_rules(check: ConsensusCheck) -> TrieConstruction {
    assert_eq!(check.rule(), ConsensusRule::Header);
    let check = match check.answered(Ok(())) {
        Ok(ConsensusStep::Check(next)) => next,
        _ => panic!("the parent comes next"),
    };
    assert_eq!(check.rule(), ConsensusRule::AgainstParent);
    let check = match check.answered(Ok(())) {
        Ok(ConsensusStep::Check(next)) => next,
        _ => panic!("the body comes next"),
    };
    assert_eq!(check.rule(), ConsensusRule::PreExecution);
    match check.answered(Ok(())) {
        Ok(ConsensusStep::BuildTrie(next)) => next,
        _ => panic!("the trie comes next"),
    }
}

fn whole(block: RecoveredBlock) -> WholeExecution {
    let check = match stateless_validation_recovered_with_trie(block, &witness().0) {
        Ok(check) => check,
        Err(e) => panic!("{e:?}"),
    };
    match keep_rules(check).built(Ok(())) {
        Ok(ExecutionStep::Whole(next)) => next,
        _ => panic!("the block is executed as a whole"),
    }
}

fn replay(block: RecoveredBlock, indices: &[usize]) -> PreExecution {
    let check = match stateless_validation_recovered_with_trie_and_state_checkpoints(
        block,
        &witness().0,
        indices,
    ) {
        Ok(check) => check,
        Err(e) => panic!("{e:?}"),
    };
    let setup = match keep_rules(check).built(Ok(())) {
        Ok(ExecutionStep::Replay(next)) => next,
        _ => panic!("the block is replayed"),
    };
    match setup.created(Ok(())) {
        Ok(next) => next,
        Err(e) => panic!("{e:?}"),
    }
}

fn first_step(block: RecoveredBlock, indices: &[usize]) -> ReplayStep {
    match replay(block, indices).applied(Ok(())) {
        Ok(step) => step,
        Err(e) => panic!("{e:?}"),
    }
}

/// Runs a replay in which the state root after transaction `i` is `roots[i]`.
fn run(
    block: RecoveredBlock,
    indices: &[usize],
    roots: &[u8],
) -> Result<PostExecutionCheck<u32>, StatelessValidationError> {
    let all = receipts(block.transactions.len() as u64);
    let mut step = first_step(block, indices);
    let mut executed = 0;
    loop {
        step = match step {
            ReplayStep::Execute(stage) => {
                assert_eq!(stage.index(), executed);
                executed += 1;
                stage.executed(Ok(()))?
            }
            ReplayStep::DeriveRoot(stage) => {
                assert_eq!(stage.index() + 1, executed);
                let root = hash(roots[stage.index()]);
                stage.derived(Ok(root), &all[..executed])?
            }
            ReplayStep::Finish(stage) => {
                assert_eq!(executed, all.len());
                return stage.applied(Ok((77, None)));
            }
        };
    }
}

#[test]
fn a_block_executed_as_a_whole_is_accepted() {
    let block = block(2);
    let block_hash = block.sealed_header.hash;
    let check = match whole(block).executed(Ok(("output", None))) {
        Ok(next) => next,
        Err(e) => panic!("{e:?}"),
    };
    assert_eq!(*check.output(), "output");
    assert_eq!(check.block_access_list_hash(), None);
    let root = match check.answered(Ok(())) {
        Ok(next) => next,
        Err(e) => panic!("{e:?}"),
    };
    let accepted = root.computed(Ok(hash(POST_ROOT))).unwrap();
    assert_eq!(
        accepted.validation,
        StatelessValidationOutput {
            block_hash,
            pre_state_root: hash(PRE_ROOT),
            post_state_root: hash(POST_ROOT),
            execution_output: "output",
            block_access_list: None,
        },
    );
    assert!(accepted.checkpoints.transaction_state_checkpoints.is_empty());
}

#[test]
fn a_stage_shows_what_it_is_about() {
    let stage = whole(block(1));
    let context = stage.block_context();
    assert_eq!(context.pre_state_root(), hash(PRE_ROOT));
    assert_eq!(context.parent().header.number, 7);
    assert_eq!(context.parent().header.state_root, hash(PRE_ROOT));
    assert_eq!(context.parent().hash, B256(witness().1 .0));
    assert_eq!(context.block().sealed_header.header.number, 8);
    assert_eq!(context.ancestor_hashes().len(), 2);
    assert_eq!(context.ancestor_hashes().get(&7), Some(&B256(witness().1 .0)));
    assert!(!context.tracks_access_list());
    assert!(!context.replayed());
    assert!(context.transaction_indices().is_empty());

    let mut with_list = block(1);
    with_list.sealed_header.header.block_access_list_hash = Some(hash(5));
    let stage = replay(with_list, &[0]);
    assert!(stage.block_context().tracks_access_list());
    assert!(stage.block_context().replayed());
    assert_eq!(stage.block_context().transaction_indices(), &vec![0]);
}

#[test]
fn recovery_comes_first() {
    assert!(matches!(
        stateless_validation_with_trie(
            Err(StatelessValidationError::SignerRecovery),
            &ExecutionWitness { headers: Vec::new() },
        ),
        Err(StatelessValidationError::SignerRecovery)
    ));
    assert!(matches!(
        stateless_validation_with_trie(
            Err(StatelessValidationError::HomesteadSignatureNotNormalized),
            &witness().0,
        ),
        Err(StatelessValidationError::HomesteadSignatureNotNormalized)
    ));
    assert!(matches!(
        stateless_validation_with_trie(
            Err(StatelessValidationError::Custom("keys")),
            &witness().0,
        ),
        Err(StatelessValidationError::Custom("keys"))
    ));
    assert!(matches!(
        stateless_validation_with_trie(
            Ok(block(0)),
            &ExecutionWitness { headers: Vec::new() },
        ),
        Err(StatelessValidationError::MissingAncestorHeader)
    ));
    assert!(stateless_validation_with_trie(Ok(block(0)), &witness().0).is_ok());
}

#[test]
fn the_selection_is_settled_before_the_witness() {
    let nothing = ExecutionWitness { headers: Vec::new() };
    assert!(matches!(
        stateless_validation_recovered_with_trie_and_state_checkpoints(
            block(3),
            &nothing,
            &[2, 1],
        ),
        Err(StatelessValidationError::UnorderedTransactionCheckpoints { previous: 2, current: 1 })
    ));
    assert!(matches!(
        stateless_validation_recovered_with_trie_and_state_checkpoints(block(3), &nothing, &[3]),
        Err(StatelessValidationError::TransactionCheckpointOutOfBounds {
            index: 3,
            transactions: 3,
        })
    ));
    assert!(matches!(
        stateless_validation_recovered_with_trie_and_state_checkpoints(block(3), &nothing, &[2]),
        Err(StatelessValidationError::MissingAncestorHeader)
    ));
    assert!(matches!(
        stateless_validation_recovered_with_trie(block(3), &nothing),
        Err(StatelessValidationError::MissingAncestorHeader)
    ));
}

#[test]
fn an_objection_ends_the_validation_at_every_rule() {
    for kept in 0..3 {
        let mut check = match stateless_validation_recovered_with_trie(block(1), &witness().0) {
            Ok(check) => check,
            Err(e) => panic!("{e:?}"),
        };
        for _ in 0..kept {
            check = match check.answered(Ok(())) {
                Ok(ConsensusStep::Check(next)) => next,
                _ => panic!("another rule comes next"),
            };
        }
        assert!(matches!(
            check.answered(Err(objection())),
            Err(StatelessValidationError::ConsensusValidationFailed(e)) if e == objection()
        ));
    }
    let check = whole(block(1)).executed(Ok(((), None))).ok().unwrap();
    assert!(matches!(
        check.answered(Err(objection())),
        Err(StatelessValidationError::ConsensusValidationFailed(e)) if e == objection()
    ));
}

#[test]
fn a_trie_that_cannot_be_built_ends_the_validation() {
    let check = stateless_validation_recovered_with_trie(block(1), &witness().0).ok().unwrap();
    assert!(matches!(
        keep_rules(check).built(Err(StatelessTrieError::PreStateRootMismatch {
            got: hash(1),
            expected: hash(2),
        })),
        Err(StatelessValidationError::PreStateRootMismatch { got, expected })
            if got == hash(1) && expected == hash(2)
    ));
}

#[test]
fn failed_execution_is_reported_in_its_own_words() {
    let failed = || "out of gas".to_string();
    let expected =
        |e: Option<StatelessValidationError>| e
            == Some(StatelessValidationError::StatelessExecutionFailed(failed()));
    assert!(expected(whole(block(1)).executed::<()>(Err(failed())).err()));

    let check = stateless_validation_recovered_with_trie_and_state_checkpoints(
        block(1),
        &witness().0,
        &[],
    )
    .ok()
    .unwrap();
    match keep_rules(check).built(Ok(())) {
        Ok(ExecutionStep::Replay(setup)) => assert!(expected(setup.created(Err(failed())).err())),
        _ => panic!("the block is replayed"),
    }
    assert!(expected(replay(block(1), &[]).applied(Err(failed())).err()));
    match first_step(block(1), &[]) {
        ReplayStep::Execute(stage) => assert!(expected(stage.executed(Err(failed())).err())),
        _ => panic!("the transaction comes first"),
    }
    match first_step(block(0), &[]) {
        ReplayStep::Finish(stage) => assert!(expected(stage.applied::<()>(Err(failed())).err())),
        _ => panic!("there is no transaction"),
    }
}

#[test]
fn an_access_list_over_its_limit_ends_the_validation() {
    let entry = AccountAccess {
        address: Address([1; 20]),
        storage_changes: Vec::new(),
        storage_reads: Vec::new(),
        balance_changes: Vec::new(),
        nonce_changes: Vec::new(),
        code_changes: Vec::new(),
    };
    let tight = || {
        let mut tight = block(0);
        tight.sealed_header.header.gas_limit = 3_999;
        tight
    };
    let over = Some(vec![entry.clone(), entry.clone()]);
    let error = StatelessValidationError::BlockAccessListGasLimitExceeded { items: 2, limit: 1 };
    assert_eq!(whole(tight()).executed(Ok(((), over.clone()))).err(), Some(error.clone()));
    match first_step(tight(), &[]) {
        ReplayStep::Finish(stage) => {
            assert_eq!(stage.applied(Ok(((), over))).err(), Some(error));
        }
        _ => panic!("there is no transaction"),
    }

    let kept = Some(vec![entry]);
    let check = whole(tight()).executed(Ok(((), kept.clone()))).ok().unwrap();
    assert!(check.block_access_list_hash().is_some());
    let accepted =
        check.answered(Ok(())).ok().unwrap().computed(Ok(hash(POST_ROOT))).unwrap();
    assert_eq!(accepted.validation.block_access_list, kept);
}

#[test]
fn the_state_root_must_be_the_one_in_the_header() {
    let root = || whole(block(1)).executed(Ok(((), None))).ok().unwrap().answered(Ok(())).ok();
    assert_eq!(
        root().unwrap().computed(Ok(hash(0x13))).err(),
        Some(StatelessValidationError::PostStateRootMismatch {
            got: hash(0x13),
            expected: hash(POST_ROOT),
        }),
    );
    assert_eq!(
        root()
            .unwrap()
            .computed(Err(StatelessTrieError::StatelessStateRootCalculationFailed))
            .err(),
        Some(StatelessValidationError::StatelessStateRootCalculationFailed),
    );
}

#[test]
fn checkpoints_answer_the_selection() {
    let settling = block(4);
    let all = receipts(4);
    let check = run(settling.clone(), &[0, 2], &[1, 2, 3, 4]).ok().unwrap();
    assert_eq!(*check.output(), 77);
    let accepted =
        check.answered(Ok(())).ok().unwrap().computed(Ok(hash(POST_ROOT))).unwrap();
    let seal = |index: usize, root: u8| TransactionStateCheckpoint {
        transaction_index: index,
        state_root: hash(root),
        block_hash: candidate_block_hash(
            &settling.sealed_header,
            &settling.transactions[..=index],
            &all[..=index],
            hash(root),
        )
        .unwrap(),
    };
    assert_eq!(
        accepted.checkpoints.transaction_state_checkpoints,
        vec![seal(0, 1), seal(2, 3)],
    );
    assert_eq!(accepted.validation.execution_output, 77);
    assert_eq!(accepted.validation.block_hash, settling.sealed_header.hash);
}

#[test]
fn every_transaction_can_be_a_checkpoint() {
    let check = run(block(3), &[0, 1, 2], &[1, 2, POST_ROOT]).ok().unwrap();
    let accepted =
        check.answered(Ok(())).ok().unwrap().computed(Ok(hash(POST_ROOT))).unwrap();
    let checkpoints = accepted.checkpoints.transaction_state_checkpoints;
    let positions: Vec<usize> = checkpoints.iter().map(|c| c.transaction_index).collect();
    assert_eq!(positions, vec![0, 1, 2]);
    // To hold the last candidate is to hold the block.
    assert_eq!(checkpoints[2].block_hash, accepted.validation.block_hash);
    assert_ne!(checkpoints[1].block_hash, accepted.validation.block_hash);
}

#[test]
fn an_empty_selection_gives_no_checkpoints() {
    for count in [0, 1, 5] {
        let check = run(block(count), &[], &[]).ok().unwrap();
        let accepted =
            check.answered(Ok(())).ok().unwrap().computed(Ok(hash(POST_ROOT))).unwrap();
        assert!(accepted.checkpoints.transaction_state_checkpoints.is_empty());
    }
}

#[test]
fn the_last_checkpoint_must_have_the_root_of_the_block() {
    let root = run(block(2), &[1], &[1, 0x50]).ok().unwrap().answered(Ok(())).ok().unwrap();
    assert_eq!(
        root.computed(Ok(hash(POST_ROOT))).err(),
        Some(StatelessValidationError::PostExecutionChangesNotStateNeutral {
            checkpoint: hash(0x50),
            block: hash(POST_ROOT),
        }),
    );
    // An earlier checkpoint may have any root.
    let root = run(block(2), &[0], &[0x50, 1]).ok().unwrap().answered(Ok(())).ok().unwrap();
    assert!(root.computed(Ok(hash(POST_ROOT))).is_ok());
    // The state root of the block is looked at first.
    let root = run(block(2), &[1], &[1, 0x50]).ok().unwrap().answered(Ok(())).ok().unwrap();
    assert_eq!(
        root.computed(Ok(hash(0x51))).err(),
        Some(StatelessValidationError::PostStateRootMismatch {
            got: hash(0x51),
            expected: hash(POST_ROOT),
        }),
    );
}

#[test]
fn a_checkpoint_of_a_block_that_cannot_be_reproduced_is_refused() {
    let mut with_list = block(2);
    with_list.sealed_header.header.block_access_list_hash = Some(hash(1));
    assert_eq!(
        run(with_list.clone(), &[0], &[1, 2]).err(),
        Some(StatelessValidationError::CandidateBlockUnsupportedField("block access list")),
    );
    // Without a checkpoint there is nothing to refuse.
    assert!(run(with_list, &[], &[]).is_ok());
}

#[test]
fn a_checkpoint_root_that_cannot_be_had_ends_the_validation() {
    let stage = match first_step(block(1), &[0]) {
        ReplayStep::Execute(stage) => stage,
        _ => panic!("the transaction comes first"),
    };
    let stage = match stage.executed(Ok(())) {
        Ok(ReplayStep::DeriveRoot(stage)) => stage,
        _ => panic!("its root comes next"),
    };
    assert_eq!(
        stage
            .derived(
                Err(StatelessTrieError::WitnessRevealFailed { pre_state_root: hash(9) }),
                &[],
            )
            .err(),
        Some(StatelessValidationError::WitnessRevealFailed { pre_state_root: hash(9) }),
    );
}

#[test]
fn checkpoints_leave_the_validation_as_it_is() {
    let conclude = |check: PostExecutionCheck<u32>| {
        check.answered(Ok(())).ok().unwrap().computed(Ok(hash(POST_ROOT))).unwrap()
    };
    let ordinary = conclude(whole(block(3)).executed(Ok((77, None))).ok().unwrap());
    let selections: [&[usize]; 3] = [&[], &[1], &[0, 2]];
    for indices in selections {
        let replayed = conclude(run(block(3), indices, &[1, 2, POST_ROOT]).ok().unwrap());
        assert_eq!(replayed.validation, ordinary.validation);
        assert_eq!(replayed.checkpoints.transaction_state_checkpoints.len(), indices.len());
    }
}

#[test]
fn a_replay_stops_at_the_selection() {
    let all = receipts(5);
    let mut step = first_step(block(5), &[1, 2, 4]);
    let mut course = Vec::new();
    loop {
        step = match step {
            ReplayStep::Execute(stage) => {
                course.push(format!("execute {}", stage.index()));
                stage.executed(Ok(())).ok().unwrap()
            }
            ReplayStep::DeriveRoot(stage) => {
                course.push(format!("root {}", stage.index()));
                stage.derived(Ok(hash(1)), &all).ok().unwrap()
            }
            ReplayStep::Finish(_) => break,
        };
    }
    assert_eq!(
        course,
        vec![
            "execute 0", "execute 1", "root 1", "execute 2", "root 2", "execute 3", "execute 4",
            "root 4",
        ],
    );
}

#[test]
fn each_step_is_recorded_under_its_own_index() {
    let course = |block: RecoveredBlock| {
        let stage = replay(block, &[]);
        let mut recorded = vec![stage.access_list_index()];
        let mut step = stage.applied(Ok(())).ok().unwrap();
        loop {
            step = match step {
                ReplayStep::Execute(stage) => {
                    recorded.push(stage.access_list_index());
                    stage.executed(Ok(())).ok().unwrap()
                }
                ReplayStep::DeriveRoot(_) => panic!("nothing is selected"),
                ReplayStep::Finish(stage) => {
                    recorded.push(stage.access_list_index());
                    return recorded;
                }
            };
        }
    };
    let mut with_list = block(3);
    with_list.sealed_header.header.block_access_list_hash = Some(hash(5));
    assert_eq!(course(with_list), vec![Some(0), Some(1), Some(2), Some(3), Some(4)]);
    assert_eq!(course(block(2)), vec![None, None, None, None]);
    let mut empty = block(0);
    empty.sealed_header.header.block_access_list_hash = Some(hash(5));
    assert_eq!(course(empty), vec![Some(0), Some(1)]);
}

#[test]
fn selections_do_not_interfere() {
    let roots = [1, 2, 3, POST_ROOT];
    let conclude = |indices: &[usize]| {
        let check = run(block(4), indices, &roots).ok().unwrap();
        check.answered(Ok(())).ok().unwrap().computed(Ok(hash(POST_ROOT))).unwrap()
    };
    let a = conclude(&[0, 1, 3]);
    let b = conclude(&[1, 2, 3]);
    assert_eq!(a.validation, b.validation);
    let a = a.checkpoints.transaction_state_checkpoints;
    let b = b.checkpoints.transaction_state_checkpoints;
    assert_eq!(a[1], b[0]);
    assert_eq!(a[2], b[2]);
    assert_ne!(a[0], b[1]);
}
