use alloy_consensus::proofs::{calculate_receipt_root, calculate_transaction_root};
use alloy_consensus::{EthereumTxEnvelope, EthereumTypedTransaction, TxEip4844, TxLegacy, TxReceipt};
use alloy_eips::eip7685::EMPTY_REQUESTS_HASH;
use alloy_eips::Encodable2718;
use alloy_primitives::Signature;
use stateless::block::Transaction;
use stateless::candidate::{
    build_candidate_header, candidate_block_hash, refuse_unreproducible, PrefixCommitments,
};
use stateless::error::StatelessValidationError;
use stateless::header::{Header, SealedHeader};
use stateless::primitives::{Address, Bloom, B256, B64, U256};
use stateless::receipt::{EthereumReceipt, Log, Receipt, TxType};

type Signed = EthereumTxEnvelope<TxEip4844>;

fn plain(header: &alloy_consensus::Header) -> Header {
    Header {
        parent_hash: B256(header.parent_hash.0),
        ommers_hash: B256(header.ommers_hash.0),
        beneficiary: Address(header.beneficiary.into_array()),
        state_root: B256(header.state_root.0),
        transactions_root: B256(header.transactions_root.0),
        receipts_root: B256(header.receipts_root.0),
        logs_bloom: Bloom(header.logs_bloom.0 .0),
        difficulty: U256(header.difficulty.to_be_bytes()),
        number: header.number,
        gas_limit: header.gas_limit,
        gas_used: header.gas_used,
        timestamp: header.timestamp,
        extra_data: header.extra_data.to_vec(),
        mix_hash: B256(header.mix_hash.0),
        nonce: B64(header.nonce.0),
        base_fee_per_gas: header.base_fee_per_gas,
        withdrawals_root: header.withdrawals_root.map(|root| B256(root.0)),
        blob_gas_used: header.blob_gas_used,
        excess_blob_gas: header.excess_blob_gas,
        parent_beacon_block_root: header.parent_beacon_block_root.map(|root| B256(root.0)),
        requests_hash: header.requests_hash.map(|hash| B256(hash.0)),
        block_access_list_hash: header.block_access_list_hash.map(|hash| B256(hash.0)),
        slot_number: header.slot_number,
    }
}

fn sealed(header: alloy_consensus::Header) -> SealedHeader {
    SealedHeader::seal_slow(plain(&header))
}

fn tx(nonce: u64) -> Signed {
    Signed::new_unhashed(
        EthereumTypedTransaction::Legacy(TxLegacy { nonce, ..Default::default() }),
        Signature::new(alloy_primitives::U256::from(1), alloy_primitives::U256::from(1), false),
    )
}

fn encoded(tx: &Signed) -> Transaction {
    Transaction { encoded: tx.encoded_2718() }
}

fn logging_receipt(cumulative_gas_used: u64, logs: Vec<Log>) -> EthereumReceipt {
    EthereumReceipt { tx_type: TxType::Legacy, success: true, cumulative_gas_used, logs }
}

fn receipt(cumulative_gas_used: u64) -> Receipt {
    logging_receipt(cumulative_gas_used, Vec::new()).into_receipt()
}

fn outside_receipt(
    tx_type: alloy_consensus::TxType,
    cumulative_gas_used: u64,
    logs: Vec<alloy_primitives::Log>,
) -> alloy_consensus::EthereumReceipt {
    alloy_consensus::EthereumReceipt { tx_type, success: true, cumulative_gas_used, logs }
}

/// A header in which no field has its default value, but for the three that are refused.
fn distinctive() -> alloy_consensus::Header {
    alloy_consensus::Header {
        parent_hash: alloy_primitives::B256::repeat_byte(0x01),
        ommers_hash: alloy_primitives::B256::repeat_byte(0x02),
        beneficiary: alloy_primitives::Address::repeat_byte(0x03),
        state_root: alloy_primitives::B256::repeat_byte(0x04),
        transactions_root: alloy_primitives::B256::repeat_byte(0x05),
        receipts_root: alloy_primitives::B256::repeat_byte(0x06),
        logs_bloom: alloy_primitives::Bloom::repeat_byte(0x07),
        difficulty: alloy_primitives::U256::from(0x0102_0304_0506u64),
        number: 9,
        gas_limit: 30_000_000,
        gas_used: 11,
        timestamp: 12,
        extra_data: vec![0x0d, 0x0e].into(),
        mix_hash: alloy_primitives::B256::repeat_byte(0x0f),
        nonce: alloy_primitives::B64::repeat_byte(0x10),
        base_fee_per_gas: Some(17),
        withdrawals_root: Some(alloy_primitives::B256::repeat_byte(0x12)),
        blob_gas_used: Some(0),
        excess_blob_gas: Some(19),
        parent_beacon_block_root: Some(alloy_primitives::B256::repeat_byte(0x14)),
        requests_hash: Some(EMPTY_REQUESTS_HASH),
        block_access_list_hash: None,
        slot_number: Some(21),
    }
}

/// Vary one prefix-varying input at a time; an inherited field would tie.
#[test]
fn every_prefix_varying_field_changes_the_candidate() {
    let settling = sealed(alloy_consensus::Header::default());
    let txs = [encoded(&tx(0)), encoded(&tx(1))];
    let receipts = [receipt(21_000), receipt(42_000)];
    let root = B256([0xab; 32]);

    let base = candidate_block_hash(&settling, &txs[..1], &receipts[..1], root).unwrap();

    // transactions_root
    assert_ne!(
        base,
        candidate_block_hash(&settling, &txs[..2], &receipts[..1], root).unwrap(),
        "a longer transaction prefix must seal a different candidate",
    );
    // receipts_root, logs_bloom and gas_used all move together here
    assert_ne!(
        base,
        candidate_block_hash(&settling, &txs[..1], &receipts[..2], root).unwrap(),
        "a longer receipt prefix must seal a different candidate",
    );
    // state_root
    assert_ne!(
        base,
        candidate_block_hash(&settling, &txs[..1], &receipts[..1], B256([0xcd; 32])).unwrap(),
        "a different state root must seal a different candidate",
    );
}

/// Inequality between calls misses a uniformly wrong field, so pin the header.
#[test]
fn the_candidate_header_is_exactly_this() {
    let settling = sealed(alloy_consensus::Header {
        // Unequal to the prefix's values, so inheriting shows up.
        gas_used: 999_999,
        transactions_root: alloy_primitives::B256::repeat_byte(0xf1),
        receipts_root: alloy_primitives::B256::repeat_byte(0xf2),
        logs_bloom: alloy_primitives::Bloom::repeat_byte(0xf3),
        number: 7,
        gas_limit: 30_000_000,
        timestamp: 1_234,
        ..Default::default()
    });
    let txs = [tx(0)];
    // A real log: with none, the computed bloom equals a default header's.
    let receipts = [outside_receipt(
        alloy_consensus::TxType::Legacy,
        21_000,
        vec![alloy_primitives::Log::new_unchecked(
            alloy_primitives::Address::repeat_byte(0x42),
            vec![alloy_primitives::B256::repeat_byte(0x01)],
            Default::default(),
        )],
    )];
    let root = alloy_primitives::B256::repeat_byte(0xab);

    let expected = alloy_consensus::Header {
        state_root: root,
        transactions_root: calculate_transaction_root(&txs),
        receipts_root: calculate_receipt_root(
            &receipts.iter().map(TxReceipt::with_bloom_ref).collect::<Vec<_>>(),
        ),
        logs_bloom: reth_primitives_traits::logs_bloom(receipts.iter().flat_map(TxReceipt::logs)),
        gas_used: 21_000,
        number: 7,
        gas_limit: 30_000_000,
        timestamp: 1_234,
        ..Default::default()
    };

    let plain_receipts = [logging_receipt(
        21_000,
        vec![Log {
            address: Address([0x42; 20]),
            topics: vec![B256([0x01; 32])],
            data: Vec::new(),
        }],
    )
    .into_receipt()];
    assert_eq!(
        candidate_block_hash(&settling, &[encoded(&txs[0])], &plain_receipts, B256(root.0))
            .unwrap(),
        B256(expected.hash_slow().0),
    );
}

/// Fields a prefix cannot reproduce are refused, not inherited.
#[test]
fn unreproducible_fields_are_refused() {
    let zero = B256([0; 32]);
    let with_bal = sealed(alloy_consensus::Header {
        block_access_list_hash: Some(alloy_primitives::B256::repeat_byte(0x11)),
        ..Default::default()
    });
    assert!(matches!(
        candidate_block_hash(&with_bal, &[], &[], zero),
        Err(StatelessValidationError::CandidateBlockUnsupportedField("block access list")),
    ));

    let with_requests = sealed(alloy_consensus::Header {
        requests_hash: Some(alloy_primitives::B256::repeat_byte(0x22)),
        ..Default::default()
    });
    assert!(matches!(
        candidate_block_hash(&with_requests, &[], &[], zero),
        Err(StatelessValidationError::CandidateBlockUnsupportedField("execution requests")),
    ));

    let with_blobs =
        sealed(alloy_consensus::Header { blob_gas_used: Some(131_072), ..Default::default() });
    assert!(matches!(
        candidate_block_hash(&with_blobs, &[], &[], zero),
        Err(StatelessValidationError::CandidateBlockUnsupportedField("blob transactions")),
    ));

    // Cancun without blob transactions is the ordinary case and must pass.
    let cancun = sealed(alloy_consensus::Header { blob_gas_used: Some(0), ..Default::default() });
    assert!(candidate_block_hash(&cancun, &[], &[], zero).is_ok());
}

#[test]
fn the_first_refused_field_is_the_one_named() {
    let mut header = plain(&distinctive());
    assert!(refuse_unreproducible(&header).is_ok());
    header.blob_gas_used = Some(1);
    assert_eq!(
        refuse_unreproducible(&header),
        Err(StatelessValidationError::CandidateBlockUnsupportedField("blob transactions")),
    );
    header.requests_hash = Some(B256([0x22; 32]));
    assert_eq!(
        refuse_unreproducible(&header),
        Err(StatelessValidationError::CandidateBlockUnsupportedField("execution requests")),
    );
    header.block_access_list_hash = Some(B256([0x11; 32]));
    assert_eq!(
        refuse_unreproducible(&header),
        Err(StatelessValidationError::CandidateBlockUnsupportedField("block access list")),
    );
}

#[test]
fn the_empty_requests_hash_is_not_refused() {
    let empty = sealed(alloy_consensus::Header {
        requests_hash: Some(EMPTY_REQUESTS_HASH),
        ..Default::default()
    });
    assert!(candidate_block_hash(&empty, &[], &[], B256([0; 32])).is_ok());
}

#[test]
fn every_header_field_reaches_the_hash() {
    let header = distinctive();
    assert_eq!(plain(&header).hash_slow(), B256(header.hash_slow().0));
    let full = alloy_consensus::Header {
        blob_gas_used: Some(18),
        block_access_list_hash: Some(alloy_primitives::B256::repeat_byte(0x16)),
        requests_hash: Some(alloy_primitives::B256::repeat_byte(0x17)),
        ..header
    };
    assert_eq!(plain(&full).hash_slow(), B256(full.hash_slow().0));
    assert_eq!(
        plain(&alloy_consensus::Header::default()).hash_slow(),
        B256(alloy_consensus::Header::default().hash_slow().0),
    );
}

#[test]
fn sealing_keeps_the_header() {
    let header = distinctive();
    let sealed = SealedHeader::seal_slow(plain(&header));
    assert_eq!(sealed.header, plain(&header));
    assert_eq!(sealed.hash, B256(header.hash_slow().0));
}

#[test]
fn a_candidate_takes_the_attributes_of_the_settling_block() {
    let settling = distinctive();
    let prefix = PrefixCommitments {
        state_root: B256([0xa1; 32]),
        transactions_root: B256([0xa2; 32]),
        receipts_root: B256([0xa3; 32]),
        logs_bloom: Bloom([0xa4; 256]),
        gas_used: 0xa5,
    };
    let candidate = build_candidate_header(&plain(&settling), prefix);
    let expected = alloy_consensus::Header {
        state_root: alloy_primitives::B256::repeat_byte(0xa1),
        transactions_root: alloy_primitives::B256::repeat_byte(0xa2),
        receipts_root: alloy_primitives::B256::repeat_byte(0xa3),
        logs_bloom: alloy_primitives::Bloom::repeat_byte(0xa4),
        gas_used: 0xa5,
        ..settling
    };
    assert_eq!(candidate, plain(&expected));
}

#[test]
fn what_the_settling_block_commits_to_of_its_own_prefix_does_not_matter() {
    let one = distinctive();
    let other = alloy_consensus::Header {
        state_root: alloy_primitives::B256::repeat_byte(0xb1),
        transactions_root: alloy_primitives::B256::repeat_byte(0xb2),
        receipts_root: alloy_primitives::B256::repeat_byte(0xb3),
        logs_bloom: alloy_primitives::Bloom::repeat_byte(0xb4),
        gas_used: 0xb5,
        ..distinctive()
    };
    let txs = [encoded(&tx(3))];
    let receipts = [receipt(21_000)];
    let root = B256([0xab; 32]);
    assert_eq!(
        candidate_block_hash(&sealed(one), &txs, &receipts, root),
        candidate_block_hash(&sealed(other), &txs, &receipts, root),
    );
    let later = alloy_consensus::Header { timestamp: 13, ..distinctive() };
    assert_ne!(
        candidate_block_hash(&sealed(later), &txs, &receipts, root),
        candidate_block_hash(&sealed(distinctive()), &txs, &receipts, root),
    );
}

#[test]
fn the_candidate_of_the_whole_block_is_the_block() {
    let txs = [tx(0), tx(1), tx(2)];
    let receipts = [
        outside_receipt(alloy_consensus::TxType::Legacy, 21_000, Vec::new()),
        outside_receipt(
            alloy_consensus::TxType::Eip1559,
            50_000,
            vec![alloy_primitives::Log::new_unchecked(
                alloy_primitives::Address::repeat_byte(0x42),
                vec![
                    alloy_primitives::B256::repeat_byte(0x01),
                    alloy_primitives::B256::repeat_byte(0x02),
                ],
                vec![1, 2, 3].into(),
            )],
        ),
        outside_receipt(alloy_consensus::TxType::Eip7702, 90_000, Vec::new()),
    ];
    let header = alloy_consensus::Header {
        transactions_root: calculate_transaction_root(&txs),
        receipts_root: calculate_receipt_root(
            &receipts.iter().map(TxReceipt::with_bloom_ref).collect::<Vec<_>>(),
        ),
        logs_bloom: reth_primitives_traits::logs_bloom(receipts.iter().flat_map(TxReceipt::logs)),
        gas_used: 90_000,
        ..distinctive()
    };
    let plain_txs: Vec<Transaction> = txs.iter().map(encoded).collect();
    let plain_receipts = [
        receipt(21_000),
        EthereumReceipt {
            tx_type: TxType::Eip1559,
            success: true,
            cumulative_gas_used: 50_000,
            logs: vec![Log {
                address: Address([0x42; 20]),
                topics: vec![B256([0x01; 32]), B256([0x02; 32])],
                data: vec![1, 2, 3],
            }],
        }
        .into_receipt(),
        EthereumReceipt {
            tx_type: TxType::Eip7702,
            success: true,
            cumulative_gas_used: 90_000,
            logs: Vec::new(),
        }
        .into_receipt(),
    ];
    let settling = sealed(header);
    assert_eq!(
        candidate_block_hash(&settling, &plain_txs, &plain_receipts, settling.header.state_root),
        Ok(settling.hash),
    );
}

#[test]
fn receipts_of_every_type_keep_their_encoding() {
    let types = [
        (TxType::Legacy, alloy_consensus::TxType::Legacy),
        (TxType::Eip2930, alloy_consensus::TxType::Eip2930),
        (TxType::Eip1559, alloy_consensus::TxType::Eip1559),
        (TxType::Eip4844, alloy_consensus::TxType::Eip4844),
        (TxType::Eip7702, alloy_consensus::TxType::Eip7702),
    ];
    for (tx_type, outside) in types {
        for success in [true, false] {
            let logs = vec![Log {
                address: Address([9; 20]),
                topics: vec![B256([8; 32])],
                data: vec![7; 5],
            }];
            let receipt =
                EthereumReceipt { tx_type, success, cumulative_gas_used: 77, logs: logs.clone() }
                    .into_receipt();
            let expected = alloy_consensus::EthereumReceipt {
                tx_type: outside,
                success,
                cumulative_gas_used: 77,
                logs: vec![alloy_primitives::Log::new_unchecked(
                    alloy_primitives::Address::repeat_byte(9),
                    vec![alloy_primitives::B256::repeat_byte(8)],
                    vec![7; 5].into(),
                )],
            };
            assert_eq!(receipt.encoded, expected.with_bloom_ref().encoded_2718());
            assert_eq!(receipt.cumulative_gas_used, 77);
            assert_eq!(receipt.logs, logs);
        }
    }
}

#[test]
fn an_empty_prefix_uses_no_gas() {
    let settling = distinctive();
    let expected = alloy_consensus::Header {
        state_root: alloy_primitives::B256::repeat_byte(0x31),
        transactions_root: alloy_consensus::EMPTY_ROOT_HASH,
        receipts_root: alloy_consensus::EMPTY_ROOT_HASH,
        logs_bloom: alloy_primitives::Bloom::ZERO,
        gas_used: 0,
        ..distinctive()
    };
    assert_eq!(
        candidate_block_hash(&sealed(settling), &[], &[], B256([0x31; 32])),
        Ok(B256(expected.hash_slow().0)),
    );
}
