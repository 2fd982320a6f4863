use stateless::ancestors::{
    compute_ancestor_hashes, validate_ancestor_headers, validate_block_inputs,
    BLOCKHASH_ANCESTOR_LIMIT,
};
use stateless::block::{ExecutionWitness, RecoveredBlock};
use stateless::error::StatelessValidationError;
use stateless::header::{Header, SealedHeader};
use stateless::primitives::{Address, Bloom, B256, B64, U256};

fn header(number: u64, parent_hash: B256) -> Header {
    Header {
        parent_hash,
        ommers_hash: B256([0; 32]),
        beneficiary: Address([0; 20]),
        state_root: B256([0; 32]),
        transactions_root: B256([0; 32]),
        receipts_root: B256([0; 32]),
        logs_bloom: Bloom([0; 256]),
        difficulty: U256([0; 32]),
        number,
        gas_limit: 0,
        gas_used: 0,
        timestamp: 0,
        extra_data: Vec::new(),
        mix_hash: B256([0; 32]),
        nonce: B64([0; 8]),
        base_fee_per_gas: None,
        withdrawals_root: None,
        blob_gas_used: None,
        excess_blob_gas: None,
        parent_beacon_block_root: None,
        requests_hash: None,
        block_access_list_hash: None,
        slot_number: None,
    }
}

fn block(number: u64, parent_hash: B256) -> RecoveredBlock {
    RecoveredBlock {
        sealed_header: SealedHeader::seal_slow(header(number, parent_hash)),
        transactions: Vec::new(),
    }
}

fn ancestor(number: u64, parent: u8, hash: u8) -> SealedHeader {
    SealedHeader {
        header: Header {
            state_root: B256([hash + 100; 32]),
            ..header(number, B256([parent; 32]))
        },
        hash: B256([hash; 32]),
    }
}

/// Encodings of `count` linked headers that end at number `last`, and the hash of the last.
fn chain(last: u64, count: u64) -> (Vec<Vec<u8>>, Vec<B256>) {
    let mut encodings = Vec::new();
    let mut hashes = Vec::new();
    let mut parent = alloy_primitives::B256::repeat_byte(0x77);
    for number in (last + 1 - count)..(last + 1) {
        let header = alloy_consensus::Header {
            number,
            parent_hash: parent,
            state_root: alloy_primitives::B256::repeat_byte(number as u8),
            ..Default::default()
        };
        let bytes = alloy_rlp::encode(&header);
        parent = alloy_primitives::keccak256(&bytes);
        hashes.push(B256(parent.0));
        encodings.push(bytes);
    }
    (encodings, hashes)
}

#[test]
fn rejects_excess_ancestor_headers_before_decoding_them() {
    let witness =
        ExecutionWitness { headers: vec![vec![0xff]; BLOCKHASH_ANCESTOR_LIMIT + 1] };

    assert!(matches!(
        validate_block_inputs(&block(0, B256([0; 32])), &witness),
        Err(StatelessValidationError::AncestorHeaderLimitExceeded {
            count,
            limit: BLOCKHASH_ANCESTOR_LIMIT,
        }) if count == BLOCKHASH_ANCESTOR_LIMIT + 1
    ));
}

#[test]
fn exact_ancestor_header_limit_reaches_header_decoding() {
    let witness = ExecutionWitness { headers: vec![vec![0xff]; BLOCKHASH_ANCESTOR_LIMIT] };

    assert!(matches!(
        validate_block_inputs(&block(0, B256([0; 32])), &witness),
        Err(StatelessValidationError::HeaderDeserializationFailed)
    ));
}

#[test]
fn the_limit_is_the_reach_of_blockhash() {
    assert_eq!(BLOCKHASH_ANCESTOR_LIMIT, 256);
}

#[test]
fn a_linked_chain_is_accepted() {
    let (headers, hashes) = chain(41, 3);
    let witness = ExecutionWitness { headers };
    let (by_number, parent) = validate_block_inputs(&block(42, hashes[2]), &witness).unwrap();
    assert_eq!(parent.header.state_root, B256([41; 32]));
    assert_eq!(parent.header.number, 41);
    assert_eq!(parent.hash, hashes[2]);
    assert_eq!(by_number.len(), 3);
    assert_eq!(by_number.get(&39), Some(&hashes[0]));
    assert_eq!(by_number.get(&40), Some(&hashes[1]));
    assert_eq!(by_number.get(&41), Some(&hashes[2]));
}

#[test]
fn a_full_window_is_accepted() {
    let (headers, hashes) = chain(999, 256);
    let witness = ExecutionWitness { headers };
    let (by_number, parent) =
        validate_block_inputs(&block(1_000, hashes[255]), &witness).unwrap();
    assert_eq!(parent.header.state_root, B256([999u64 as u8; 32]));
    assert_eq!(by_number.len(), 256);
    for i in 0..256 {
        assert_eq!(by_number.get(&(744 + i as u64)), Some(&hashes[i]));
    }
}

#[test]
fn one_bad_encoding_among_good_ones_is_rejected() {
    let (mut headers, hashes) = chain(41, 3);
    headers[0].push(0);
    assert_eq!(
        validate_block_inputs(&block(42, hashes[2]), &ExecutionWitness { headers }),
        Err(StatelessValidationError::HeaderDeserializationFailed),
    );
}

#[test]
fn the_hash_is_that_of_the_encoding() {
    let (headers, hashes) = chain(41, 1);
    let wrong = B256([5; 32]);
    assert_eq!(
        validate_block_inputs(&block(42, wrong), &ExecutionWitness { headers }),
        Err(StatelessValidationError::InvalidAncestorParentHash {
            child_number: 42,
            parent_number: 41,
            expected_parent_hash: wrong,
            actual_parent_hash: hashes[0],
        }),
    );
}

#[test]
fn no_headers_means_no_parent() {
    assert_eq!(
        validate_block_inputs(
            &block(42, B256([0; 32])),
            &ExecutionWitness { headers: Vec::new() },
        ),
        Err(StatelessValidationError::MissingAncestorHeader),
    );
    assert_eq!(
        validate_ancestor_headers(&block(42, B256([0; 32])), Vec::new()),
        Err(StatelessValidationError::MissingAncestorHeader),
    );
    assert!(compute_ancestor_hashes(&block(42, B256([0; 32])), &[]).unwrap().is_empty());
}

#[test]
fn the_last_ancestor_is_the_parent() {
    let ancestors = vec![ancestor(40, 0, 1), ancestor(41, 1, 2)];
    let (hashes, parent) =
        validate_ancestor_headers(&block(42, B256([2; 32])), ancestors).unwrap();
    assert_eq!(parent, ancestor(41, 1, 2));
    assert_eq!(parent.header.state_root, B256([102; 32]));
    assert_eq!(hashes.len(), 2);
    assert_eq!(hashes.get(&40), Some(&B256([1; 32])));
    assert_eq!(hashes.get(&41), Some(&B256([2; 32])));
}

#[test]
fn a_gap_in_the_numbers_is_reported() {
    let ancestors = [ancestor(39, 0, 1), ancestor(41, 1, 2)];
    assert_eq!(
        compute_ancestor_hashes(&block(42, B256([2; 32])), &ancestors),
        Err(StatelessValidationError::InvalidAncestorNumber {
            child_number: 41,
            expected_parent_number: 40,
            parent_number: 39,
        }),
    );
}

#[test]
fn the_most_recent_broken_link_is_reported() {
    // Both links are broken: the first by hash, the second by number.
    let ancestors = [ancestor(40, 0, 1), ancestor(41, 9, 2)];
    assert_eq!(
        compute_ancestor_hashes(&block(50, B256([2; 32])), &ancestors),
        Err(StatelessValidationError::InvalidAncestorNumber {
            child_number: 50,
            expected_parent_number: 49,
            parent_number: 41,
        }),
    );
    // With the second one mended, the first is.
    assert_eq!(
        compute_ancestor_hashes(&block(42, B256([2; 32])), &ancestors),
        Err(StatelessValidationError::InvalidAncestorParentHash {
            child_number: 41,
            parent_number: 40,
            expected_parent_hash: B256([9; 32]),
            actual_parent_hash: B256([1; 32]),
        }),
    );
}

#[test]
fn a_wrong_hash_is_reported_ahead_of_a_wrong_number() {
    assert_eq!(
        compute_ancestor_hashes(&block(50, B256([3; 32])), &[ancestor(41, 0, 2)]),
        Err(StatelessValidationError::InvalidAncestorParentHash {
            child_number: 50,
            parent_number: 41,
            expected_parent_hash: B256([3; 32]),
            actual_parent_hash: B256([2; 32]),
        }),
    );
}

#[test]
fn block_zero_has_no_parent_number() {
    assert_eq!(
        compute_ancestor_hashes(&block(0, B256([2; 32])), &[ancestor(7, 0, 2)]),
        Err(StatelessValidationError::InvalidAncestorNumber {
            child_number: 0,
            expected_parent_number: 0,
            parent_number: 7,
        }),
    );
    assert_eq!(
        compute_ancestor_hashes(&block(0, B256([2; 32])), &[ancestor(u64::MAX, 0, 2)]),
        Err(StatelessValidationError::InvalidAncestorNumber {
            child_number: 0,
            expected_parent_number: 0,
            parent_number: u64::MAX,
        }),
    );
}

#[test]
fn the_highest_block_number_has_a_parent() {
    let hashes =
        compute_ancestor_hashes(&block(u64::MAX, B256([2; 32])), &[ancestor(u64::MAX - 1, 0, 2)])
            .unwrap();
    assert_eq!(hashes.get(&(u64::MAX - 1)), Some(&B256([2; 32])));
}

#[test]
fn every_field_of_the_parent_is_decoded() {
    let word = alloy_primitives::B256::repeat_byte;
    let encoded = alloy_rlp::encode(&alloy_consensus::Header {
        parent_hash: word(1),
        ommers_hash: word(2),
        beneficiary: alloy_primitives::Address::repeat_byte(3),
        state_root: word(4),
        transactions_root: word(5),
        receipts_root: word(6),
        logs_bloom: alloy_primitives::Bloom::repeat_byte(7),
        difficulty: alloy_primitives::U256::from(0x0801u64),
        number: 9,
        gas_limit: 10,
        gas_used: 11,
        timestamp: 12,
        extra_data: vec![13, 13, 14].into(),
        mix_hash: word(15),
        nonce: alloy_primitives::B64::repeat_byte(16),
        base_fee_per_gas: Some(17),
        withdrawals_root: Some(word(18)),
        blob_gas_used: Some(19),
        excess_blob_gas: Some(20),
        parent_beacon_block_root: Some(word(21)),
        requests_hash: Some(word(22)),
        block_access_list_hash: Some(word(23)),
        slot_number: Some(24),
    });
    let hash = B256(alloy_primitives::keccak256(&encoded).0);
    let mut difficulty = [0; 32];
    difficulty[30] = 8;
    difficulty[31] = 1;
    let expected = Header {
        parent_hash: B256([1; 32]),
        ommers_hash: B256([2; 32]),
        beneficiary: Address([3; 20]),
        state_root: B256([4; 32]),
        transactions_root: B256([5; 32]),
        receipts_root: B256([6; 32]),
        logs_bloom: Bloom([7; 256]),
        difficulty: U256(difficulty),
        number: 9,
        gas_limit: 10,
        gas_used: 11,
        timestamp: 12,
        extra_data: vec![13, 13, 14],
        mix_hash: B256([15; 32]),
        nonce: B64([16; 8]),
        base_fee_per_gas: Some(17),
        withdrawals_root: Some(B256([18; 32])),
        blob_gas_used: Some(19),
        excess_blob_gas: Some(20),
        parent_beacon_block_root: Some(B256([21; 32])),
        requests_hash: Some(B256([22; 32])),
        block_access_list_hash: Some(B256([23; 32])),
        slot_number: Some(24),
    };
    let (_, parent) =
        validate_block_inputs(&block(10, hash), &ExecutionWitness { headers: vec![encoded] })
            .unwrap();
    assert_eq!(parent, SealedHeader { header: expected, hash });
}
