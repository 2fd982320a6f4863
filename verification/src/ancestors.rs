//! The chain of ancestor headers that leads up to a block.

use std::collections::BTreeMap;

use vstd::prelude::*;

use crate::block::{ExecutionWitness, RecoveredBlock};
use crate::error::StatelessValidationError;
use crate::header::{sealed_views, Header, HeaderView, SealedHeader, SealedHeaderView};
use crate::primitives::{keccak256, keccak256_digest, Address, Bloom, B256, B64, U256};

verus! {

/// How many of the most recent blocks `BLOCKHASH` can reach.
pub const BLOCKHASH_ANCESTOR_LIMIT: usize = 256;

/// `alloy_rlp::Error`, which says why an encoding was rejected.
#[verifier::external_type_specification]
#[verifier::external_body]
pub struct ExRlpError(alloy_rlp::Error);

/// The header that `bytes` encodes, if it encodes one.
pub uninterp spec fn header_decoding(bytes: Seq<u8>) -> Option<HeaderView>;

/// The fields of a decoded header, those of one type together.
struct DecodedHeader {
    /// Parent, ommers, state root, transactions root, receipts root, mix hash.
    hashes: [B256; 6],
    /// Withdrawals root, parent beacon block root, requests, block access list.
    optional_hashes: [Option<B256>; 4],
    /// Number, gas limit, gas used, timestamp.
    numbers: [u64; 4],
    /// Base fee, blob gas used, excess blob gas, slot number.
    optional_numbers: [Option<u64>; 4],
    beneficiary: [u8; 20],
    logs_bloom: [u8; 256],
    difficulty: [u8; 32],
    extra_data: Vec<u8>,
    nonce: [u8; 8],
}

impl View for DecodedHeader {
    type V = HeaderView;

    closed spec fn view(&self) -> HeaderView {
        HeaderView {
            parent_hash: self.hashes[0],
            ommers_hash: self.hashes[1],
            beneficiary: Address(self.beneficiary),
            state_root: self.hashes[2],
            transactions_root: self.hashes[3],
            receipts_root: self.hashes[4],
            logs_bloom: Bloom(self.logs_bloom),
            difficulty: U256(self.difficulty),
            number: self.numbers[0],
            gas_limit: self.numbers[1],
            gas_used: self.numbers[2],
            timestamp: self.numbers[3],
            extra_data: self.extra_data@,
            mix_hash: self.hashes[5],
            nonce: B64(self.nonce),
            base_fee_per_gas: self.optional_numbers[0],
            withdrawals_root: self.optional_hashes[0],
            blob_gas_used: self.optional_numbers[1],
            excess_blob_gas: self.optional_numbers[2],
            parent_beacon_block_root: self.optional_hashes[1],
            requests_hash: self.optional_hashes[2],
            block_access_list_hash: self.optional_hashes[3],
            slot_number: self.optional_numbers[3],
        }
    }
}

impl DecodedHeader {
    /// The header with these fields.
    fn into_header(self) -> (header: Header)
        ensures
            header@ == self@,
            header.parent_hash == self.hashes@[0],
            header.ommers_hash == self.hashes@[1],
            header.beneficiary.0 == self.beneficiary,
            header.state_root == self.hashes@[2],
            header.transactions_root == self.hashes@[3],
            header.receipts_root == self.hashes@[4],
            header.logs_bloom.0 == self.logs_bloom,
            header.difficulty.0 == self.difficulty,
            header.number == self.numbers@[0],
            header.gas_limit == self.numbers@[1],
            header.gas_used == self.numbers@[2],
            header.timestamp == self.numbers@[3],
            header.extra_data == self.extra_data,
            header.mix_hash == self.hashes@[5],
            header.nonce.0 == self.nonce,
            header.base_fee_per_gas == self.optional_numbers@[0],
            header.withdrawals_root == self.optional_hashes@[0],
            header.blob_gas_used == self.optional_numbers@[1],
            header.excess_blob_gas == self.optional_numbers@[2],
            header.parent_beacon_block_root == self.optional_hashes@[1],
            header.requests_hash == self.optional_hashes@[2],
            header.block_access_list_hash == self.optional_hashes@[3],
            header.slot_number == self.optional_numbers@[3],
    {
        Header {
            parent_hash: self.hashes[0],
            ommers_hash: self.hashes[1],
            beneficiary: Address(self.beneficiary),
            state_root: self.hashes[2],
            transactions_root: self.hashes[3],
            receipts_root: self.hashes[4],
            logs_bloom: Bloom(self.logs_bloom),
            difficulty: U256(self.difficulty),
            number: self.numbers[0],
            gas_limit: self.numbers[1],
            gas_used: self.numbers[2],
            timestamp: self.numbers[3],
            extra_data: self.extra_data,
            mix_hash: self.hashes[5],
            nonce: B64(self.nonce),
            base_fee_per_gas: self.optional_numbers[0],
            withdrawals_root: self.optional_hashes[0],
            blob_gas_used: self.optional_numbers[1],
            excess_blob_gas: self.optional_numbers[2],
            parent_beacon_block_root: self.optional_hashes[1],
            requests_hash: self.optional_hashes[2],
            block_access_list_hash: self.optional_hashes[3],
            slot_number: self.optional_numbers[3],
        }
    }
}

/// Calls `alloy_rlp::decode_exact::<alloy_consensus::Header>`: whether the bytes encode a
/// header, and which, is a function of the bytes alone. Which error comes for a rejected
/// encoding is left open.
#[verifier::external_body]
fn decode_exact_header(bytes: &Vec<u8>) -> (r: Result<DecodedHeader, alloy_rlp::Error>)
    ensures
        match r {
            Ok(decoded) => header_decoding(bytes@) == Some(decoded@),
            Err(_) => header_decoding(bytes@) is None,
        },
{
    let h = |hash: alloy_primitives::B256| B256(hash.0);
    alloy_rlp::decode_exact::<alloy_consensus::Header>(bytes).map(|x| DecodedHeader {
        hashes: [x.parent_hash, x.ommers_hash, x.state_root, x.transactions_root,
            x.receipts_root, x.mix_hash].map(h),
        optional_hashes: [x.withdrawals_root, x.parent_beacon_block_root, x.requests_hash,
            x.block_access_list_hash].map(|hash| hash.map(h)),
        numbers: [x.number, x.gas_limit, x.gas_used, x.timestamp],
        optional_numbers: [x.base_fee_per_gas, x.blob_gas_used, x.excess_blob_gas, x.slot_number],
        beneficiary: x.beneficiary.0.0, logs_bloom: x.logs_bloom.0.0,
        difficulty: x.difficulty.to_be_bytes(), extra_data: x.extra_data.into(), nonce: x.nonce.0,
    })
}

/// The ancestor that `bytes` encodes, known by the hash of those bytes.
pub open spec fn sealed_ancestor(bytes: Seq<u8>) -> SealedHeaderView {
    SealedHeaderView { header: header_decoding(bytes)->0, hash: keccak256_digest(bytes) }
}

/// Every encoding is that of a header.
pub open spec fn all_decodable(headers: Seq<Seq<u8>>) -> bool {
    forall|i: int| 0 <= i < headers.len() ==> header_decoding(#[trigger] headers[i]) is Some
}

/// The ancestors that the encodings stand for.
pub open spec fn sealed_ancestors(headers: Seq<Seq<u8>>) -> Seq<SealedHeaderView> {
    headers.map_values(|bytes: Seq<u8>| sealed_ancestor(bytes))
}

/// The number of the block that claims `ancestors[i]` as its parent: the next
/// ancestor, or the block itself behind the last one.
pub open spec fn child_number(block: RecoveredBlock, ancestors: Seq<SealedHeaderView>, i: int) -> u64 {
    if i + 1 < ancestors.len() {
        ancestors[i + 1].header.number
    } else {
        block.sealed_header.header.number
    }
}

/// The parent hash in the header of the block that claims `ancestors[i]`.
pub open spec fn child_parent_hash(
    block: RecoveredBlock,
    ancestors: Seq<SealedHeaderView>,
    i: int,
) -> B256 {
    if i + 1 < ancestors.len() {
        ancestors[i + 1].header.parent_hash
    } else {
        block.sealed_header.header.parent_hash
    }
}

/// `ancestors[i]` is the parent of its child: by hash, and by number.
pub open spec fn linked(block: RecoveredBlock, ancestors: Seq<SealedHeaderView>, i: int) -> bool {
    &&& child_parent_hash(block, ancestors, i) == ancestors[i].hash
    &&& ancestors[i].header.number + 1 == child_number(block, ancestors, i)
}

/// Every ancestor from position `from` on is the parent of its child.
pub open spec fn linked_from(
    block: RecoveredBlock,
    ancestors: Seq<SealedHeaderView>,
    from: int,
) -> bool {
    forall|i: int| from <= i < ancestors.len() ==> #[trigger] linked(block, ancestors, i)
}

/// What is reported of an ancestor that is not the parent of its child.
pub open spec fn link_error(
    block: RecoveredBlock,
    ancestors: Seq<SealedHeaderView>,
    i: int,
) -> StatelessValidationError {
    let child = child_number(block, ancestors, i);
    if child_parent_hash(block, ancestors, i) != ancestors[i].hash {
        StatelessValidationError::InvalidAncestorParentHash {
            child_number: child,
            parent_number: ancestors[i].header.number,
            expected_parent_hash: child_parent_hash(block, ancestors, i),
            actual_parent_hash: ancestors[i].hash,
        }
    } else {
        StatelessValidationError::InvalidAncestorNumber {
            child_number: child,
            expected_parent_number: if child == 0 {
                0u64
            } else {
                (child - 1) as u64
            },
            parent_number: ancestors[i].header.number,
        }
    }
}

/// Position `i` holds the most recent ancestor that is not the parent of its child.
pub open spec fn most_recent_fault(
    block: RecoveredBlock,
    ancestors: Seq<SealedHeaderView>,
    i: int,
) -> bool {
    &&& 0 <= i < ancestors.len()
    &&& !linked(block, ancestors, i)
    &&& linked_from(block, ancestors, i + 1)
}

/// The number of each ancestor from position `from` on, with that ancestor's hash,
/// where the chain is linked.
pub open spec fn hashes_by_number(
    block: RecoveredBlock,
    ancestors: Seq<SealedHeaderView>,
    from: int,
) -> Map<u64, B256> {
    let number = block.sealed_header.header.number as int;
    let len = ancestors.len() as int;
    Map::new(
        |n: u64| number - (len - from) <= n < number,
        |n: u64| ancestors[n - (number - len)].hash,
    )
}

/// In a linked chain the numbers count up, one by one, to the block's own.
proof fn lemma_linked_number(block: RecoveredBlock, ancestors: Seq<SealedHeaderView>, i: int)
    requires
        0 <= i < ancestors.len(),
        linked_from(block, ancestors, i),
    ensures
        ancestors[i].header.number == block.sealed_header.header.number - (ancestors.len() - i),
    decreases ancestors.len() - i,
{
    assert(linked(block, ancestors, i));
    if i + 1 < ancestors.len() {
        lemma_linked_number(block, ancestors, i + 1);
    }
}

/// A chain is linked from a position on exactly if, from there on, each header's hash and number
/// are those that the next header builds on, and the last one's are those that the block builds on.
pub proof fn law_links_join_neighbouring_headers(
    block: RecoveredBlock,
    ancestors: Seq<SealedHeaderView>,
    from: int,
)
    requires
        0 <= from <= ancestors.len(),
    ensures
        linked_from(block, ancestors, from) <==> {
            &&& forall|i: int|
                from <= i < ancestors.len() - 1 ==> {
                    let next = (#[trigger] ancestors[i + 1]).header;
                    &&& ancestors[i].hash == next.parent_hash
                    &&& ancestors[i].header.number + 1 == next.number
                }
            &&& from < ancestors.len() ==> {
                let last = ancestors[ancestors.len() - 1];
                &&& last.hash == block.sealed_header.header.parent_hash
                &&& last.header.number + 1 == block.sealed_header.header.number
            }
        },
{
    if linked_from(block, ancestors, from) {
        assert forall|i: int| from <= i < ancestors.len() - 1 implies {
            let next = (#[trigger] ancestors[i + 1]).header;
            &&& ancestors[i].hash == next.parent_hash
            &&& ancestors[i].header.number + 1 == next.number
        } by {
            assert(linked(block, ancestors, i));
        }
        if from < ancestors.len() {
            assert(linked(block, ancestors, ancestors.len() - 1));
        }
    } else {
        let i = choose|i: int|
            from <= i < ancestors.len() && !#[trigger] linked(block, ancestors, i);
        if i + 1 < ancestors.len() {
            assert(ancestors[i + 1] == ancestors[i + 1]);
        }
    }
}

/// What is reported of a broken link is what the two headers at the link say: the hash that the
/// child commits to beside the one found, or, where these are the same, the number expected below
/// the child's beside the one found. Every link that is more recent holds.
pub proof fn law_link_errors_quote_the_headers(
    block: RecoveredBlock,
    ancestors: Seq<SealedHeaderView>,
    i: int,
)
    requires
        most_recent_fault(block, ancestors, i),
    ensures
        0 <= i < ancestors.len(),
        linked_from(block, ancestors, i + 1),
        ({
            let parent = ancestors[i];
            let (number, parent_hash) = if i == ancestors.len() - 1 {
                (block.sealed_header.header.number, block.sealed_header.header.parent_hash)
            } else {
                (ancestors[i + 1].header.number, ancestors[i + 1].header.parent_hash)
            };
            match link_error(block, ancestors, i) {
                StatelessValidationError::InvalidAncestorParentHash {
                    child_number,
                    parent_number,
                    expected_parent_hash,
                    actual_parent_hash,
                } => {
                    &&& expected_parent_hash != actual_parent_hash
                    &&& child_number == number
                    &&& parent_number == parent.header.number
                    &&& expected_parent_hash == parent_hash
                    &&& actual_parent_hash == parent.hash
                },
                StatelessValidationError::InvalidAncestorNumber {
                    child_number,
                    expected_parent_number,
                    parent_number,
                } => {
                    &&& parent_hash == parent.hash
                    &&& parent_number + 1 != child_number
                    &&& child_number == number
                    &&& parent_number == parent.header.number
                    &&& child_number > 0 ==> expected_parent_number + 1 == child_number
                    &&& child_number == 0 ==> expected_parent_number == 0
                },
                _ => false,
            }
        }),
{
}

/// A chain that is not linked has exactly one most recent broken link.
pub proof fn law_a_broken_chain_has_one_most_recent_fault(
    block: RecoveredBlock,
    ancestors: Seq<SealedHeaderView>,
)
    ensures
        !linked_from(block, ancestors, 0) <==> exists|i: int| #[trigger]
            most_recent_fault(block, ancestors, i),
        forall|i: int, j: int| #[trigger]
            most_recent_fault(block, ancestors, i) && #[trigger] most_recent_fault(
                block,
                ancestors,
                j,
            ) ==> i == j,
{
    if !linked_from(block, ancestors, 0) {
        lemma_most_recent_fault(block, ancestors, 0);
    }
    assert forall|i: int, j: int| #[trigger]
        most_recent_fault(block, ancestors, i) && #[trigger] most_recent_fault(
            block,
            ancestors,
            j,
        ) implies i == j by {
        if i < j {
            assert(linked(block, ancestors, j));
        }
        if j < i {
            assert(linked(block, ancestors, i));
        }
    }
}

proof fn lemma_most_recent_fault(
    block: RecoveredBlock,
    ancestors: Seq<SealedHeaderView>,
    from: int,
)
    requires
        0 <= from <= ancestors.len(),
        !linked_from(block, ancestors, from),
    ensures
        exists|i: int| #[trigger] most_recent_fault(block, ancestors, i),
    decreases ancestors.len() - from,
{
    if linked_from(block, ancestors, from + 1) {
        assert(most_recent_fault(block, ancestors, from));
    } else {
        lemma_most_recent_fault(block, ancestors, from + 1);
    }
}

/// The hashes of a linked chain are known under the numbers of its headers and no others, each
/// header's hash under its own number.
pub proof fn law_hashes_are_those_of_the_headers(
    block: RecoveredBlock,
    ancestors: Seq<SealedHeaderView>,
)
    requires
        linked_from(block, ancestors, 0),
    ensures
        ({
            let hashes = hashes_by_number(block, ancestors, 0);
            &&& forall|i: int|
                0 <= i < ancestors.len() ==> {
                    let ancestor = #[trigger] ancestors[i];
                    &&& hashes.contains_key(ancestor.header.number)
                    &&& hashes[ancestor.header.number] == ancestor.hash
                }
            &&& forall|n: u64| #[trigger]
                hashes.contains_key(n) ==> exists|i: int|
                    0 <= i < ancestors.len() && (#[trigger] ancestors[i]).header.number == n
        }),
{
    let number = block.sealed_header.header.number;
    let hashes = hashes_by_number(block, ancestors, 0);
    assert forall|i: int| 0 <= i < ancestors.len() implies {
        let ancestor = #[trigger] ancestors[i];
        &&& hashes.contains_key(ancestor.header.number)
        &&& hashes[ancestor.header.number] == ancestor.hash
    } by {
        lemma_linked_number(block, ancestors, i);
    }
    assert forall|n: u64| #[trigger] hashes.contains_key(n) implies exists|i: int|
        0 <= i < ancestors.len() && (#[trigger] ancestors[i]).header.number == n by {
        let i = n - (number - ancestors.len());
        lemma_linked_number(block, ancestors, i);
        assert(ancestors[i].header.number == n);
    }
}

/// The links between headers are those between their views.
proof fn lemma_links_of_views(block: RecoveredBlock, headers: Seq<SealedHeader>)
    ensures
        linked_from(block, sealed_views(headers), 0) <==> {
            &&& forall|i: int|
                0 <= i < headers.len() - 1 ==> {
                    let next = (#[trigger] headers[i + 1]).header;
                    &&& headers[i].hash == next.parent_hash
                    &&& headers[i].header.number + 1 == next.number
                }
            &&& headers.len() > 0 ==> {
                let last = headers[headers.len() - 1];
                &&& last.hash == block.sealed_header.header.parent_hash
                &&& last.header.number + 1 == block.sealed_header.header.number
            }
        },
{
    let views = sealed_views(headers);
    law_links_join_neighbouring_headers(block, views, 0);
    assert forall|i: int| 0 <= i < headers.len() implies #[trigger] headers[i]@ == views[i] by {
    }
    if linked_from(block, views, 0) {
        assert forall|i: int| 0 <= i < headers.len() - 1 implies {
            let next = (#[trigger] headers[i + 1]).header;
            &&& headers[i].hash == next.parent_hash
            &&& headers[i].header.number + 1 == next.number
        } by {
            assert(views[i + 1] == headers[i + 1]@);
            assert(views[i] == headers[i]@);
        }
        if headers.len() > 0 {
            assert(views[headers.len() - 1] == headers[headers.len() - 1]@);
        }
    } else {
        let i = choose|i: int| 0 <= i < views.len() && !#[trigger] linked(block, views, i);
        assert(views[i] == headers[i]@);
        if i + 1 < views.len() {
            assert(views[i + 1] == headers[i + 1]@);
        }
    }
}

/// Collects the hash of each ancestor under its number.
///
/// The ancestors are walked from the parent of the block to the oldest. The walk
/// stops at the first one whose hash is not its child's parent hash, or whose
/// number is not one less than its child's.
pub fn compute_ancestor_hashes(
    current_block: &RecoveredBlock,
    ancestor_headers: &[SealedHeader],
) -> (r: Result<BTreeMap<u64, B256>, StatelessValidationError>)
    ensures
        ({
            let ancestors = sealed_views(ancestor_headers@);
            &&& r is Ok <==> linked_from(*current_block, ancestors, 0)
            &&& r matches Ok(hashes) ==> hashes@ == hashes_by_number(*current_block, ancestors, 0)
            &&& r matches Err(e) ==> exists|i: int|
                #[trigger] most_recent_fault(*current_block, ancestors, i) && e == link_error(
                    *current_block,
                    ancestors,
                    i,
                )
        }),
        r is Ok <==> {
            let block = current_block.sealed_header.header;
            &&& forall|i: int|
                0 <= i < ancestor_headers@.len() - 1 ==> {
                    let next = (#[trigger] ancestor_headers@[i + 1]).header;
                    &&& ancestor_headers@[i].hash == next.parent_hash
                    &&& ancestor_headers@[i].header.number + 1 == next.number
                }
            &&& ancestor_headers@.len() > 0 ==> {
                let last = ancestor_headers@[ancestor_headers@.len() - 1];
                &&& last.hash == block.parent_hash
                &&& last.header.number + 1 == block.number
            }
        },
        r matches Ok(hashes) ==> {
            &&& forall|i: int|
                0 <= i < ancestor_headers@.len() ==> {
                    let ancestor = #[trigger] ancestor_headers@[i];
                    &&& hashes@.contains_key(ancestor.header.number)
                    &&& hashes@[ancestor.header.number] == ancestor.hash
                }
            &&& forall|n: u64| #[trigger]
                hashes@.contains_key(n) ==> exists|i: int|
                    0 <= i < ancestor_headers@.len() && (
                    #[trigger] ancestor_headers@[i]).header.number == n
        },
{
    let ghost ancestors = sealed_views(ancestor_headers@);
    proof {
        lemma_links_of_views(*current_block, ancestor_headers@);
    }
    let mut ancestor_hashes: BTreeMap<u64, B256> = BTreeMap::new();
    let mut number: u64 = current_block.sealed_header.header.number;
    let mut parent_hash: B256 = current_block.sealed_header.header.parent_hash;
    let mut i: usize = ancestor_headers.len();
    assert(ancestor_hashes@ =~= hashes_by_number(*current_block, ancestors, i as int));
    while i > 0
        invariant
            ancestors == sealed_views(ancestor_headers@),
            i <= ancestor_headers@.len(),
            linked_from(*current_block, ancestors, i as int),
            number == child_number(*current_block, ancestors, i - 1),
            parent_hash == child_parent_hash(*current_block, ancestors, i - 1),
            ancestor_hashes@ == hashes_by_number(*current_block, ancestors, i as int),
        decreases i,
    {
        let parent = &ancestor_headers[i - 1];
        let parent_number: u64 = parent.header.number;
        assert(ancestors[i - 1] == parent@);
        ancestor_hashes.insert(parent_number, parent_hash);
        if parent_hash != parent.hash {
            assert(most_recent_fault(*current_block, ancestors, i - 1));
            return Err(
                StatelessValidationError::InvalidAncestorParentHash {
                    child_number: number,
                    parent_number,
                    expected_parent_hash: parent_hash,
                    actual_parent_hash: parent.hash,
                },
            );
        }
        if number == 0 || parent_number != number - 1 {
            assert(most_recent_fault(*current_block, ancestors, i - 1));
            return Err(
                StatelessValidationError::InvalidAncestorNumber {
                    child_number: number,
                    expected_parent_number: number.saturating_sub(1),
                    parent_number,
                },
            );
        }
        proof {
            assert(linked(*current_block, ancestors, i - 1));
            assert(linked_from(*current_block, ancestors, i - 1));
            lemma_linked_number(*current_block, ancestors, i - 1);
            assert(ancestor_hashes@ =~= hashes_by_number(*current_block, ancestors, i - 1));
        }
        number = parent_number;
        parent_hash = parent.header.parent_hash;
        i = i - 1;
    }
    proof {
        law_hashes_are_those_of_the_headers(*current_block, ancestors);
        assert forall|i: int| 0 <= i < ancestor_headers@.len() implies {
            let ancestor = #[trigger] ancestor_headers@[i];
            &&& ancestor_hashes@.contains_key(ancestor.header.number)
            &&& ancestor_hashes@[ancestor.header.number] == ancestor.hash
        } by {
            assert(ancestors[i] == ancestor_headers@[i]@);
        }
        assert forall|n: u64| #[trigger] ancestor_hashes@.contains_key(n) implies exists|i: int|
            0 <= i < ancestor_headers@.len() && (#[trigger] ancestor_headers@[i]).header.number
                == n by {
            let i = choose|i: int|
                0 <= i < ancestors.len() && (#[trigger] ancestors[i]).header.number == n;
            assert(ancestor_headers@[i]@ == ancestors[i]);
        }
    }
    Ok(ancestor_hashes)
}

/// Checks decoded ancestor headers against the block, and hands back the ancestor hashes by
/// number and the parent.
///
/// A broken link is reported ahead of a missing parent.
pub fn validate_ancestor_headers(
    current_block: &RecoveredBlock,
    ancestor_headers: Vec<SealedHeader>,
) -> (r: Result<(BTreeMap<u64, B256>, SealedHeader), StatelessValidationError>)
    ensures
        ({
            let ancestors = sealed_views(ancestor_headers@);
            &&& r is Ok <==> linked_from(*current_block, ancestors, 0) && ancestors.len() > 0
            &&& r matches Ok((hashes, parent)) ==> {
                &&& hashes@ == hashes_by_number(*current_block, ancestors, 0)
                &&& parent == ancestor_headers@.last()
            }
            &&& !linked_from(*current_block, ancestors, 0) ==> exists|i: int|
                #[trigger] most_recent_fault(*current_block, ancestors, i) && r == Err::<
                    (BTreeMap<u64, B256>, SealedHeader),
                    StatelessValidationError,
                >(link_error(*current_block, ancestors, i))
            &&& ancestors.len() == 0 ==> r == Err::<
                (BTreeMap<u64, B256>, SealedHeader),
                StatelessValidationError,
            >(StatelessValidationError::MissingAncestorHeader)
        }),
{
    let mut ancestor_headers = ancestor_headers;
    let ancestor_hashes = match compute_ancestor_hashes(
        current_block,
        ancestor_headers.as_slice(),
    ) {
        Ok(hashes) => hashes,
        Err(e) => {
            return Err(e);
        },
    };
    match ancestor_headers.pop() {
        Some(parent) => Ok((ancestor_hashes, parent)),
        None => Err(StatelessValidationError::MissingAncestorHeader),
    }
}

/// Decodes and hashes every ancestor header of the witness.
fn decode_ancestor_headers(headers: &Vec<Vec<u8>>) -> (r: Result<
    Vec<SealedHeader>,
    StatelessValidationError,
>)
    ensures
        ({
            let bytes = headers@.map_values(|bytes: Vec<u8>| bytes@);
            match r {
                Ok(ancestors) => all_decodable(bytes) && sealed_views(ancestors@)
                    == sealed_ancestors(bytes),
                Err(e) => !all_decodable(bytes)
                    && e == StatelessValidationError::HeaderDeserializationFailed,
            }
        }),
{
    let ghost bytes = headers@.map_values(|bytes: Vec<u8>| bytes@);
    let mut ancestors: Vec<SealedHeader> = Vec::new();
    let mut i: usize = 0;
    assert(sealed_views(ancestors@) =~= sealed_ancestors(bytes.take(0)));
    while i < headers.len()
        invariant
            i <= headers@.len(),
            bytes == headers@.map_values(|bytes: Vec<u8>| bytes@),
            sealed_views(ancestors@) == sealed_ancestors(bytes.take(i as int)),
            all_decodable(bytes.take(i as int)),
        decreases headers@.len() - i,
    {
        let ghost so_far = ancestors@;
        let hash = keccak256(&headers[i]);
        assert(bytes[i as int] == headers@[i as int]@);
        match decode_exact_header(&headers[i]) {
            Ok(decoded) => {
                let header = decoded.into_header();
                ancestors.push(SealedHeader { header, hash });
            },
            Err(_) => {
                assert(header_decoding(bytes[i as int]) is None);
                return Err(StatelessValidationError::HeaderDeserializationFailed);
            },
        }
        proof {
            assert(ancestors@.last()@ == sealed_ancestor(bytes[i as int]));
            assert(sealed_views(ancestors@) =~= sealed_views(so_far).push(ancestors@.last()@));
            assert(bytes.take(i + 1) =~= bytes.take(i as int).push(bytes[i as int]));
            assert(sealed_views(ancestors@) =~= sealed_ancestors(bytes.take(i + 1)));
            assert forall|j: int| 0 <= j < i + 1 implies header_decoding(
                #[trigger] bytes.take(i + 1)[j],
            ) is Some by {
                if j < i {
                    assert(bytes.take(i + 1)[j] == bytes.take(i as int)[j]);
                }
            }
        }
        i = i + 1;
    }
    assert(bytes.take(i as int) =~= bytes);
    Ok(ancestors)
}

/// The witness headers are few enough, each decodes, and together they lead up to the block.
pub open spec fn inputs_accepted(block: RecoveredBlock, headers: Seq<Seq<u8>>) -> bool {
    &&& 0 < headers.len() <= BLOCKHASH_ANCESTOR_LIMIT
    &&& all_decodable(headers)
    &&& linked_from(block, sealed_ancestors(headers), 0)
}

/// The parent of the block, by the last witness header.
pub open spec fn parent_header(headers: Seq<Seq<u8>>) -> SealedHeaderView {
    sealed_ancestor(headers.last())
}

/// The state root of the parent.
pub open spec fn parent_state_root(headers: Seq<Seq<u8>>) -> B256 {
    parent_header(headers).header.state_root
}

/// What is reported of witness headers that are not accepted: too many of them
/// before anything is decoded, then an encoding that is no header, then the most
/// recent broken link, then the absence of a parent.
pub open spec fn inputs_fault(
    block: RecoveredBlock,
    headers: Seq<Seq<u8>>,
    e: StatelessValidationError,
) -> bool {
    if headers.len() > BLOCKHASH_ANCESTOR_LIMIT {
        e == StatelessValidationError::AncestorHeaderLimitExceeded {
            count: headers.len() as usize,
            limit: BLOCKHASH_ANCESTOR_LIMIT,
        }
    } else if !all_decodable(headers) {
        e == StatelessValidationError::HeaderDeserializationFailed
    } else if !linked_from(block, sealed_ancestors(headers), 0) {
        exists|i: int|
            #[trigger] most_recent_fault(block, sealed_ancestors(headers), i) && e == link_error(
                block,
                sealed_ancestors(headers),
                i,
            )
    } else {
        headers.len() == 0 && e == StatelessValidationError::MissingAncestorHeader
    }
}

/// Checks the witness headers that lead up to the block, and hands back the ancestor hashes
/// by number and the parent, whose state root the block is executed from.
///
/// The consensus rules are asked next, about the block and its parent.
pub fn validate_block_inputs(
    current_block: &RecoveredBlock,
    witness: &ExecutionWitness,
) -> (r: Result<(BTreeMap<u64, B256>, SealedHeader), StatelessValidationError>)
    ensures
        r is Ok <==> inputs_accepted(*current_block, witness.header_bytes()),
        r matches Ok((hashes, parent)) ==> {
            &&& hashes@ == hashes_by_number(
                *current_block,
                sealed_ancestors(witness.header_bytes()),
                0,
            )
            &&& header_decoding(witness.header_bytes().last()) == Some(parent.header@)
            &&& parent.hash == keccak256_digest(witness.header_bytes().last())
        },
        r matches Err(e) ==> inputs_fault(*current_block, witness.header_bytes(), e),
{
    let count: usize = witness.headers.len();
    if count > BLOCKHASH_ANCESTOR_LIMIT {
        return Err(
            StatelessValidationError::AncestorHeaderLimitExceeded {
                count,
                limit: BLOCKHASH_ANCESTOR_LIMIT,
            },
        );
    }
    let ancestor_headers = match decode_ancestor_headers(&witness.headers) {
        Ok(ancestors) => ancestors,
        Err(e) => {
            return Err(e);
        },
    };
    proof {
        if count > 0 {
            let last = count - 1;
            assert(header_decoding(witness.header_bytes()[last]) is Some);
            assert(sealed_views(ancestor_headers@).len() == count);
            assert(sealed_views(ancestor_headers@)[last] == ancestor_headers@[last]@);
            assert(sealed_ancestors(witness.header_bytes())[last] == sealed_ancestor(
                witness.header_bytes()[last],
            ));
        }
    }
    validate_ancestor_headers(current_block, ancestor_headers)
}

/// At most one error fits the witness headers, and none fits headers that are accepted.
pub proof fn law_inputs_fault_is_unique(
    block: RecoveredBlock,
    headers: Seq<Seq<u8>>,
    e1: StatelessValidationError,
    e2: StatelessValidationError,
)
    requires
        inputs_fault(block, headers, e1),
        inputs_fault(block, headers, e2),
    ensures
        e1 == e2,
        !inputs_accepted(block, headers),
{
    let ancestors = sealed_ancestors(headers);
    if headers.len() <= BLOCKHASH_ANCESTOR_LIMIT && all_decodable(headers) && !linked_from(
        block,
        ancestors,
        0,
    ) {
        let i = choose|i: int|
            #[trigger] most_recent_fault(block, ancestors, i) && e1 == link_error(
                block,
                ancestors,
                i,
            );
        let j = choose|j: int|
            #[trigger] most_recent_fault(block, ancestors, j) && e2 == link_error(
                block,
                ancestors,
                j,
            );
        if i < j {
            assert(linked(block, ancestors, j));
        }
        if j < i {
            assert(linked(block, ancestors, i));
        }
    }
}

/// The numbers of accepted ancestors are the ones just below the block's own, without a
/// gap, and the collected hashes are known under exactly these numbers, each with the
/// hash that its child commits to.
pub proof fn law_ancestor_hashes_are_contiguous(block: RecoveredBlock, headers: Seq<Seq<u8>>)
    requires
        inputs_accepted(block, headers),
    ensures
        ({
            let ancestors = sealed_ancestors(headers);
            let number = block.sealed_header.header.number;
            let hashes = hashes_by_number(block, ancestors, 0);
            &&& headers.len() <= number
            &&& forall|n: u64| #[trigger]
                hashes.contains_key(n) <==> number - headers.len() <= n < number
            &&& forall|i: int|
                0 <= i < ancestors.len() ==> {
                    let ancestor = #[trigger] ancestors[i];
                    &&& ancestor.header.number == number - headers.len() + i
                    &&& hashes[ancestor.header.number] == ancestor.hash
                    &&& ancestor.hash == child_parent_hash(block, ancestors, i)
                }
            &&& forall|i: int|
                0 <= i < ancestors.len() - 1 ==> ancestors[i].hash == (
                #[trigger] ancestors[i + 1]).header.parent_hash
            &&& ancestors[ancestors.len() - 1].hash == block.sealed_header.header.parent_hash
            &&& hashes[(number - 1) as u64] == block.sealed_header.header.parent_hash
        }),
{
    let ancestors = sealed_ancestors(headers);
    let number = block.sealed_header.header.number;
    let hashes = hashes_by_number(block, ancestors, 0);
    assert forall|i: int| 0 <= i < ancestors.len() implies ({
        let ancestor = #[trigger] ancestors[i];
        &&& ancestor.header.number == number - headers.len() + i
        &&& hashes[ancestor.header.number] == ancestor.hash
        &&& ancestor.hash == child_parent_hash(block, ancestors, i)
    }) by {
        lemma_linked_number(block, ancestors, i);
        assert(linked(block, ancestors, i));
    }
    law_links_join_neighbouring_headers(block, ancestors, 0);
    let last = ancestors.len() - 1;
    assert(ancestors[last].header.number == number - 1);
    assert(ancestors[0].header.number == number - headers.len());
}

/// Each witness header stands for what its own bytes decode to, known by the digest of these
/// bytes, and the parent is the last of them.
pub proof fn law_ancestors_are_what_the_bytes_say(headers: Seq<Seq<u8>>)
    ensures
        all_decodable(headers) <==> forall|i: int|
            0 <= i < headers.len() ==> header_decoding(#[trigger] headers[i]) is Some,
        sealed_ancestors(headers).len() == headers.len(),
        all_decodable(headers) ==> forall|i: int|
            0 <= i < headers.len() ==> {
                let ancestor = #[trigger] sealed_ancestors(headers)[i];
                &&& header_decoding(headers[i]) == Some(ancestor.header)
                &&& ancestor.hash == keccak256_digest(headers[i])
            },
        headers.len() > 0 && all_decodable(headers) ==> {
            let last = headers[headers.len() - 1];
            &&& header_decoding(last) == Some(parent_header(headers).header)
            &&& parent_header(headers).hash == keccak256_digest(last)
            &&& header_decoding(last) matches Some(parent) && parent_state_root(headers)
                == parent.state_root
        },
{
    if all_decodable(headers) {
        assert forall|i: int| 0 <= i < headers.len() implies {
            let ancestor = #[trigger] sealed_ancestors(headers)[i];
            &&& header_decoding(headers[i]) == Some(ancestor.header)
            &&& ancestor.hash == keccak256_digest(headers[i])
        } by {
            assert(header_decoding(headers[i]) is Some);
        }
        if headers.len() > 0 {
            assert(header_decoding(headers[headers.len() - 1]) is Some);
        }
    }
}

/// Witness headers are accepted exactly if there is at least one and no more than 256 of them,
/// each decodes, the digest of each encoding is the parent hash in the header that comes next,
/// with the number one less than there, and likewise for the last one and the block.
pub proof fn law_accepted_inputs_lead_up_to_the_block(block: RecoveredBlock, headers: Seq<Seq<u8>>)
    ensures
        inputs_accepted(block, headers) <==> {
            &&& 0 < headers.len() <= 256
            &&& forall|i: int|
                0 <= i < headers.len() ==> header_decoding(#[trigger] headers[i]) is Some
            &&& forall|i: int|
                0 <= i < headers.len() - 1 ==> {
                    let next = header_decoding(#[trigger] headers[i + 1])->0;
                    &&& keccak256_digest(headers[i]) == next.parent_hash
                    &&& (header_decoding(headers[i])->0).number + 1 == next.number
                }
            &&& keccak256_digest(headers[headers.len() - 1])
                == block.sealed_header.header.parent_hash
            &&& (header_decoding(headers[headers.len() - 1])->0).number + 1
                == block.sealed_header.header.number
        },
{
    let ancestors = sealed_ancestors(headers);
    law_links_join_neighbouring_headers(block, ancestors, 0);
    if inputs_accepted(block, headers) {
        assert forall|i: int| 0 <= i < headers.len() - 1 implies {
            let next = header_decoding(#[trigger] headers[i + 1])->0;
            &&& keccak256_digest(headers[i]) == next.parent_hash
            &&& (header_decoding(headers[i])->0).number + 1 == next.number
        } by {
            assert(ancestors[i + 1] == sealed_ancestor(headers[i + 1]));
            assert(ancestors[i] == sealed_ancestor(headers[i]));
        }
        let last = headers.len() - 1;
        assert(ancestors[last] == sealed_ancestor(headers[last]));
    } else if headers.len() > 0 && !linked_from(block, ancestors, 0) {
        let i = choose|i: int|
            0 <= i < ancestors.len() && !#[trigger] linked(block, ancestors, i);
        assert(ancestors[i] == sealed_ancestor(headers[i]));
        if i + 1 < headers.len() {
            assert(ancestors[i + 1] == sealed_ancestor(headers[i + 1]));
        }
    }
}

/// Of witness headers that are not accepted, too many are reported with their number and the
/// limit, whatever they hold; then one that does not decode, whatever the others say; then the
/// most recent broken link; and no headers at all as the want of a parent.
pub proof fn law_faults_are_reported_in_their_order(
    block: RecoveredBlock,
    headers: Seq<Seq<u8>>,
    e: StatelessValidationError,
)
    requires
        inputs_fault(block, headers, e),
        headers.len() <= usize::MAX,
    ensures
        !inputs_accepted(block, headers),
        headers.len() > 256 ==> (e
            matches StatelessValidationError::AncestorHeaderLimitExceeded { count, limit } && count
            == headers.len() && limit == 256),
        headers.len() <= 256 && (exists|i: int|
            0 <= i < headers.len() && header_decoding(#[trigger] headers[i]) is None) ==> e
            == StatelessValidationError::HeaderDeserializationFailed,
        headers.len() == 0 ==> e == StatelessValidationError::MissingAncestorHeader,
        0 < headers.len() <= 256 && (forall|i: int|
            0 <= i < headers.len() ==> header_decoding(#[trigger] headers[i]) is Some)
            ==> exists|i: int| #[trigger]
            most_recent_fault(block, sealed_ancestors(headers), i) && e == link_error(
                block,
                sealed_ancestors(headers),
                i,
            ),
{
    law_inputs_fault_is_unique(block, headers, e, e);
}

/// Exactly one of the two holds: the witness headers are accepted, or some error fits them.
pub proof fn law_inputs_are_accepted_or_at_fault(block: RecoveredBlock, headers: Seq<Seq<u8>>)
    ensures
        inputs_accepted(block, headers) <==> !exists|e: StatelessValidationError| #[trigger]
            inputs_fault(block, headers, e),
{
    let ancestors = sealed_ancestors(headers);
    if inputs_accepted(block, headers) {
        assert forall|e: StatelessValidationError| #[trigger]
            inputs_fault(block, headers, e) implies false by {
            law_inputs_fault_is_unique(block, headers, e, e);
        }
    } else if headers.len() > BLOCKHASH_ANCESTOR_LIMIT {
        assert(inputs_fault(
            block,
            headers,
            StatelessValidationError::AncestorHeaderLimitExceeded {
                count: headers.len() as usize,
                limit: BLOCKHASH_ANCESTOR_LIMIT,
            },
        ));
    } else if !all_decodable(headers) {
        assert(inputs_fault(block, headers, StatelessValidationError::HeaderDeserializationFailed));
    } else if !linked_from(block, ancestors, 0) {
        law_a_broken_chain_has_one_most_recent_fault(block, ancestors);
        let i = choose|i: int| #[trigger] most_recent_fault(block, ancestors, i);
        assert(inputs_fault(block, headers, link_error(block, ancestors, i)));
    } else {
        assert(inputs_fault(block, headers, StatelessValidationError::MissingAncestorHeader));
    }
}

} // verus!
