//! The block that would stand if settlement stopped after a prefix of the transactions.

use vstd::prelude::*;

use crate::access_list::{law_sum_adds_up, sum};
use crate::block::{encodings, Transaction};
use crate::error::StatelessValidationError;
use crate::header::{header_hash, Header, HeaderView, SealedHeader};
use crate::primitives::{ordered_trie_root, ordered_trie_root_encoded, Bloom, B256};
use crate::receipt::{
    bloom_of_logs, log_views, logs_bloom, receipt_views, Log, LogView, Receipt, ReceiptView,
};

verus! {

/// The bytes of the commitment to an empty list of execution requests: the SHA-256 digest
/// of the empty string.
pub open spec fn empty_requests_bytes() -> Seq<u8> {
    seq![
        0xe3u8, 0xb0, 0xc4, 0x42, 0x98, 0xfc, 0x1c, 0x14, 0x9a, 0xfb, 0xf4, 0xc8, 0x99, 0x6f,
        0xb9, 0x24, 0x27, 0xae, 0x41, 0xe4, 0x64, 0x9b, 0x93, 0x4c, 0xa4, 0x95, 0x99, 0x1b,
        0x78, 0x52, 0xb8, 0x55,
    ]
}

/// Reads the constant `alloy_eips::eip7685::EMPTY_REQUESTS_HASH`.
#[verifier::external_body]
fn empty_requests_hash() -> (hash: B256)
    ensures
        hash.0@ == empty_requests_bytes(),
{
    B256(alloy_eips::eip7685::EMPTY_REQUESTS_HASH.0)
}

/// The header carries a block access list.
pub open spec fn has_access_list(header: HeaderView) -> bool {
    header.block_access_list_hash is Some
}

/// The header commits to execution requests.
pub open spec fn has_requests(header: HeaderView) -> bool {
    header.requests_hash matches Some(hash) && hash.0@ != empty_requests_bytes()
}

/// The header records blob gas.
pub open spec fn has_blob_gas(header: HeaderView) -> bool {
    header.blob_gas_used matches Some(used) && used != 0
}

/// Every field of the header can be had from a prefix of the block's transactions.
pub open spec fn reproducible(header: HeaderView) -> bool {
    !has_access_list(header) && !has_requests(header) && !has_blob_gas(header)
}

/// The text that names the first field that cannot be had from a prefix.
pub open spec fn refused_field(header: HeaderView) -> Seq<char> {
    if has_access_list(header) {
        "block access list"@
    } else if has_requests(header) {
        "execution requests"@
    } else {
        "blob transactions"@
    }
}

/// Every log of a list of receipts, in order.
pub open spec fn all_logs(receipts: Seq<ReceiptView>) -> Seq<LogView>
    decreases receipts.len(),
{
    if receipts.len() == 0 {
        Seq::empty()
    } else {
        all_logs(receipts.drop_last()) + receipts.last().logs
    }
}

/// The encodings of a list of receipts.
pub open spec fn receipt_encodings(receipts: Seq<ReceiptView>) -> Seq<Seq<u8>> {
    receipts.map_values(|receipt: ReceiptView| receipt.encoded)
}

/// The gas that a list of receipts accounts for: what the last one has accumulated.
pub open spec fn gas_used(receipts: Seq<ReceiptView>) -> u64 {
    if receipts.len() == 0 {
        0
    } else {
        receipts.last().cumulative_gas_used
    }
}

/// What a header commits to that varies with the prefix of executed transactions.
#[derive(Clone, Copy, Debug, PartialEq, Eq)]
pub struct PrefixCommitments {
    /// State root after the prefix.
    pub state_root: B256,
    /// Root of the trie of the prefix's transactions.
    pub transactions_root: B256,
    /// Root of the trie of the prefix's receipts.
    pub receipts_root: B256,
    /// Filter over the prefix's logs.
    pub logs_bloom: Bloom,
    /// Gas used by the prefix.
    pub gas_used: u64,
}

/// What a header commits to of a prefix with these transactions, receipts and state root.
pub open spec fn prefix_commitments(
    transactions: Seq<Seq<u8>>,
    receipts: Seq<ReceiptView>,
    state_root: B256,
) -> PrefixCommitments {
    PrefixCommitments {
        state_root,
        transactions_root: ordered_trie_root(transactions),
        receipts_root: ordered_trie_root(receipt_encodings(receipts)),
        logs_bloom: bloom_of_logs(all_logs(receipts)),
        gas_used: gas_used(receipts),
    }
}

/// The settling block's header with other commitments to the prefix, and without an
/// access list.
pub open spec fn recommitted(settling: HeaderView, prefix: PrefixCommitments) -> HeaderView {
    HeaderView {
        state_root: prefix.state_root,
        transactions_root: prefix.transactions_root,
        receipts_root: prefix.receipts_root,
        logs_bloom: prefix.logs_bloom,
        gas_used: prefix.gas_used,
        block_access_list_hash: None,
        ..settling
    }
}

/// The header of the candidate block for a prefix of the settling block's transactions.
pub open spec fn candidate_header(
    settling: HeaderView,
    transactions: Seq<Seq<u8>>,
    receipts: Seq<ReceiptView>,
    state_root: B256,
) -> HeaderView {
    recommitted(settling, prefix_commitments(transactions, receipts, state_root))
}

/// The root of the trie of transactions.
fn transactions_root(transactions: &[Transaction]) -> (root: B256)
    ensures
        root == ordered_trie_root(encodings(transactions@)),
{
    let mut items: Vec<&Vec<u8>> = Vec::new();
    let mut i: usize = 0;
    while i < transactions.len()
        invariant
            i <= transactions@.len(),
            items@.len() == i,
            forall|j: int| 0 <= j < i ==> (#[trigger] items@[j])@ == transactions@[j].encoded@,
        decreases transactions@.len() - i,
    {
        items.push(&transactions[i].encoded);
        i = i + 1;
    }
    assert(items@.map_values(|item: &Vec<u8>| item@) =~= encodings(transactions@));
    ordered_trie_root_encoded(&items)
}

/// The root of the trie of receipts.
fn receipts_root(receipts: &[Receipt]) -> (root: B256)
    ensures
        root == ordered_trie_root(receipt_encodings(receipt_views(receipts@))),
{
    let mut items: Vec<&Vec<u8>> = Vec::new();
    let mut i: usize = 0;
    while i < receipts.len()
        invariant
            i <= receipts@.len(),
            items@.len() == i,
            forall|j: int| 0 <= j < i ==> (#[trigger] items@[j])@ == receipts@[j].encoded@,
        decreases receipts@.len() - i,
    {
        items.push(&receipts[i].encoded);
        i = i + 1;
    }
    assert(items@.map_values(|item: &Vec<u8>| item@) =~= receipt_encodings(
        receipt_views(receipts@),
    ));
    ordered_trie_root_encoded(&items)
}

/// Appends a reference to each log of a receipt.
fn push_logs<'a>(collected: &mut Vec<&'a Log>, logs: &'a Vec<Log>)
    ensures
        final(collected)@.map_values(|log: &Log| log@) == old(collected)@.map_values(
            |log: &Log| log@,
        ) + log_views(logs@),
{
    let ghost before = collected@.map_values(|log: &Log| log@);
    let mut i: usize = 0;
    assert(before + log_views(logs@).take(0) =~= before);
    while i < logs.len()
        invariant
            i <= logs@.len(),
            collected@.map_values(|log: &Log| log@) == before + log_views(logs@).take(i as int),
        decreases logs@.len() - i,
    {
        let ghost so_far = collected@;
        collected.push(&logs[i]);
        proof {
            assert(collected@.map_values(|log: &Log| log@) =~= so_far.map_values(
                |log: &Log| log@,
            ).push(logs@[i as int]@));
            assert(log_views(logs@).take(i + 1) =~= log_views(logs@).take(i as int).push(
                logs@[i as int]@,
            ));
            assert(before + log_views(logs@).take(i + 1) =~= (before + log_views(logs@).take(
                i as int,
            )).push(logs@[i as int]@));
        }
        i = i + 1;
    }
    assert(log_views(logs@).take(i as int) =~= log_views(logs@));
}

/// The bloom filter over every log of a list of receipts.
fn receipts_bloom(receipts: &[Receipt]) -> (bloom: Bloom)
    ensures
        bloom == bloom_of_logs(all_logs(receipt_views(receipts@))),
{
    let ghost views = receipt_views(receipts@);
    let mut collected: Vec<&Log> = Vec::new();
    let mut i: usize = 0;
    assert(collected@.map_values(|log: &Log| log@) =~= all_logs(views.take(0)));
    while i < receipts.len()
        invariant
            i <= receipts@.len(),
            views == receipt_views(receipts@),
            collected@.map_values(|log: &Log| log@) == all_logs(views.take(i as int)),
        decreases receipts@.len() - i,
    {
        push_logs(&mut collected, &receipts[i].logs);
        proof {
            assert(views.take(i + 1).drop_last() =~= views.take(i as int));
            assert(views.take(i + 1).last() == receipts@[i as int]@);
        }
        i = i + 1;
    }
    assert(views.take(i as int) =~= views);
    logs_bloom(&collected)
}

/// Refuses a header with a field that cannot be had from a prefix: an access list, then
/// execution requests, then blob gas.
pub fn refuse_unreproducible(header: &Header) -> (r: Result<(), StatelessValidationError>)
    ensures
        r is Ok <==> reproducible(header@),
        r matches Err(e) ==> e matches StatelessValidationError::CandidateBlockUnsupportedField(
            field,
        ) && field@ == refused_field(header@),
        header.block_access_list_hash is Some ==> (r
            matches Err(StatelessValidationError::CandidateBlockUnsupportedField(field)) && field@
            == "block access list"@),
        header.block_access_list_hash is None && (header.requests_hash matches Some(hash)
            && hash.0@ != empty_requests_bytes()) ==> (r
            matches Err(StatelessValidationError::CandidateBlockUnsupportedField(field)) && field@
            == "execution requests"@),
        header.block_access_list_hash is None && (header.requests_hash matches Some(hash)
            ==> hash.0@ == empty_requests_bytes()) && (header.blob_gas_used matches Some(used)
            && used != 0) ==> (r
            matches Err(StatelessValidationError::CandidateBlockUnsupportedField(field)) && field@
            == "blob transactions"@),
        header.block_access_list_hash is None && (header.requests_hash matches Some(hash)
            ==> hash.0@ == empty_requests_bytes()) && (header.blob_gas_used matches Some(used)
            ==> used == 0) <==> r is Ok,
{
    if header.block_access_list_hash.is_some() {
        return Err(StatelessValidationError::CandidateBlockUnsupportedField("block access list"));
    }
    if let Some(hash) = header.requests_hash {
        let empty = empty_requests_hash();
        assert(hash == empty <==> hash.0@ == empty.0@) by {
            if hash.0@ == empty.0@ {
                assert(hash.0 =~= empty.0);
            }
        }
        if hash != empty {
            return Err(
                StatelessValidationError::CandidateBlockUnsupportedField("execution requests"),
            );
        }
    }
    if let Some(used) = header.blob_gas_used {
        if used != 0 {
            return Err(
                StatelessValidationError::CandidateBlockUnsupportedField("blob transactions"),
            );
        }
    }
    Ok(())
}

/// Puts a candidate's header together, field by field: nothing is updated in a copy, so a
/// new header field has to be decided on here.
pub fn build_candidate_header(settling: &Header, prefix: PrefixCommitments) -> (candidate: Header)
    ensures
        candidate@ == recommitted(settling@, prefix),
        candidate.state_root == prefix.state_root,
        candidate.transactions_root == prefix.transactions_root,
        candidate.receipts_root == prefix.receipts_root,
        candidate.logs_bloom == prefix.logs_bloom,
        candidate.gas_used == prefix.gas_used,
        candidate.parent_hash == settling.parent_hash,
        candidate.ommers_hash == settling.ommers_hash,
        candidate.beneficiary == settling.beneficiary,
        candidate.difficulty == settling.difficulty,
        candidate.number == settling.number,
        candidate.gas_limit == settling.gas_limit,
        candidate.timestamp == settling.timestamp,
        candidate.extra_data@ == settling.extra_data@,
        candidate.mix_hash == settling.mix_hash,
        candidate.nonce == settling.nonce,
        candidate.base_fee_per_gas == settling.base_fee_per_gas,
        candidate.withdrawals_root == settling.withdrawals_root,
        candidate.blob_gas_used == settling.blob_gas_used,
        candidate.excess_blob_gas == settling.excess_blob_gas,
        candidate.parent_beacon_block_root == settling.parent_beacon_block_root,
        candidate.requests_hash == settling.requests_hash,
        candidate.slot_number == settling.slot_number,
        candidate.block_access_list_hash is None,
{
    let mut extra_data: Vec<u8> = Vec::new();
    extra_data.extend_from_slice(settling.extra_data.as_slice());
    assert(extra_data@ =~= settling.extra_data@);
    Header {
        // Vary with the prefix.
        state_root: prefix.state_root,
        transactions_root: prefix.transactions_root,
        receipts_root: prefix.receipts_root,
        logs_bloom: prefix.logs_bloom,
        gas_used: prefix.gas_used,
        // Zero for every prefix: anything else is refused.
        blob_gas_used: settling.blob_gas_used,
        // Fixed by the parent and the payload attributes, so shared with the settling block.
        parent_hash: settling.parent_hash,
        ommers_hash: settling.ommers_hash,
        beneficiary: settling.beneficiary,
        withdrawals_root: settling.withdrawals_root,
        difficulty: settling.difficulty,
        number: settling.number,
        gas_limit: settling.gas_limit,
        timestamp: settling.timestamp,
        extra_data,
        mix_hash: settling.mix_hash,
        nonce: settling.nonce,
        base_fee_per_gas: settling.base_fee_per_gas,
        excess_blob_gas: settling.excess_blob_gas,
        parent_beacon_block_root: settling.parent_beacon_block_root,
        requests_hash: settling.requests_hash,
        block_access_list_hash: None,
        slot_number: settling.slot_number,
    }
}

/// Seals the candidate block for a prefix of the settling block.
///
/// A settling block with an access list, with execution requests or with blob gas is
/// refused: none of these can be had from a prefix.
pub fn candidate_block_hash(
    settling: &SealedHeader,
    transactions: &[Transaction],
    receipts: &[Receipt],
    state_root: B256,
) -> (r: Result<B256, StatelessValidationError>)
    ensures
        r is Ok <==> reproducible(settling.header@),
        r matches Ok(hash) ==> hash == header_hash(
            candidate_header(
                settling.header@,
                encodings(transactions@),
                receipt_views(receipts@),
                state_root,
            ),
        ),
        r matches Err(e) ==> e matches StatelessValidationError::CandidateBlockUnsupportedField(
            field,
        ) && field@ == refused_field(settling.header@),
        r matches Ok(hash) ==> hash == header_hash(
            (HeaderView {
                parent_hash: settling.header.parent_hash,
                ommers_hash: settling.header.ommers_hash,
                beneficiary: settling.header.beneficiary,
                state_root,
                transactions_root: ordered_trie_root(
                    Seq::new(transactions@.len(), |i: int| transactions@[i].encoded@),
                ),
                receipts_root: ordered_trie_root(
                    Seq::new(receipts@.len(), |i: int| receipts@[i].encoded@),
                ),
                logs_bloom: bloom_of_logs(all_logs(receipt_views(receipts@))),
                difficulty: settling.header.difficulty,
                number: settling.header.number,
                gas_limit: settling.header.gas_limit,
                gas_used: if receipts@.len() == 0 {
                    0
                } else {
                    receipts@[receipts@.len() - 1].cumulative_gas_used
                },
                timestamp: settling.header.timestamp,
                extra_data: settling.header.extra_data@,
                mix_hash: settling.header.mix_hash,
                nonce: settling.header.nonce,
                base_fee_per_gas: settling.header.base_fee_per_gas,
                withdrawals_root: settling.header.withdrawals_root,
                blob_gas_used: settling.header.blob_gas_used,
                excess_blob_gas: settling.header.excess_blob_gas,
                parent_beacon_block_root: settling.header.parent_beacon_block_root,
                requests_hash: settling.header.requests_hash,
                block_access_list_hash: None,
                slot_number: settling.header.slot_number,
            }),
        ),
        settling.header.block_access_list_hash is Some ==> (r
            matches Err(StatelessValidationError::CandidateBlockUnsupportedField(field)) && field@
            == "block access list"@),
        settling.header.block_access_list_hash is None && (settling.header.requests_hash matches Some(hash)
            && hash.0@ != empty_requests_bytes()) ==> (r
            matches Err(StatelessValidationError::CandidateBlockUnsupportedField(field)) && field@
            == "execution requests"@),
        settling.header.block_access_list_hash is None && (settling.header.requests_hash matches Some(hash)
            ==> hash.0@ == empty_requests_bytes()) && (settling.header.blob_gas_used matches Some(used)
            && used != 0) ==> (r
            matches Err(StatelessValidationError::CandidateBlockUnsupportedField(field)) && field@
            == "blob transactions"@),
        settling.header.block_access_list_hash is None && (settling.header.requests_hash matches Some(hash)
            ==> hash.0@ == empty_requests_bytes()) && (settling.header.blob_gas_used matches Some(used)
            ==> used == 0) <==> r is Ok,
{
    match refuse_unreproducible(&settling.header) {
        Ok(()) => {},
        Err(e) => {
            return Err(e);
        },
    }
    let prefix = PrefixCommitments {
        state_root,
        transactions_root: transactions_root(transactions),
        receipts_root: receipts_root(receipts),
        logs_bloom: receipts_bloom(receipts),
        gas_used: if receipts.len() == 0 {
            0
        } else {
            receipts[receipts.len() - 1].cumulative_gas_used
        },
    };
    let candidate = build_candidate_header(&settling.header, prefix);
    proof {
        assert(Seq::new(transactions@.len(), |i: int| transactions@[i].encoded@) =~= encodings(
            transactions@,
        ));
        assert(Seq::new(receipts@.len(), |i: int| receipts@[i].encoded@) =~= receipt_encodings(
            receipt_views(receipts@),
        ));
    }
    Ok(candidate.hash_slow())
}

/// The settling headers agree on every field that does not vary with the prefix.
pub open spec fn same_attributes(a: HeaderView, b: HeaderView) -> bool {
    &&& a.blob_gas_used == b.blob_gas_used
    &&& a.parent_hash == b.parent_hash
    &&& a.ommers_hash == b.ommers_hash
    &&& a.beneficiary == b.beneficiary
    &&& a.withdrawals_root == b.withdrawals_root
    &&& a.difficulty == b.difficulty
    &&& a.number == b.number
    &&& a.gas_limit == b.gas_limit
    &&& a.timestamp == b.timestamp
    &&& a.extra_data == b.extra_data
    &&& a.mix_hash == b.mix_hash
    &&& a.nonce == b.nonce
    &&& a.base_fee_per_gas == b.base_fee_per_gas
    &&& a.excess_blob_gas == b.excess_blob_gas
    &&& a.parent_beacon_block_root == b.parent_beacon_block_root
    &&& a.requests_hash == b.requests_hash
    &&& a.slot_number == b.slot_number
}

/// What a candidate shares with the settling block, and nothing else of that block,
/// enters the candidate: two settling headers give one candidate header exactly if they
/// agree on the shared fields.
pub proof fn law_candidate_inherits_only_attributes(
    a: HeaderView,
    b: HeaderView,
    transactions: Seq<Seq<u8>>,
    receipts: Seq<ReceiptView>,
    state_root: B256,
)
    ensures
        same_attributes(a, b) <==> candidate_header(a, transactions, receipts, state_root)
            == candidate_header(b, transactions, receipts, state_root),
{
}

/// Every commitment to the prefix reaches the candidate header: two prefixes of one settling
/// block give one candidate header exactly if their state roots, transaction roots, receipt
/// roots, log filters and gas totals are the same.
pub proof fn law_candidate_reflects_the_prefix(
    settling: HeaderView,
    a: PrefixCommitments,
    b: PrefixCommitments,
)
    ensures
        recommitted(settling, a) == recommitted(settling, b) <==> {
            &&& a.state_root == b.state_root
            &&& a.transactions_root == b.transactions_root
            &&& a.receipts_root == b.receipts_root
            &&& a.logs_bloom == b.logs_bloom
            &&& a.gas_used == b.gas_used
        },
{
}

/// The candidate for the whole block is the block itself: where the settling header commits
/// to these transactions and receipts and to this state root, and is not refused, the
/// candidate has that very header, and so its hash.
pub proof fn law_full_candidate_is_the_block(
    settling: HeaderView,
    transactions: Seq<Seq<u8>>,
    receipts: Seq<ReceiptView>,
    state_root: B256,
)
    requires
        reproducible(settling),
        settling.state_root == state_root,
        settling.transactions_root == ordered_trie_root(transactions),
        settling.receipts_root == ordered_trie_root(receipt_encodings(receipts)),
        settling.logs_bloom == bloom_of_logs(all_logs(receipts)),
        settling.gas_used == gas_used(receipts),
    ensures
        candidate_header(settling, transactions, receipts, state_root) == settling,
        header_hash(candidate_header(settling, transactions, receipts, state_root)) == header_hash(
            settling,
        ),
{
}

/// A candidate of a block that is not refused is not refused in its turn.
pub proof fn law_candidate_is_reproducible(
    settling: HeaderView,
    transactions: Seq<Seq<u8>>,
    receipts: Seq<ReceiptView>,
    state_root: B256,
)
    requires
        reproducible(settling),
    ensures
        reproducible(candidate_header(settling, transactions, receipts, state_root)),
{
}

/// A header is refused exactly if it has a block access list, commits to execution requests, or
/// records blob gas; the first of these that holds, in this order, is the one that is named. The
/// commitment to no requests is the SHA-256 digest of nothing.
pub proof fn law_refusal_names_the_first_such_field(header: HeaderView)
    ensures
        empty_requests_bytes() == seq![
            0xe3u8, 0xb0, 0xc4, 0x42, 0x98, 0xfc, 0x1c, 0x14, 0x9a, 0xfb, 0xf4, 0xc8, 0x99, 0x6f,
            0xb9, 0x24, 0x27, 0xae, 0x41, 0xe4, 0x64, 0x9b, 0x93, 0x4c, 0xa4, 0x95, 0x99, 0x1b,
            0x78, 0x52, 0xb8, 0x55,
        ],
        reproducible(header) <==> {
            &&& header.block_access_list_hash is None
            &&& header.requests_hash matches Some(hash) ==> hash.0@ == empty_requests_bytes()
            &&& header.blob_gas_used matches Some(used) ==> used == 0
        },
        header.block_access_list_hash is Some ==> refused_field(header) == "block access list"@,
        header.block_access_list_hash is None && (header.requests_hash matches Some(hash)
            && hash.0@ != empty_requests_bytes()) ==> refused_field(header)
            == "execution requests"@,
        header.block_access_list_hash is None && (header.requests_hash matches Some(hash)
            ==> hash.0@ == empty_requests_bytes()) ==> refused_field(header)
            == "blob transactions"@,
{
}

/// The logs of receipts that follow one another follow one another, and the logs of one receipt
/// are all of its logs.
pub proof fn law_all_logs_are_concatenated(
    a: Seq<ReceiptView>,
    b: Seq<ReceiptView>,
    receipt: ReceiptView,
)
    ensures
        all_logs(Seq::<ReceiptView>::empty()) == Seq::<LogView>::empty(),
        all_logs(seq![receipt]) == receipt.logs,
        all_logs(a + b) == all_logs(a) + all_logs(b),
    decreases b.len(),
{
    assert(seq![receipt].drop_last() =~= Seq::<ReceiptView>::empty());
    assert(all_logs(seq![receipt]) =~= receipt.logs) by {
        reveal_with_fuel(all_logs, 2);
    }
    if b.len() == 0 {
        assert(a + b =~= a);
        assert(all_logs(a) + all_logs(b) =~= all_logs(a));
    } else {
        assert((a + b).drop_last() =~= a + b.drop_last());
        law_all_logs_are_concatenated(a, b.drop_last(), receipt);
        assert((all_logs(a) + all_logs(b.drop_last())) + b.last().logs =~= all_logs(a) + (all_logs(
            b.drop_last(),
        ) + b.last().logs));
    }
}

/// Receipts have as many logs as they have one by one.
pub proof fn law_all_logs_counts_every_log(receipts: Seq<ReceiptView>)
    ensures
        all_logs(receipts).len() == sum(
            receipts.map_values(|receipt: ReceiptView| receipt.logs.len()),
        ),
    decreases receipts.len(),
{
    let count = |receipt: ReceiptView| receipt.logs.len();
    if receipts.len() == 0 {
        assert(receipts.map_values(count) =~= Seq::<nat>::empty());
    } else {
        let fewer = receipts.drop_last();
        law_all_logs_counts_every_log(fewer);
        law_sum_adds_up(fewer.map_values(count), Seq::empty(), receipts.last().logs.len());
        assert(receipts.map_values(count) =~= fewer.map_values(count).push(
            receipts.last().logs.len(),
        ));
    }
}

/// Every log of every receipt is covered: the `k`-th log of receipt `r` stands `k` behind all
/// logs of the receipts before it.
pub proof fn law_all_logs_holds_every_log(receipts: Seq<ReceiptView>, r: int, k: int)
    requires
        0 <= r < receipts.len(),
        0 <= k < receipts[r].logs.len(),
    ensures
        all_logs(receipts.take(r)).len() + k < all_logs(receipts).len(),
        all_logs(receipts)[all_logs(receipts.take(r)).len() + k] == receipts[r].logs[k],
{
    let (before, from) = (receipts.take(r), receipts.skip(r));
    let (one, after) = (seq![receipts[r]], receipts.skip(r + 1));
    assert(receipts =~= before + from);
    assert(from =~= one + after);
    law_all_logs_are_concatenated(before, from, receipts[r]);
    law_all_logs_are_concatenated(one, after, receipts[r]);
}

/// What a header commits to of a prefix is made of all of it: the trie over every transaction, the
/// trie over every receipt's encoding, the filter over every log, and the gas that the last
/// receipt has accumulated.
pub proof fn law_commitments_are_to_the_whole_prefix(
    transactions: Seq<Seq<u8>>,
    receipts: Seq<ReceiptView>,
    receipt: ReceiptView,
    state_root: B256,
)
    ensures
        gas_used(Seq::<ReceiptView>::empty()) == 0,
        gas_used(receipts.push(receipt)) == receipt.cumulative_gas_used,
        receipt_encodings(receipts).len() == receipts.len(),
        forall|i: int|
            0 <= i < receipts.len() ==> #[trigger] receipt_encodings(receipts)[i]
                == receipts[i].encoded,
        ({
            let prefix = prefix_commitments(transactions, receipts, state_root);
            &&& prefix.state_root == state_root
            &&& prefix.transactions_root == ordered_trie_root(transactions)
            &&& prefix.receipts_root == ordered_trie_root(receipt_encodings(receipts))
            &&& prefix.logs_bloom == bloom_of_logs(all_logs(receipts))
            &&& prefix.gas_used == gas_used(receipts)
        }),
{
}

/// Field by field, a candidate's header is this: what varies with the prefix is that of the
/// prefix, there is no access list, and the rest is that of the settling block.
pub proof fn law_candidate_header_field_by_field(
    settling: HeaderView,
    transactions: Seq<Seq<u8>>,
    receipts: Seq<ReceiptView>,
    state_root: B256,
)
    ensures
        ({
            let candidate = candidate_header(settling, transactions, receipts, state_root);
            &&& candidate.state_root == state_root
            &&& candidate.transactions_root == ordered_trie_root(transactions)
            &&& candidate.receipts_root == ordered_trie_root(receipt_encodings(receipts))
            &&& candidate.logs_bloom == bloom_of_logs(all_logs(receipts))
            &&& candidate.gas_used == gas_used(receipts)
            &&& candidate.block_access_list_hash is None
            &&& candidate.parent_hash == settling.parent_hash
            &&& candidate.ommers_hash == settling.ommers_hash
            &&& candidate.beneficiary == settling.beneficiary
            &&& candidate.difficulty == settling.difficulty
            &&& candidate.number == settling.number
            &&& candidate.gas_limit == settling.gas_limit
            &&& candidate.timestamp == settling.timestamp
            &&& candidate.extra_data == settling.extra_data
            &&& candidate.mix_hash == settling.mix_hash
            &&& candidate.nonce == settling.nonce
            &&& candidate.base_fee_per_gas == settling.base_fee_per_gas
            &&& candidate.withdrawals_root == settling.withdrawals_root
            &&& candidate.blob_gas_used == settling.blob_gas_used
            &&& candidate.excess_blob_gas == settling.excess_blob_gas
            &&& candidate.parent_beacon_block_root == settling.parent_beacon_block_root
            &&& candidate.requests_hash == settling.requests_hash
            &&& candidate.slot_number == settling.slot_number
        }),
{
}

} // verus!
