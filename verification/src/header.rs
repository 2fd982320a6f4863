//! Block headers as plain values.

use vstd::prelude::*;

use crate::primitives::{Address, Bloom, B256, B64, U256};

verus! {

/// A block header.
#[derive(Clone, Debug, PartialEq, Eq)]
pub struct Header {
    /// Hash of the parent block.
    pub parent_hash: B256,
    /// Hash of the ommers list.
    pub ommers_hash: B256,
    /// Receiver of the block's fees.
    pub beneficiary: Address,
    /// State root after the block.
    pub state_root: B256,
    /// Root of the transaction trie.
    pub transactions_root: B256,
    /// Root of the receipt trie.
    pub receipts_root: B256,
    /// Filter over every log of the block.
    pub logs_bloom: Bloom,
    /// Difficulty.
    pub difficulty: U256,
    /// Number of ancestors.
    pub number: u64,
    /// Gas limit.
    pub gas_limit: u64,
    /// Gas used.
    pub gas_used: u64,
    /// Unix time.
    pub timestamp: u64,
    /// Free-form data.
    pub extra_data: Vec<u8>,
    /// Mix hash, or the randomness beacon's output.
    pub mix_hash: B256,
    /// Proof-of-work nonce.
    pub nonce: B64,
    /// Base fee.
    pub base_fee_per_gas: Option<u64>,
    /// Root of the withdrawals list.
    pub withdrawals_root: Option<B256>,
    /// Blob gas used.
    pub blob_gas_used: Option<u64>,
    /// Excess blob gas before this block.
    pub excess_blob_gas: Option<u64>,
    /// Root of the parent beacon block.
    pub parent_beacon_block_root: Option<B256>,
    /// Commitment to the execution requests.
    pub requests_hash: Option<B256>,
    /// Hash of the block access list.
    pub block_access_list_hash: Option<B256>,
    /// Slot number.
    pub slot_number: Option<u64>,
}

/// The fields of a [`Header`], with `extra_data` as a sequence of bytes.
#[verifier::ext_equal]
pub struct HeaderView {
    pub parent_hash: B256,
    pub ommers_hash: B256,
    pub beneficiary: Address,
    pub state_root: B256,
    pub transactions_root: B256,
    pub receipts_root: B256,
    pub logs_bloom: Bloom,
    pub difficulty: U256,
    pub number: u64,
    pub gas_limit: u64,
    pub gas_used: u64,
    pub timestamp: u64,
    pub extra_data: Seq<u8>,
    pub mix_hash: B256,
    pub nonce: B64,
    pub base_fee_per_gas: Option<u64>,
    pub withdrawals_root: Option<B256>,
    pub blob_gas_used: Option<u64>,
    pub excess_blob_gas: Option<u64>,
    pub parent_beacon_block_root: Option<B256>,
    pub requests_hash: Option<B256>,
    pub block_access_list_hash: Option<B256>,
    pub slot_number: Option<u64>,
}

impl View for Header {
    type V = HeaderView;

    open spec fn view(&self) -> HeaderView {
        HeaderView {
            parent_hash: self.parent_hash,
            ommers_hash: self.ommers_hash,
            beneficiary: self.beneficiary,
            state_root: self.state_root,
            transactions_root: self.transactions_root,
            receipts_root: self.receipts_root,
            logs_bloom: self.logs_bloom,
            difficulty: self.difficulty,
            number: self.number,
            gas_limit: self.gas_limit,
            gas_used: self.gas_used,
            timestamp: self.timestamp,
            extra_data: self.extra_data@,
            mix_hash: self.mix_hash,
            nonce: self.nonce,
            base_fee_per_gas: self.base_fee_per_gas,
            withdrawals_root: self.withdrawals_root,
            blob_gas_used: self.blob_gas_used,
            excess_blob_gas: self.excess_blob_gas,
            parent_beacon_block_root: self.parent_beacon_block_root,
            requests_hash: self.requests_hash,
            block_access_list_hash: self.block_access_list_hash,
            slot_number: self.slot_number,
        }
    }
}

/// The hash that seals a header: the Keccak-256 digest of its RLP encoding.
pub uninterp spec fn header_hash(header: HeaderView) -> B256;

/// Calls `alloy_consensus::Header::hash_slow` on a header with these fields,
/// each of which is named, so that a field added there fails the build here.
/// The hash is a function of the fields alone.
#[verifier::external_body]
fn header_hash_slow(
    parent_hash: B256,
    ommers_hash: B256,
    beneficiary: Address,
    state_root: B256,
    transactions_root: B256,
    receipts_root: B256,
    logs_bloom: Bloom,
    difficulty: U256,
    number: u64,
    gas_limit: u64,
    gas_used: u64,
    timestamp: u64,
    extra_data: Vec<u8>,
    mix_hash: B256,
    nonce: B64,
    base_fee_per_gas: Option<u64>,
    withdrawals_root: Option<B256>,
    blob_gas_used: Option<u64>,
    excess_blob_gas: Option<u64>,
    parent_beacon_block_root: Option<B256>,
    requests_hash: Option<B256>,
    block_access_list_hash: Option<B256>,
    slot_number: Option<u64>,
) -> (hash: B256)
    ensures
        hash == header_hash(
            (HeaderView {
                parent_hash,
                ommers_hash,
                beneficiary,
                state_root,
                transactions_root,
                receipts_root,
                logs_bloom,
                difficulty,
                number,
                gas_limit,
                gas_used,
                timestamp,
                extra_data: extra_data@,
                mix_hash,
                nonce,
                base_fee_per_gas,
                withdrawals_root,
                blob_gas_used,
                excess_blob_gas,
                parent_beacon_block_root,
                requests_hash,
                block_access_list_hash,
                slot_number,
            }),
        ),
{
    let h = |b: B256| alloy_primitives::B256::from(b.0);
    let header = alloy_consensus::Header {
        parent_hash: h(parent_hash), ommers_hash: h(ommers_hash), state_root: h(state_root),
        transactions_root: h(transactions_root), receipts_root: h(receipts_root),
        mix_hash: h(mix_hash), withdrawals_root: withdrawals_root.map(h),
        parent_beacon_block_root: parent_beacon_block_root.map(h),
        requests_hash: requests_hash.map(h), block_access_list_hash: block_access_list_hash.map(h),
        beneficiary: beneficiary.0.into(), logs_bloom: logs_bloom.0.into(), nonce: nonce.0.into(),
        difficulty: alloy_primitives::U256::from_be_bytes(difficulty.0),
        extra_data: extra_data.into(), number, gas_limit, gas_used, timestamp,
        base_fee_per_gas, blob_gas_used, excess_blob_gas, slot_number,
    };
    B256(header.hash_slow().0)
}

impl Header {
    /// The hash of this header.
    pub fn hash_slow(&self) -> (hash: B256)
        ensures
            hash == header_hash(self@),
    {
        let mut extra_data: Vec<u8> = Vec::new();
        extra_data.extend_from_slice(self.extra_data.as_slice());
        assert(extra_data@ =~= self.extra_data@);
        header_hash_slow(
            self.parent_hash,
            self.ommers_hash,
            self.beneficiary,
            self.state_root,
            self.transactions_root,
            self.receipts_root,
            self.logs_bloom,
            self.difficulty,
            self.number,
            self.gas_limit,
            self.gas_used,
            self.timestamp,
            extra_data,
            self.mix_hash,
            self.nonce,
            self.base_fee_per_gas,
            self.withdrawals_root,
            self.blob_gas_used,
            self.excess_blob_gas,
            self.parent_beacon_block_root,
            self.requests_hash,
            self.block_access_list_hash,
            self.slot_number,
        )
    }
}

/// A header together with the hash it is known by.
#[derive(Clone, Debug, PartialEq, Eq)]
pub struct SealedHeader {
    /// The header.
    pub header: Header,
    /// Its hash.
    pub hash: B256,
}

/// The parts of a [`SealedHeader`].
#[verifier::ext_equal]
pub struct SealedHeaderView {
    pub header: HeaderView,
    pub hash: B256,
}

impl View for SealedHeader {
    type V = SealedHeaderView;

    open spec fn view(&self) -> SealedHeaderView {
        SealedHeaderView { header: self.header@, hash: self.hash }
    }
}

/// The parts of each header of a list.
pub open spec fn sealed_views(headers: Seq<SealedHeader>) -> Seq<SealedHeaderView> {
    headers.map_values(|header: SealedHeader| header@)
}

impl SealedHeader {
    /// Seals a header with the hash computed from its fields.
    pub fn seal_slow(header: Header) -> (sealed: SealedHeader)
        ensures
            sealed.header == header,
            sealed.hash == header_hash(header@),
    {
        let hash = header.hash_slow();
        SealedHeader { header, hash }
    }
}

/// Nothing of a header is lost or moved in its view, so that a hash over the view is one over
/// every field.
pub proof fn law_header_view_keeps_every_field(header: Header)
    ensures
        header@.parent_hash == header.parent_hash,
        header@.ommers_hash == header.ommers_hash,
        header@.beneficiary == header.beneficiary,
        header@.state_root == header.state_root,
        header@.transactions_root == header.transactions_root,
        header@.receipts_root == header.receipts_root,
        header@.logs_bloom == header.logs_bloom,
        header@.difficulty == header.difficulty,
        header@.number == header.number,
        header@.gas_limit == header.gas_limit,
        header@.gas_used == header.gas_used,
        header@.timestamp == header.timestamp,
        header@.extra_data == header.extra_data@,
        header@.mix_hash == header.mix_hash,
        header@.nonce == header.nonce,
        header@.base_fee_per_gas == header.base_fee_per_gas,
        header@.withdrawals_root == header.withdrawals_root,
        header@.blob_gas_used == header.blob_gas_used,
        header@.excess_blob_gas == header.excess_blob_gas,
        header@.parent_beacon_block_root == header.parent_beacon_block_root,
        header@.requests_hash == header.requests_hash,
        header@.block_access_list_hash == header.block_access_list_hash,
        header@.slot_number == header.slot_number,
{
}

/// Nothing of a list of sealed headers is lost or moved in its views.
pub proof fn law_sealed_views_keep_every_header(headers: Seq<SealedHeader>)
    ensures
        sealed_views(headers).len() == headers.len(),
        forall|i: int|
            0 <= i < headers.len() ==> {
                let view = #[trigger] sealed_views(headers)[i];
                &&& view.header == headers[i].header@
                &&& view.hash == headers[i].hash
            },
{
}

} // verus!
