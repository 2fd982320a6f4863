//! Transaction receipts and the logs they carry.

use vstd::prelude::*;

use crate::primitives::{Address, Bloom, B256};

verus! {

/// An event emitted during execution.
#[derive(Clone, Debug, PartialEq, Eq)]
pub struct Log {
    /// The emitting contract.
    pub address: Address,
    /// The indexed topics.
    pub topics: Vec<B256>,
    /// The plain data.
    pub data: Vec<u8>,
}

/// The parts of a [`Log`].
#[verifier::ext_equal]
pub struct LogView {
    pub address: Address,
    pub topics: Seq<B256>,
    pub data: Seq<u8>,
}

impl View for Log {
    type V = LogView;

    open spec fn view(&self) -> LogView {
        LogView { address: self.address, topics: self.topics@, data: self.data@ }
    }
}

/// The parts of each log of a list.
pub open spec fn log_views(logs: Seq<Log>) -> Seq<LogView> {
    logs.map_values(|log: Log| log@)
}

/// What a block commits to of one executed transaction.
///
/// The encoding is the receipt's own, so that receipts of any transaction type
/// keep their format.
#[derive(Clone, Debug, PartialEq, Eq)]
pub struct Receipt {
    /// The EIP-2718 encoding, with the bloom over the receipt's logs.
    pub encoded: Vec<u8>,
    /// Gas used in the block up to and including this transaction.
    pub cumulative_gas_used: u64,
    /// The emitted logs.
    pub logs: Vec<Log>,
}

/// The parts of a [`Receipt`].
#[verifier::ext_equal]
pub struct ReceiptView {
    pub encoded: Seq<u8>,
    pub cumulative_gas_used: u64,
    pub logs: Seq<LogView>,
}

impl View for Receipt {
    type V = ReceiptView;

    open spec fn view(&self) -> ReceiptView {
        ReceiptView {
            encoded: self.encoded@,
            cumulative_gas_used: self.cumulative_gas_used,
            logs: log_views(self.logs@),
        }
    }
}

/// The parts of each receipt of a list.
pub open spec fn receipt_views(receipts: Seq<Receipt>) -> Seq<ReceiptView> {
    receipts.map_values(|receipt: Receipt| receipt@)
}

/// The transaction types of Ethereum.
#[derive(Clone, Copy, Debug, PartialEq, Eq)]
pub enum TxType {
    Legacy,
    Eip2930,
    Eip1559,
    Eip4844,
    Eip7702,
}

/// The receipt of an Ethereum transaction.
#[derive(Clone, Debug, PartialEq, Eq)]
pub struct EthereumReceipt {
    /// The transaction's type.
    pub tx_type: TxType,
    /// Whether execution succeeded.
    pub success: bool,
    /// Gas used in the block up to and including this transaction.
    pub cumulative_gas_used: u64,
    /// The emitted logs.
    pub logs: Vec<Log>,
}

/// The EIP-2718 encoding of an Ethereum receipt together with the bloom over its logs.
pub uninterp spec fn receipt_encoding(
    tx_type: TxType,
    success: bool,
    cumulative_gas_used: u64,
    logs: Seq<LogView>,
) -> Seq<u8>;

/// The bloom filter over the addresses and topics of a list of logs.
pub uninterp spec fn bloom_of_logs(logs: Seq<LogView>) -> Bloom;

/// Calls `TxReceipt::with_bloom_ref` on an `alloy_consensus::EthereumReceipt` with
/// these fields and `Encodable2718::encoded_2718` on what it gives: the encoding is a
/// function of the fields alone.
#[verifier::external_body]
fn encoded_with_bloom(receipt: &EthereumReceipt) -> (encoded: Vec<u8>)
    ensures
        encoded@ == receipt_encoding(
            receipt.tx_type,
            receipt.success,
            receipt.cumulative_gas_used,
            log_views(receipt.logs@),
        ),
{
    let tx_type = match receipt.tx_type {
        TxType::Legacy => alloy_consensus::TxType::Legacy,
        TxType::Eip2930 => alloy_consensus::TxType::Eip2930,
        TxType::Eip1559 => alloy_consensus::TxType::Eip1559,
        TxType::Eip4844 => alloy_consensus::TxType::Eip4844,
        TxType::Eip7702 => alloy_consensus::TxType::Eip7702,
    };
    let logs = receipt.logs.iter().map(|log| alloy_primitives::Log::new_unchecked(
        log.address.0.into(), log.topics.iter().map(|t| t.0.into()).collect(),
        log.data.clone().into())).collect();
    let (success, cumulative_gas_used) = (receipt.success, receipt.cumulative_gas_used);
    let receipt = alloy_consensus::EthereumReceipt { tx_type, success, cumulative_gas_used, logs };
    alloy_eips::Encodable2718::encoded_2718(&alloy_consensus::TxReceipt::with_bloom_ref(&receipt))
}

impl EthereumReceipt {
    /// What a block commits to of this receipt.
    pub fn into_receipt(self) -> (receipt: Receipt)
        ensures
            receipt@ == (ReceiptView {
                encoded: receipt_encoding(
                    self.tx_type,
                    self.success,
                    self.cumulative_gas_used,
                    log_views(self.logs@),
                ),
                cumulative_gas_used: self.cumulative_gas_used,
                logs: log_views(self.logs@),
            }),
            receipt.encoded@ == receipt_encoding(
                self.tx_type,
                self.success,
                self.cumulative_gas_used,
                log_views(self.logs@),
            ),
            receipt.cumulative_gas_used == self.cumulative_gas_used,
            receipt.logs == self.logs,
    {
        let encoded = encoded_with_bloom(&self);
        Receipt { encoded, cumulative_gas_used: self.cumulative_gas_used, logs: self.logs }
    }
}

/// Calls `reth_primitives_traits::logs_bloom`: the filter is a function of the logs,
/// in their order.
#[verifier::external_body]
pub(crate) fn logs_bloom(logs: &Vec<&Log>) -> (bloom: Bloom)
    ensures
        bloom == bloom_of_logs(logs@.map_values(|log: &Log| log@)),
{
    let logs: Vec<alloy_primitives::Log> = logs.iter().map(
        |log| alloy_primitives::Log::new_unchecked(
            log.address.0.into(),
            log.topics.iter().map(|topic| topic.0.into()).collect(),
            log.data.clone().into(),
        ),
    ).collect();
    Bloom(reth_primitives_traits::logs_bloom(&logs).0.0)
}

/// Nothing of a receipt or of its logs is lost or moved in its view.
pub proof fn law_receipt_view_keeps_every_part(receipt: Receipt)
    ensures
        receipt@.encoded == receipt.encoded@,
        receipt@.cumulative_gas_used == receipt.cumulative_gas_used,
        receipt@.logs.len() == receipt.logs@.len(),
        forall|k: int|
            0 <= k < receipt.logs@.len() ==> {
                let view = #[trigger] receipt@.logs[k];
                &&& view.address == receipt.logs@[k].address
                &&& view.topics == receipt.logs@[k].topics@
                &&& view.data == receipt.logs@[k].data@
            },
{
}

/// Nothing of a list of logs, or of a list of receipts, is lost or moved in its views.
pub proof fn law_list_views_keep_every_item(logs: Seq<Log>, receipts: Seq<Receipt>)
    ensures
        log_views(logs).len() == logs.len(),
        forall|i: int| 0 <= i < logs.len() ==> #[trigger] log_views(logs)[i] == logs[i]@,
        receipt_views(receipts).len() == receipts.len(),
        forall|i: int|
            0 <= i < receipts.len() ==> #[trigger] receipt_views(receipts)[i] == receipts[i]@,
{
}

} // verus!
