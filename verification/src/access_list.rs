//! The block access list that execution produced (EIP-7928).

use alloy_eips::eip7928;
use vstd::prelude::*;

use crate::error::StatelessValidationError;
use crate::primitives::{Address, B256, U256};

verus! {

/// A value that a storage slot takes in the course of the block.
#[derive(Clone, Copy, Debug, PartialEq, Eq)]
pub struct StorageChange {
    /// When: 0 before the transactions, then 1 for the first transaction and so on.
    pub block_access_index: u64,
    /// The value.
    pub new_value: U256,
}

/// The values that one storage slot takes.
#[derive(Clone, Debug, PartialEq, Eq)]
pub struct SlotAccess {
    /// The slot.
    pub slot: U256,
    /// Its values.
    pub changes: Vec<StorageChange>,
}

/// A balance that an account takes.
#[derive(Clone, Copy, Debug, PartialEq, Eq)]
pub struct BalanceChange {
    /// When.
    pub block_access_index: u64,
    /// The balance.
    pub post_balance: U256,
}

/// A nonce that an account takes.
#[derive(Clone, Copy, Debug, PartialEq, Eq)]
pub struct NonceChange {
    /// When.
    pub block_access_index: u64,
    /// The nonce.
    pub new_nonce: u64,
}

/// Code that an account takes.
#[derive(Clone, Debug, PartialEq, Eq)]
pub struct CodeChange {
    /// When.
    pub block_access_index: u64,
    /// The code.
    pub new_code: Vec<u8>,
}

/// What the block accesses of one account.
#[derive(Clone, Debug, PartialEq, Eq)]
pub struct AccountAccess {
    /// The account.
    pub address: Address,
    /// The storage slots that change.
    pub storage_changes: Vec<SlotAccess>,
    /// The storage slots that are only read.
    pub storage_reads: Vec<U256>,
    /// The balances.
    pub balance_changes: Vec<BalanceChange>,
    /// The nonces.
    pub nonce_changes: Vec<NonceChange>,
    /// The code.
    pub code_changes: Vec<CodeChange>,
}

/// The parts of a [`SlotAccess`].
#[verifier::ext_equal]
pub struct SlotAccessView {
    pub slot: U256,
    pub changes: Seq<StorageChange>,
}

impl View for SlotAccess {
    type V = SlotAccessView;

    open spec fn view(&self) -> SlotAccessView {
        SlotAccessView { slot: self.slot, changes: self.changes@ }
    }
}

/// The parts of a [`CodeChange`].
#[verifier::ext_equal]
pub struct CodeChangeView {
    pub block_access_index: u64,
    pub new_code: Seq<u8>,
}

impl View for CodeChange {
    type V = CodeChangeView;

    open spec fn view(&self) -> CodeChangeView {
        CodeChangeView {
            block_access_index: self.block_access_index,
            new_code: self.new_code@,
        }
    }
}

/// The parts of an [`AccountAccess`].
#[verifier::ext_equal]
pub struct AccountAccessView {
    pub address: Address,
    pub storage_changes: Seq<SlotAccessView>,
    pub storage_reads: Seq<U256>,
    pub balance_changes: Seq<BalanceChange>,
    pub nonce_changes: Seq<NonceChange>,
    pub code_changes: Seq<CodeChangeView>,
}

impl View for AccountAccess {
    type V = AccountAccessView;

    open spec fn view(&self) -> AccountAccessView {
        AccountAccessView {
            address: self.address,
            storage_changes: self.storage_changes@.map_values(|slot: SlotAccess| slot@),
            storage_reads: self.storage_reads@,
            balance_changes: self.balance_changes@,
            nonce_changes: self.nonce_changes@,
            code_changes: self.code_changes@.map_values(|code: CodeChange| code@),
        }
    }
}

/// `alloy_eips::eip7928::SlotChanges`, the outside form of [`SlotAccess`].
#[verifier::external_type_specification]
#[verifier::external_body]
pub struct ExSlotChanges(eip7928::SlotChanges);

/// `alloy_eips::eip7928::AccountChanges`, the outside form of [`AccountAccess`].
#[verifier::external_type_specification]
#[verifier::external_body]
pub struct ExAccountChanges(eip7928::AccountChanges);

/// What the outside form of a list of slots holds.
pub uninterp spec fn slots_held(slots: Seq<eip7928::SlotChanges>) -> Seq<SlotAccessView>;

/// What the outside form of an account's entry holds.
pub uninterp spec fn account_held(account: eip7928::AccountChanges) -> AccountAccessView;

/// The hash that a header commits to an access list with: the Keccak-256 digest of the
/// list's RLP encoding.
pub uninterp spec fn access_list_hash(list: Seq<AccountAccessView>) -> B256;

/// Makes an `alloy_eips::eip7928::SlotChanges` of each slot; the list made holds the slots
/// given, value for value.
#[verifier::external_body]
fn outside_slots(slots: &Vec<SlotAccess>) -> (outside: Vec<eip7928::SlotChanges>)
    ensures
        slots_held(outside@) == slots@.map_values(|slot: SlotAccess| slot@),
{
    let word = |value: &U256| alloy_primitives::U256::from_be_bytes(value.0);
    slots.iter().map(|s| eip7928::SlotChanges::new(
        word(&s.slot),
        s.changes.iter().map(|c| eip7928::StorageChange::new(
            eip7928::BlockAccessIndex(c.block_access_index), word(&c.new_value))).collect(),
    )).collect()
}

/// Makes an `alloy_eips::eip7928::AccountChanges` of an account's entry and the outside form
/// of its slots; the entry made holds these, value for value.
#[verifier::external_body]
fn outside_account(account: &AccountAccess, slots: Vec<eip7928::SlotChanges>) -> (outside:
    eip7928::AccountChanges)
    ensures
        account_held(outside) == (AccountAccessView {
            storage_changes: slots_held(slots@),
            ..account@
        }),
{
    let word = |value: &U256| alloy_primitives::U256::from_be_bytes(value.0);
    let at = eip7928::BlockAccessIndex;
    eip7928::AccountChanges {
        address: account.address.0.into(),
        storage_changes: slots,
        storage_reads: account.storage_reads.iter().map(word).collect(),
        balance_changes: account.balance_changes.iter().map(|c| eip7928::BalanceChange::new(
            at(c.block_access_index), word(&c.post_balance))).collect(),
        nonce_changes: account.nonce_changes.iter().map(|c| eip7928::NonceChange::new(
            at(c.block_access_index), c.new_nonce)).collect(),
        code_changes: account.code_changes.iter().map(|c| eip7928::CodeChange::new(
            at(c.block_access_index), c.new_code.clone().into())).collect(),
    }
}

/// The sum of a list of numbers.
pub open spec fn sum(counts: Seq<nat>) -> nat
    decreases counts.len(),
{
    if counts.len() == 0 {
        0
    } else {
        sum(counts.drop_last()) + counts.last()
    }
}

/// Calls `alloy_eips::eip7928::total_bal_items`, which counts each account, and each changed
/// and each read slot of each account. All of these lie in memory, so their number fits.
#[verifier::external_body]
fn total_bal_items(list: &Vec<eip7928::AccountChanges>) -> (items: u64)
    ensures
        items == sum(
            list@.map_values(
                |account: eip7928::AccountChanges|
                    1 + account_held(account).storage_changes.len() + account_held(
                        account,
                    ).storage_reads.len(),
            ),
        ),
{
    eip7928::total_bal_items(list.as_slice())
}

/// Calls `alloy_eips::eip7928::compute_block_access_list_hash`: the hash is a function of what
/// the list holds.
#[verifier::external_body]
fn compute_block_access_list_hash(list: &Vec<eip7928::AccountChanges>) -> (hash: B256)
    ensures
        hash == access_list_hash(
            list@.map_values(|account: eip7928::AccountChanges| account_held(account)),
        ),
{
    B256(eip7928::compute_block_access_list_hash(list.as_slice()).0)
}

/// Reads the constant `alloy_eips::eip7928::ITEM_COST`, the gas that stands for one item.
#[verifier::external_body]
fn item_cost() -> (cost: u64)
    ensures
        cost == 2000,
{
    eip7928::ITEM_COST as u64
}

/// The parts of each entry of an optional access list.
pub open spec fn entries(list: Option<Vec<AccountAccess>>) -> Option<Seq<AccountAccessView>> {
    match list {
        Some(accounts) => Some(accounts@.map_values(|account: AccountAccess| account@)),
        None => None,
    }
}

/// The number of items in an access list: one for each account, one for each slot of it that
/// changes and one for each slot of it that is only read.
pub open spec fn item_count(list: Seq<AccountAccessView>) -> nat {
    sum(
        list.map_values(
            |account: AccountAccessView|
                1 + account.storage_changes.len() + account.storage_reads.len(),
        ),
    )
}

/// How many access list items a block with this gas limit may produce.
pub open spec fn item_limit(gas_limit: u64) -> u64 {
    gas_limit / 2000
}

/// The access list, if there is one, keeps to the limit.
pub open spec fn within_item_limit(gas_limit: u64, list: Option<Seq<AccountAccessView>>) -> bool {
    list matches Some(accounts) ==> item_count(accounts) <= item_limit(gas_limit)
}

/// The error says that the access list has more items than the block may produce, with both
/// numbers.
pub open spec fn limit_exceeded(
    gas_limit: u64,
    list: Option<Seq<AccountAccessView>>,
    e: StatelessValidationError,
) -> bool {
    &&& list matches Some(accounts)
    &&& e matches StatelessValidationError::BlockAccessListGasLimitExceeded { items, limit }
    &&& items == item_count(accounts)
    &&& limit == item_limit(gas_limit)
    &&& items > limit
}

/// The hash of an optional access list.
pub open spec fn commitment(list: Option<Seq<AccountAccessView>>) -> Option<B256> {
    match list {
        Some(accounts) => Some(access_list_hash(accounts)),
        None => None,
    }
}

/// The outside form of an access list.
fn outside_list(list: &Vec<AccountAccess>) -> (outside: Vec<eip7928::AccountChanges>)
    ensures
        outside@.map_values(|account: eip7928::AccountChanges| account_held(account))
            == list@.map_values(|account: AccountAccess| account@),
{
    let mut outside: Vec<eip7928::AccountChanges> = Vec::new();
    let mut i: usize = 0;
    while i < list.len()
        invariant
            i <= list@.len(),
            outside@.len() == i,
            forall|j: int| 0 <= j < i ==> account_held(#[trigger] outside@[j]) == list@[j]@,
        decreases list@.len() - i,
    {
        let account = &list[i];
        let entry = outside_account(account, outside_slots(&account.storage_changes));
        assert(account_held(entry) == account@);
        outside.push(entry);
        i = i + 1;
    }
    assert(outside@.map_values(|account: eip7928::AccountChanges| account_held(account))
        =~= list@.map_values(|account: AccountAccess| account@));
    outside
}

/// Holds a number of access list items against the block's gas limit.
pub fn validate_item_count(items: u64, gas_limit: u64) -> (r: Result<(), StatelessValidationError>)
    ensures
        r is Ok <==> items <= item_limit(gas_limit),
        r matches Err(e) ==> e == (StatelessValidationError::BlockAccessListGasLimitExceeded {
            items,
            limit: item_limit(gas_limit),
        }),
        r is Ok <==> items * 2000 <= gas_limit,
        r matches Err(e) ==> (e
            matches StatelessValidationError::BlockAccessListGasLimitExceeded { items: n, limit }
            && n == items && limit * 2000 <= gas_limit < (limit + 1) * 2000),
{
    let limit: u64 = gas_limit / item_cost();
    if items > limit {
        return Err(StatelessValidationError::BlockAccessListGasLimitExceeded { items, limit });
    }
    Ok(())
}

/// Holds the access list that execution produced against the block's gas limit, and hands
/// back the hash that the header is to commit to it with.
pub fn validate_block_access_list(
    gas_limit: u64,
    block_access_list: &Option<Vec<AccountAccess>>,
) -> (r: Result<Option<B256>, StatelessValidationError>)
    ensures
        r is Ok <==> within_item_limit(gas_limit, entries(*block_access_list)),
        r matches Ok(hash) ==> hash == commitment(entries(*block_access_list)),
        r matches Err(e) ==> limit_exceeded(gas_limit, entries(*block_access_list), e),
        *block_access_list is None ==> r == Ok::<Option<B256>, StatelessValidationError>(None),
        *block_access_list matches Some(list) ==> {
            let views = list@.map_values(|account: AccountAccess| account@);
            &&& item_count(views) * 2000 <= gas_limit ==> r == Ok::<
                Option<B256>,
                StatelessValidationError,
            >(Some(access_list_hash(views)))
            &&& item_count(views) * 2000 > gas_limit ==> (r
                matches Err(StatelessValidationError::BlockAccessListGasLimitExceeded {
                items,
                limit,
            }) && items == item_count(views) && limit * 2000 <= gas_limit < (limit + 1) * 2000)
        },
{
    match block_access_list {
        Some(list) => {
            let outside = outside_list(list);
            let items: u64 = total_bal_items(&outside);
            proof {
                let held = outside@.map_values(
                    |account: eip7928::AccountChanges| account_held(account),
                );
                assert(outside@.map_values(
                    |account: eip7928::AccountChanges|
                        1 + account_held(account).storage_changes.len() + account_held(
                            account,
                        ).storage_reads.len(),
                ) =~= held.map_values(
                    |account: AccountAccessView|
                        1 + account.storage_changes.len() + account.storage_reads.len(),
                ));
            }
            match validate_item_count(items, gas_limit) {
                Ok(()) => Ok(Some(compute_block_access_list_hash(&outside))),
                Err(e) => Err(e),
            }
        },
        None => Ok(None),
    }
}

/// Nothing of an account's entry is lost or moved in its view.
pub proof fn law_entry_view_keeps_every_part(account: AccountAccess)
    ensures
        account@.address == account.address,
        account@.storage_changes.len() == account.storage_changes@.len(),
        forall|i: int|
            0 <= i < account.storage_changes@.len() ==> {
                let view = #[trigger] account@.storage_changes[i];
                &&& view.slot == account.storage_changes@[i].slot
                &&& view.changes == account.storage_changes@[i].changes@
            },
        account@.storage_reads == account.storage_reads@,
        account@.balance_changes == account.balance_changes@,
        account@.nonce_changes == account.nonce_changes@,
        account@.code_changes.len() == account.code_changes@.len(),
        forall|i: int|
            0 <= i < account.code_changes@.len() ==> {
                let view = #[trigger] account@.code_changes[i];
                &&& view.block_access_index == account.code_changes@[i].block_access_index
                &&& view.new_code == account.code_changes@[i].new_code@
            },
{
}

/// Every entry of a list stands in its view, at its own position, also one without changes or
/// reads; and there is a view exactly if there is a list.
pub proof fn law_list_view_keeps_every_entry(list: Option<Vec<AccountAccess>>)
    ensures
        entries(list) is Some <==> list is Some,
        list matches Some(accounts) ==> {
            &&& (entries(list)->0).len() == accounts@.len()
            &&& forall|i: int|
                0 <= i < accounts@.len() ==> #[trigger] (entries(list)->0)[i] == accounts@[i]@
        },
{
}

/// The hash handed on is that of the whole list, and there is one exactly if there is a list.
pub proof fn law_commitment_is_to_the_whole_list(list: Seq<AccountAccessView>)
    ensures
        commitment(Some(list)) == Some(access_list_hash(list)),
        commitment(None) == None::<B256>,
{
}

/// Adding a number to a list adds it to the sum, wherever it stands.
pub proof fn law_sum_adds_up(counts: Seq<nat>, more: Seq<nat>, count: nat)
    ensures
        sum(Seq::<nat>::empty()) == 0,
        sum(counts.push(count)) == sum(counts) + count,
        sum(counts + more) == sum(counts) + sum(more),
    decreases more.len(),
{
    assert(counts.push(count).drop_last() =~= counts);
    if more.len() == 0 {
        assert(counts + more =~= counts);
    } else {
        assert((counts + more).drop_last() =~= counts + more.drop_last());
        law_sum_adds_up(counts, more.drop_last(), count);
    }
}

/// An account adds one item for itself and one for each of its changed and read slots, whatever
/// else stands in the list and whatever else is recorded of it.
pub proof fn law_items_add_up(list: Seq<AccountAccessView>, account: AccountAccessView)
    ensures
        item_count(Seq::<AccountAccessView>::empty()) == 0,
        item_count(list.push(account)) == item_count(list) + 1 + account.storage_changes.len()
            + account.storage_reads.len(),
        item_count(list) >= list.len(),
    decreases list.len(),
{
    let count = |account: AccountAccessView|
        1 + account.storage_changes.len() + account.storage_reads.len();
    let counts = list.map_values(count);
    assert(Seq::<AccountAccessView>::empty().map_values(count) =~= Seq::<nat>::empty());
    assert(list.push(account).map_values(count) =~= counts.push(count(account)));
    law_sum_adds_up(counts, Seq::empty(), count(account));
    if list.len() > 0 {
        law_items_add_up(list.drop_last(), list.last());
        assert(list.drop_last().push(list.last()) =~= list);
    }
}

/// A list keeps to the limit exactly if the gas limit pays 2000 for each of its items; no list
/// always does. A list over the limit is reported with its items and with the most items that
/// the gas limit pays for.
pub proof fn law_the_gas_limit_pays_for_every_item(
    gas_limit: u64,
    list: Seq<AccountAccessView>,
    e: StatelessValidationError,
)
    ensures
        item_limit(gas_limit) * 2000 <= gas_limit < (item_limit(gas_limit) + 1) * 2000,
        within_item_limit(gas_limit, None),
        within_item_limit(gas_limit, Some(list)) <==> item_count(list) * 2000 <= gas_limit,
        !limit_exceeded(gas_limit, None, e),
        limit_exceeded(gas_limit, Some(list), e) <==> (e
            matches StatelessValidationError::BlockAccessListGasLimitExceeded { items, limit }
            && items == item_count(list) && items * 2000 > gas_limit && limit * 2000 <= gas_limit
            < (limit + 1) * 2000),
{
}

} // verus!
