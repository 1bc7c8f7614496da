//! What a subscriber asks for.

use crate::data_slice::SubscribeRequestAccountsDataSlice;
use crate::named::Named;
use vstd::prelude::*;

verus! {

/// A subscription: filters of every kind, by name.
#[derive(Debug, Default)]
pub struct SubscribeRequest {
    pub accounts: Named<SubscribeRequestFilterAccounts>,
    pub slots: Named<SubscribeRequestFilterSlots>,
    pub transactions: Named<SubscribeRequestFilterTransactions>,
    pub transactions_status: Named<SubscribeRequestFilterTransactions>,
    pub blocks: Named<SubscribeRequestFilterBlocks>,
    pub blocks_meta: Named<SubscribeRequestFilterBlocksMeta>,
    pub entry: Named<SubscribeRequestFilterEntry>,
    pub commitment: Option<i32>,
    pub accounts_data_slice: Vec<SubscribeRequestAccountsDataSlice>,
    pub ping: Option<SubscribeRequestPing>,
    /// The slot from which the stream is to start. It has no part in filtering.
    pub from_slot: Option<u64>,
}

/// A subscription to the deshred stream.
#[derive(Debug, Default)]
pub struct SubscribeDeshredRequest {
    pub deshred_transactions: Named<SubscribeRequestFilterDeshredTransactions>,
    pub ping: Option<SubscribeRequestPing>,
}

#[derive(Debug, Clone, Copy, PartialEq, Eq, Structural)]
pub struct SubscribeRequestPing {
    pub id: i32,
}

#[derive(Debug, Default)]
pub struct SubscribeRequestFilterAccounts {
    pub nonempty_txn_signature: Option<bool>,
    pub account: Vec<String>,
    pub owner: Vec<String>,
    pub filters: Vec<SubscribeRequestFilterAccountsFilter>,
}

/// A condition on the content of an account; a request can leave it undefined.
#[derive(Debug)]
pub struct SubscribeRequestFilterAccountsFilter {
    pub filter: Option<AccountsFilterDataOneof>,
}

#[derive(Debug)]
pub enum AccountsFilterDataOneof {
    Memcmp(SubscribeRequestFilterAccountsFilterMemcmp),
    Datasize(u64),
    TokenAccountState(bool),
    Lamports(SubscribeRequestFilterAccountsFilterLamports),
}

#[derive(Debug)]
pub struct SubscribeRequestFilterAccountsFilterMemcmp {
    pub offset: u64,
    pub data: Option<AccountsFilterMemcmpOneof>,
}

#[derive(Debug)]
pub enum AccountsFilterMemcmpOneof {
    Bytes(Vec<u8>),
    Base58(String),
    Base64(String),
}

#[derive(Debug)]
pub struct SubscribeRequestFilterAccountsFilterLamports {
    pub cmp: Option<AccountsFilterLamports>,
}

#[derive(Debug, Clone, Copy, PartialEq, Eq, Structural)]
pub enum AccountsFilterLamports {
    Eq(u64),
    Ne(u64),
    Lt(u64),
    Gt(u64),
}

#[derive(Debug, Clone, Copy, Default, PartialEq, Eq)]
pub struct SubscribeRequestFilterSlots {
    pub filter_by_commitment: Option<bool>,
    pub interslot_updates: Option<bool>,
}

#[derive(Debug, Clone, Default)]
pub struct SubscribeRequestFilterTransactions {
    pub vote: Option<bool>,
    pub failed: Option<bool>,
    pub signature: Option<String>,
    pub account_include: Vec<String>,
    pub account_exclude: Vec<String>,
    pub account_required: Vec<String>,
}

#[derive(Debug, Clone, Default)]
pub struct SubscribeRequestFilterDeshredTransactions {
    pub vote: Option<bool>,
    pub account_include: Vec<String>,
    pub account_exclude: Vec<String>,
    pub account_required: Vec<String>,
}

#[derive(Debug, Clone, Default)]
pub struct SubscribeRequestFilterBlocks {
    pub account_include: Vec<String>,
    pub include_transactions: Option<bool>,
    pub include_accounts: Option<bool>,
    pub include_entries: Option<bool>,
}

#[derive(Debug, Clone, Copy, Default, PartialEq, Eq)]
pub struct SubscribeRequestFilterBlocksMeta {}

#[derive(Debug, Clone, Copy, Default, PartialEq, Eq)]
pub struct SubscribeRequestFilterEntry {}

} // verus!
