//! What a filter hands to a subscriber.

use crate::bindings::share;
use crate::data_slice::FilterAccountsDataSlice;
use crate::message::{
    MessageAccount, MessageAccountInfo, MessageBlockMeta, MessageDeshredTransaction,
    MessageDeshredTransactionInfo, MessageEntry, MessageSlot, MessageTransaction,
    MessageTransactionInfo, Timestamp,
};
use crate::name::{names_of, FilterName};
use std::ops::Range;
use std::sync::Arc;
use vstd::prelude::*;

verus! {

/// The names of the filters that let a message through.
pub type FilteredUpdateFilters = Vec<FilterName>;

pub type FilteredUpdates = Vec<FilteredUpdate>;

pub type FilteredUpdatesDeshred = Vec<FilteredUpdateDeshred>;

#[derive(Debug)]
pub struct FilteredUpdateAccount {
    pub account: Arc<MessageAccountInfo>,
    pub slot: u64,
    pub is_startup: bool,
    pub data_slice: FilterAccountsDataSlice,
}

#[derive(Debug)]
pub struct FilteredUpdateTransaction {
    pub transaction: Arc<MessageTransactionInfo>,
    pub slot: u64,
}

#[derive(Debug)]
pub struct FilteredUpdateTransactionStatus {
    pub transaction: Arc<MessageTransactionInfo>,
    pub slot: u64,
}

#[derive(Debug)]
pub struct FilteredUpdateDeshredTransaction {
    pub transaction: Arc<MessageDeshredTransactionInfo>,
    pub slot: u64,
}

#[derive(Debug)]
pub struct FilteredUpdateBlock {
    pub meta: Arc<MessageBlockMeta>,
    pub transactions: Vec<Arc<MessageTransactionInfo>>,
    pub updated_account_count: u64,
    pub accounts_data_slice: FilterAccountsDataSlice,
    pub accounts: Vec<Arc<MessageAccountInfo>>,
    pub entries: Vec<Arc<MessageEntry>>,
}

/// The answer to a ping.
#[derive(Debug, Clone, Copy, PartialEq, Eq, Structural)]
pub struct SubscribeUpdatePong {
    pub id: i32,
}

#[derive(Debug)]
pub enum FilteredUpdateOneof {
    Account(FilteredUpdateAccount),
    Slot(MessageSlot),
    Transaction(FilteredUpdateTransaction),
    TransactionStatus(FilteredUpdateTransactionStatus),
    Block(FilteredUpdateBlock),
    Pong(SubscribeUpdatePong),
    BlockMeta(Arc<MessageBlockMeta>),
    Entry(Arc<MessageEntry>),
}

/// What an update carries.
pub enum UpdateBody {
    Account {
        account: Arc<MessageAccountInfo>,
        slot: u64,
        is_startup: bool,
        data_slice: Seq<Range<usize>>,
    },
    Slot(MessageSlot),
    Transaction { transaction: Arc<MessageTransactionInfo>, slot: u64 },
    TransactionStatus { transaction: Arc<MessageTransactionInfo>, slot: u64 },
    Block {
        meta: Arc<MessageBlockMeta>,
        transactions: Seq<Arc<MessageTransactionInfo>>,
        updated_account_count: u64,
        accounts_data_slice: Seq<Range<usize>>,
        accounts: Seq<Arc<MessageAccountInfo>>,
        entries: Seq<Arc<MessageEntry>>,
    },
    Pong { id: i32 },
    BlockMeta(Arc<MessageBlockMeta>),
    Entry(Arc<MessageEntry>),
}

impl View for FilteredUpdateOneof {
    type V = UpdateBody;

    open spec fn view(&self) -> UpdateBody {
        match *self {
            FilteredUpdateOneof::Account(u) => UpdateBody::Account {
                account: u.account,
                slot: u.slot,
                is_startup: u.is_startup,
                data_slice: u.data_slice@,
            },
            FilteredUpdateOneof::Slot(m) => UpdateBody::Slot(m),
            FilteredUpdateOneof::Transaction(u) => UpdateBody::Transaction {
                transaction: u.transaction,
                slot: u.slot,
            },
            FilteredUpdateOneof::TransactionStatus(u) => UpdateBody::TransactionStatus {
                transaction: u.transaction,
                slot: u.slot,
            },
            FilteredUpdateOneof::Block(u) => UpdateBody::Block {
                meta: u.meta,
                transactions: u.transactions@,
                updated_account_count: u.updated_account_count,
                accounts_data_slice: u.accounts_data_slice@,
                accounts: u.accounts@,
                entries: u.entries@,
            },
            FilteredUpdateOneof::Pong(p) => UpdateBody::Pong { id: p.id },
            FilteredUpdateOneof::BlockMeta(m) => UpdateBody::BlockMeta(m),
            FilteredUpdateOneof::Entry(m) => UpdateBody::Entry(m),
        }
    }
}

/// An update: the names of the filters behind it, what it carries, and when the message behind
/// it was made, if there is one.
pub struct UpdateView {
    pub filters: Seq<Seq<char>>,
    pub message: UpdateBody,
    pub created_at: Option<Timestamp>,
}

#[derive(Debug)]
pub struct FilteredUpdate {
    pub filters: FilteredUpdateFilters,
    pub message: FilteredUpdateOneof,
    /// When the message behind the update was made; `None` where no message is behind it.
    pub created_at: Option<Timestamp>,
}

impl View for FilteredUpdate {
    type V = UpdateView;

    open spec fn view(&self) -> UpdateView {
        UpdateView {
            filters: names_of(self.filters@),
            message: self.message@,
            created_at: self.created_at,
        }
    }
}

/// The updates of a list.
pub open spec fn updates_of(updates: Seq<FilteredUpdate>) -> Seq<UpdateView> {
    updates.map_values(|u: FilteredUpdate| u@)
}

/// One update for the filters that let a message through; none where there is no such filter.
pub open spec fn once(
    filters: Seq<Seq<char>>,
    message: UpdateBody,
    created_at: Timestamp,
) -> Seq<UpdateView> {
    if filters.len() == 0 {
        Seq::empty()
    } else {
        seq![UpdateView { filters, message, created_at: Some(created_at) }]
    }
}

impl FilteredUpdate {
    pub fn new(
        filters: FilteredUpdateFilters,
        message: FilteredUpdateOneof,
        created_at: Timestamp,
    ) -> (r: Self)
        ensures
            r@ == (UpdateView {
                filters: names_of(filters@),
                message: message@,
                created_at: Some(created_at),
            }),
    {
        FilteredUpdate { filters, message, created_at: Some(created_at) }
    }

    pub fn new_empty(message: FilteredUpdateOneof) -> (r: Self)
        ensures
            r@ == (UpdateView { filters: Seq::empty(), message: message@, created_at: None }),
    {
        let r = FilteredUpdate { filters: Vec::new(), message, created_at: None };
        assert(names_of(r.filters@) =~= Seq::<Seq<char>>::empty());
        r
    }

    /// One update for the filters that let a message through; none where there is no such
    /// filter.
    pub fn once(
        filters: FilteredUpdateFilters,
        message: FilteredUpdateOneof,
        created_at: Timestamp,
    ) -> (r: FilteredUpdates)
        ensures
            updates_of(r@) == once(names_of(filters@), message@, created_at),
    {
        let mut updates: FilteredUpdates = Vec::new();
        if !filters.is_empty() {
            updates.push(FilteredUpdate::new(filters, message, created_at));
        }
        assert(updates_of(updates@) =~= once(names_of(filters@), message@, created_at));
        updates
    }
}

impl FilteredUpdateOneof {
    pub fn account(
        message: &MessageAccount,
        data_slice: FilterAccountsDataSlice,
    ) -> (r: Self)
        ensures
            r@ == (UpdateBody::Account {
                account: message.account,
                slot: message.slot,
                is_startup: message.is_startup,
                data_slice: data_slice@,
            }),
    {
        FilteredUpdateOneof::Account(
            FilteredUpdateAccount {
                account: share(&message.account),
                slot: message.slot,
                is_startup: message.is_startup,
                data_slice,
            },
        )
    }

    pub fn slot(message: MessageSlot) -> (r: Self)
        ensures
            r@ == UpdateBody::Slot(message),
    {
        FilteredUpdateOneof::Slot(message)
    }

    pub fn transaction(message: &MessageTransaction) -> (r: Self)
        ensures
            r@ == (UpdateBody::Transaction {
                transaction: message.transaction,
                slot: message.slot,
            }),
    {
        FilteredUpdateOneof::Transaction(
            FilteredUpdateTransaction {
                transaction: share(&message.transaction),
                slot: message.slot,
            },
        )
    }

    pub fn transaction_status(message: &MessageTransaction) -> (r: Self)
        ensures
            r@ == (UpdateBody::TransactionStatus {
                transaction: message.transaction,
                slot: message.slot,
            }),
    {
        FilteredUpdateOneof::TransactionStatus(
            FilteredUpdateTransactionStatus {
                transaction: share(&message.transaction),
                slot: message.slot,
            },
        )
    }

    pub fn pong(id: i32) -> (r: Self)
        ensures
            r@ == (UpdateBody::Pong { id }),
    {
        FilteredUpdateOneof::Pong(SubscribeUpdatePong { id })
    }

    pub fn block_meta(message: Arc<MessageBlockMeta>) -> (r: Self)
        ensures
            r@ == UpdateBody::BlockMeta(message),
    {
        FilteredUpdateOneof::BlockMeta(message)
    }

    pub fn entry(message: Arc<MessageEntry>) -> (r: Self)
        ensures
            r@ == UpdateBody::Entry(message),
    {
        FilteredUpdateOneof::Entry(message)
    }

    pub fn block(message: FilteredUpdateBlock) -> (r: Self)
        ensures
            r@ == (UpdateBody::Block {
                meta: message.meta,
                transactions: message.transactions@,
                updated_account_count: message.updated_account_count,
                accounts_data_slice: message.accounts_data_slice@,
                accounts: message.accounts@,
                entries: message.entries@,
            }),
    {
        FilteredUpdateOneof::Block(message)
    }
}

#[derive(Debug)]
pub enum FilteredUpdateDeshredOneof {
    DeshredTransaction(FilteredUpdateDeshredTransaction),
    Pong(SubscribeUpdatePong),
}

/// What an update of the deshred stream carries.
pub enum DeshredUpdateBody {
    DeshredTransaction { transaction: Arc<MessageDeshredTransactionInfo>, slot: u64 },
    Pong { id: i32 },
}

impl View for FilteredUpdateDeshredOneof {
    type V = DeshredUpdateBody;

    open spec fn view(&self) -> DeshredUpdateBody {
        match *self {
            FilteredUpdateDeshredOneof::DeshredTransaction(u) => {
                DeshredUpdateBody::DeshredTransaction { transaction: u.transaction, slot: u.slot }
            },
            FilteredUpdateDeshredOneof::Pong(p) => DeshredUpdateBody::Pong { id: p.id },
        }
    }
}

impl FilteredUpdateDeshredOneof {
    pub fn deshred_transaction(message: &MessageDeshredTransaction) -> (r: Self)
        ensures
            r@ == (DeshredUpdateBody::DeshredTransaction {
                transaction: message.transaction,
                slot: message.slot,
            }),
    {
        FilteredUpdateDeshredOneof::DeshredTransaction(
            FilteredUpdateDeshredTransaction {
                transaction: share(&message.transaction),
                slot: message.slot,
            },
        )
    }
}

pub struct DeshredUpdateView {
    pub filters: Seq<Seq<char>>,
    pub message: DeshredUpdateBody,
    pub created_at: Option<Timestamp>,
}

#[derive(Debug)]
pub struct FilteredUpdateDeshred {
    pub filters: FilteredUpdateFilters,
    pub message: FilteredUpdateDeshredOneof,
    /// When the message behind the update was made; `None` where no message is behind it.
    pub created_at: Option<Timestamp>,
}

impl View for FilteredUpdateDeshred {
    type V = DeshredUpdateView;

    open spec fn view(&self) -> DeshredUpdateView {
        DeshredUpdateView {
            filters: names_of(self.filters@),
            message: self.message@,
            created_at: self.created_at,
        }
    }
}

/// The updates of a list.
pub open spec fn deshred_updates_of(updates: Seq<FilteredUpdateDeshred>) -> Seq<
    DeshredUpdateView,
> {
    updates.map_values(|u: FilteredUpdateDeshred| u@)
}

impl FilteredUpdateDeshred {
    pub fn new(
        filters: FilteredUpdateFilters,
        message: FilteredUpdateDeshredOneof,
        created_at: Timestamp,
    ) -> (r: Self)
        ensures
            r@ == (DeshredUpdateView {
                filters: names_of(filters@),
                message: message@,
                created_at: Some(created_at),
            }),
    {
        FilteredUpdateDeshred { filters, message, created_at: Some(created_at) }
    }

    pub fn pong(id: i32) -> (r: Self)
        ensures
            r@ == (DeshredUpdateView {
                filters: Seq::empty(),
                message: DeshredUpdateBody::Pong { id },
                created_at: None,
            }),
    {
        let r = FilteredUpdateDeshred {
            filters: Vec::new(),
            message: FilteredUpdateDeshredOneof::Pong(SubscribeUpdatePong { id }),
            created_at: None,
        };
        assert(names_of(r.filters@) =~= Seq::<Seq<char>>::empty());
        r
    }
}

} // verus!
