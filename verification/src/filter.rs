//! The filter of one subscriber.

use crate::account_gate::{AccountFilterRule, AccountRule};
use crate::accounts::{account_updates, rules_of, AccountDemand, FilterAccounts};
use crate::blocks::{block_updates, BlockDemand, FilterBlocks};
use crate::data_slice::{all_fit, check_all_fit, requested_ranges, FilterAccountsDataSlice};
use crate::decode::{decode_commitment, decoded_commitment};
use crate::demand::TransactionDemand;
use crate::entries::{
    block_meta_updates, entry_updates, requested_names, FilterBlocksMeta, FilterEntries,
};
use crate::error::{agrees, FilterResult};
use crate::filter_laws::{
    lemma_every_update_names_filters, lemma_unsliced_names_are_distinct, names_distinct,
};
use crate::gate::views;
use crate::limits::FilterLimits;
use crate::message::{CommitmentLevel, Message, MessageTransaction};
use crate::name::FilterNames;
use crate::request::SubscribeRequest;
use crate::slots::{slot_updates, FilterSlots, FilterSlotsInner};
use crate::transaction_gate::{demands_of, TransactionFilterRule};
use crate::transactions::{transaction_updates, FilterTransactions, FilterTransactionsType};
use crate::update::{
    updates_of, FilteredUpdate, FilteredUpdateOneof, FilteredUpdates, UpdateBody, UpdateView,
};
use std::ops::Range;
use vstd::prelude::*;

verus! {

/// What a subscriber asked for.
#[verifier::ext_equal]
pub struct FilterView {
    pub accounts: Seq<(Seq<char>, AccountDemand)>,
    pub slots: Seq<(Seq<char>, FilterSlotsInner)>,
    pub transactions: Seq<(Seq<char>, TransactionDemand)>,
    pub transactions_status: Seq<(Seq<char>, TransactionDemand)>,
    pub entries: Seq<Seq<char>>,
    pub blocks: Seq<(Seq<char>, BlockDemand)>,
    pub blocks_meta: Seq<Seq<char>>,
    pub commitment: CommitmentLevel,
    pub accounts_data_slice: Seq<Range<usize>>,
    pub ping: Option<i32>,
}

impl FilterView {
    /// Nothing was asked for.
    pub open spec fn none() -> Self {
        FilterView {
            accounts: Seq::empty(),
            slots: Seq::empty(),
            transactions: Seq::empty(),
            transactions_status: Seq::empty(),
            entries: Seq::empty(),
            blocks: Seq::empty(),
            blocks_meta: Seq::empty(),
            commitment: CommitmentLevel::Processed,
            accounts_data_slice: Seq::empty(),
            ping: None,
        }
    }

    /// What a request asks for apart from data slices, or why it is refused on that account.
    pub open spec fn requested_unsliced(
        config: SubscribeRequest,
        limits: FilterLimits,
        names: FilterNames,
    ) -> FilterResult<Self> {
        let accounts = crate::accounts::requested_filters(config.accounts@, limits.accounts, names);
        let slots = crate::slots::requested_filters(config.slots@, limits.slots, names);
        let transactions = crate::transactions::requested_filters(
            config.transactions@,
            limits.transactions,
            names,
        );
        let transactions_status = crate::transactions::requested_filters(
            config.transactions_status@,
            limits.transactions_status,
            names,
        );
        let entries = requested_names(config.entry@, limits.entries.max, names);
        let blocks = crate::blocks::requested_filters(config.blocks@, limits.blocks, names);
        let blocks_meta = requested_names(config.blocks_meta@, limits.blocks_meta.max, names);
        let commitment = decoded_commitment(config.commitment);
        if let Err(e) = accounts {
            Err(e)
        } else if let Err(e) = slots {
            Err(e)
        } else if let Err(e) = transactions {
            Err(e)
        } else if let Err(e) = transactions_status {
            Err(e)
        } else if let Err(e) = entries {
            Err(e)
        } else if let Err(e) = blocks {
            Err(e)
        } else if let Err(e) = blocks_meta {
            Err(e)
        } else if let Err(e) = commitment {
            Err(e)
        } else {
            Ok(
                FilterView {
                    accounts: accounts->Ok_0,
                    slots: slots->Ok_0,
                    transactions: transactions->Ok_0,
                    transactions_status: transactions_status->Ok_0,
                    entries: entries->Ok_0,
                    blocks: blocks->Ok_0,
                    blocks_meta: blocks_meta->Ok_0,
                    commitment: commitment->Ok_0,
                    accounts_data_slice: Seq::empty(),
                    ping: match config.ping {
                        Some(ping) => Some(ping.id),
                        None => None,
                    },
                },
            )
        }
    }

    /// What a request asks for, or why it is refused. The data slices are looked at last.
    pub open spec fn requested(
        config: SubscribeRequest,
        limits: FilterLimits,
        names: FilterNames,
    ) -> FilterResult<Self> {
        match Self::requested_unsliced(config, limits, names) {
            Err(e) => Err(e),
            Ok(filter) => match requested_ranges(
                config.accounts_data_slice@,
                limits.accounts.data_slice_max,
            ) {
                Err(e) => Err(e),
                Ok(ranges) => Ok(FilterView { accounts_data_slice: ranges, ..filter }),
            },
        }
    }

    /// The data slices of a request are read: nothing before them is refused, and they are not
    /// too many.
    pub open spec fn reads_slices(
        config: SubscribeRequest,
        limits: FilterLimits,
        names: FilterNames,
    ) -> bool {
        &&& Self::requested_unsliced(config, limits, names) is Ok
        &&& config.accounts_data_slice@.len() <= limits.accounts.data_slice_max
    }

    /// The number of filters of all kinds.
    pub open spec fn count(self) -> nat {
        self.accounts.len() + self.slots.len() + self.transactions.len()
            + self.transactions_status.len() + self.entries.len() + self.blocks.len()
            + self.blocks_meta.len()
    }

    /// The updates for a transaction: whole transactions first, then statuses.
    pub open spec fn transaction_updates(self, message: MessageTransaction) -> Seq<UpdateView> {
        transaction_updates(FilterTransactionsType::Transaction, self.transactions, message)
            + transaction_updates(
            FilterTransactionsType::TransactionStatus,
            self.transactions_status,
            message,
        )
    }

    /// The updates that the subscriber gets for a message.
    pub open spec fn updates(self, message: Message, commitment: Option<CommitmentLevel>) -> Seq<
        UpdateView,
    > {
        match message {
            Message::Account(message) => account_updates(
                self.accounts,
                message,
                self.accounts_data_slice,
            ),
            Message::Slot(message) => slot_updates(self.slots, message, commitment),
            Message::Transaction(message) => self.transaction_updates(message),
            Message::DeshredTransaction(_) => Seq::empty(),
            Message::Entry(message) => entry_updates(self.entries, message),
            Message::Block(message) => block_updates(
                self.blocks,
                message,
                self.accounts_data_slice,
            ),
            Message::BlockMeta(message) => block_meta_updates(self.blocks_meta, message),
        }
    }

    /// The rules that the filters on accounts make.
    pub open spec fn account_rules(self) -> Seq<AccountRule> {
        rules_of(self.accounts)
    }

    /// The rules that the filters on transactions make, those on statuses last.
    pub open spec fn transaction_rules(self) -> Seq<TransactionDemand> {
        demands_of(self.transactions) + demands_of(self.transactions_status)
    }
}

/// The filter of one subscriber.
#[derive(Debug)]
pub struct Filter {
    accounts: FilterAccounts,
    slots: FilterSlots,
    transactions: FilterTransactions,
    transactions_status: FilterTransactions,
    entries: FilterEntries,
    blocks: FilterBlocks,
    blocks_meta: FilterBlocksMeta,
    commitment: CommitmentLevel,
    accounts_data_slice: FilterAccountsDataSlice,
    ping: Option<i32>,
}

impl View for Filter {
    type V = FilterView;

    closed spec fn view(&self) -> FilterView {
        FilterView {
            accounts: self.accounts@,
            slots: self.slots@,
            transactions: self.transactions@.1,
            transactions_status: self.transactions_status@.1,
            entries: self.entries@,
            blocks: self.blocks@,
            blocks_meta: self.blocks_meta@,
            commitment: self.commitment,
            accounts_data_slice: self.accounts_data_slice@,
            ping: self.ping,
        }
    }
}

impl Default for Filter {
    fn default() -> (r: Self)
        ensures
            r@ == FilterView::none(),
    {
        Filter {
            accounts: FilterAccounts::default(),
            slots: FilterSlots::default(),
            transactions: FilterTransactions::none(FilterTransactionsType::Transaction),
            transactions_status: FilterTransactions::none(
                FilterTransactionsType::TransactionStatus,
            ),
            entries: FilterEntries::default(),
            blocks: FilterBlocks::default(),
            blocks_meta: FilterBlocksMeta::default(),
            commitment: CommitmentLevel::Processed,
            accounts_data_slice: FilterAccountsDataSlice::default(),
            ping: None,
        }
    }
}

impl Clone for Filter {
    fn clone(&self) -> (r: Self)
        ensures
            r@ == self@,
    {
        proof {
            use_type_invariant(self);
        }
        Filter {
            accounts: self.accounts.clone(),
            slots: self.slots.clone(),
            transactions: self.transactions.clone(),
            transactions_status: self.transactions_status.clone(),
            entries: self.entries.clone(),
            blocks: self.blocks.clone(),
            blocks_meta: self.blocks_meta.clone(),
            commitment: self.commitment,
            accounts_data_slice: self.accounts_data_slice.clone(),
            ping: self.ping,
        }
    }
}

impl Filter {
    #[verifier::type_invariant]
    spec fn inv(&self) -> bool {
        &&& self.transactions@.0 == FilterTransactionsType::Transaction
        &&& self.transactions_status@.0 == FilterTransactionsType::TransactionStatus
        &&& names_distinct(self@)
    }

    pub fn new(config: &SubscribeRequest, limits: &FilterLimits, names: &FilterNames) -> (r:
        FilterResult<Self>)
        requires
            FilterView::reads_slices(*config, *limits, *names) ==> all_fit(
                config.accounts_data_slice@,
            ),
        ensures
            agrees(r, FilterView::requested(*config, *limits, *names)),
            r is Ok ==> names_distinct(r->Ok_0@),
    {
        let unsliced = match Self::new_unsliced(config, limits, names) {
            Ok(unsliced) => unsliced,
            Err(e) => return Err(e),
        };
        let accounts_data_slice = match FilterAccountsDataSlice::new(
            config.accounts_data_slice.as_slice(),
            limits.accounts.data_slice_max,
        ) {
            Ok(accounts_data_slice) => accounts_data_slice,
            Err(e) => return Err(e),
        };
        Ok(Filter { accounts_data_slice, ..unsliced })
    }

    /// The filter that a request asks for, or why it is refused; `None` where a data slice is read
    /// whose end is no number that a request can state.
    pub fn new_checked(config: &SubscribeRequest, limits: &FilterLimits, names: &FilterNames) -> (r:
        Option<FilterResult<Self>>)
        ensures
            match r {
                Some(r) => {
                    &&& FilterView::reads_slices(*config, *limits, *names) ==> all_fit(
                        config.accounts_data_slice@,
                    )
                    &&& agrees(r, FilterView::requested(*config, *limits, *names))
                    &&& r is Ok ==> names_distinct(r->Ok_0@)
                },
                None => FilterView::reads_slices(*config, *limits, *names) && !all_fit(
                    config.accounts_data_slice@,
                ),
            },
    {
        let slices = config.accounts_data_slice.as_slice();
        if slices.len() > limits.accounts.data_slice_max || check_all_fit(slices) {
            return Some(Self::new(config, limits, names));
        }
        match Self::new_unsliced(config, limits, names) {
            Ok(_) => None,
            Err(e) => Some(Err(e)),
        }
    }

    /// The filter that a request asks for, without its data slices.
    fn new_unsliced(config: &SubscribeRequest, limits: &FilterLimits, names: &FilterNames) -> (r:
        FilterResult<Self>)
        ensures
            agrees(r, FilterView::requested_unsliced(*config, *limits, *names)),
            r is Ok ==> r->Ok_0.inv(),
    {
        let accounts = match FilterAccounts::new(
            config.accounts.as_slice(),
            &limits.accounts,
            names,
        ) {
            Ok(accounts) => accounts,
            Err(e) => return Err(e),
        };
        let slots = match FilterSlots::new(config.slots.as_slice(), &limits.slots, names) {
            Ok(slots) => slots,
            Err(e) => return Err(e),
        };
        let transactions = match FilterTransactions::new(
            config.transactions.as_slice(),
            &limits.transactions,
            FilterTransactionsType::Transaction,
            names,
        ) {
            Ok(transactions) => transactions,
            Err(e) => return Err(e),
        };
        let transactions_status = match FilterTransactions::new(
            config.transactions_status.as_slice(),
            &limits.transactions_status,
            FilterTransactionsType::TransactionStatus,
            names,
        ) {
            Ok(transactions) => transactions,
            Err(e) => return Err(e),
        };
        let entries = match FilterEntries::new(config.entry.as_slice(), &limits.entries, names) {
            Ok(entries) => entries,
            Err(e) => return Err(e),
        };
        let blocks = match FilterBlocks::new(config.blocks.as_slice(), &limits.blocks, names) {
            Ok(blocks) => blocks,
            Err(e) => return Err(e),
        };
        let blocks_meta = match FilterBlocksMeta::new(
            config.blocks_meta.as_slice(),
            &limits.blocks_meta,
            names,
        ) {
            Ok(blocks_meta) => blocks_meta,
            Err(e) => return Err(e),
        };
        let commitment = match decode_commitment(config.commitment) {
            Ok(commitment) => commitment,
            Err(e) => return Err(e),
        };
        let ping = match &config.ping {
            Some(ping) => Some(ping.id),
            None => None,
        };
        proof {
            lemma_unsliced_names_are_distinct(*config, *limits, *names);
        }
        Ok(
            Filter {
                accounts,
                slots,
                transactions,
                transactions_status,
                entries,
                blocks,
                blocks_meta,
                commitment,
                accounts_data_slice: FilterAccountsDataSlice::default(),
                ping,
            },
        )
    }

    /// How many filters there are, of each kind and of all kinds.
    pub fn get_metrics(&self) -> (r: [(&'static str, usize); 8])
        requires
            self@.count() <= usize::MAX,
        ensures
            r@ == metrics(self@),
    {
        let accounts: usize = self.accounts.len();
        let slots: usize = self.slots.len();
        let transactions: usize = self.transactions.len();
        let transactions_status: usize = self.transactions_status.len();
        let entries: usize = self.entries.len();
        let blocks: usize = self.blocks.len();
        let blocks_meta: usize = self.blocks_meta.len();
        let r = [
            ("accounts", accounts),
            ("slots", slots),
            ("transactions", transactions),
            ("transactions_status", transactions_status),
            ("entries", entries),
            ("blocks", blocks),
            ("blocks_meta", blocks_meta),
            (
                "all",
                accounts + slots + transactions + transactions_status + entries + blocks
                    + blocks_meta,
            ),
        ];
        assert(r@ =~= metrics(self@));
        r
    }

    pub fn has_blocks_subscriptions(&self) -> (r: bool)
        ensures
            r == (self@.blocks.len() > 0),
    {
        self.blocks.len() > 0
    }

    pub fn has_slots_subscriptions(&self) -> (r: bool)
        ensures
            r == (self@.slots.len() > 0),
    {
        self.slots.len() > 0
    }

    pub fn get_account_filter_rules(&self) -> (r: Vec<AccountFilterRule>)
        ensures
            views(r@) == self@.account_rules(),
    {
        let mut rules: Vec<AccountFilterRule> = Vec::with_capacity(self.accounts.len());
        self.accounts.collect_rules(&mut rules);
        assert(views(rules@) =~= self@.account_rules());
        rules
    }

    pub fn get_transaction_filter_rules(&self) -> (r: Vec<TransactionFilterRule>)
        ensures
            views(r@) == self@.transaction_rules(),
            forall|i: int| 0 <= i < r@.len() ==> (#[trigger] r@[i]).lists_each_once(),
    {
        let total: Option<usize> = self.transactions.len().checked_add(
            self.transactions_status.len(),
        );
        let mut rules: Vec<TransactionFilterRule> = match total {
            Some(total) => Vec::with_capacity(total),
            None => Vec::new(),
        };
        self.transactions.collect_rules(&mut rules);
        let ghost first = rules@;
        self.transactions_status.collect_rules(&mut rules);
        assert(views(rules@) =~= self@.transaction_rules());
        assert forall|i: int| 0 <= i < rules@.len() implies (
        #[trigger] rules@[i]).lists_each_once() by {
            if i < first.len() {
                assert(rules@.take(first.len() as int)[i] == first[i]);
            }
        }
        rules
    }

    pub fn get_commitment_level(&self) -> (r: CommitmentLevel)
        ensures
            r == self@.commitment,
    {
        self.commitment
    }

    pub fn get_updates(&self, message: &Message, commitment: Option<CommitmentLevel>) -> (r:
        FilteredUpdates)
        ensures
            updates_of(r@) == self@.updates(*message, commitment),
            forall|i: int|
                0 <= i < r@.len() ==> {
                    &&& (#[trigger] r@[i])@.filters.len() > 0
                    &&& r@[i]@.filters.no_duplicates()
                },
    {
        proof {
            use_type_invariant(self);
        }
        let updates = self.updates_for(message, commitment);
        proof {
            lemma_every_update_names_filters(self@, *message, commitment);
            assert forall|i: int| 0 <= i < updates@.len() implies {
                &&& (#[trigger] updates@[i])@.filters.len() > 0
                &&& updates@[i]@.filters.no_duplicates()
            } by {
                assert(updates_of(updates@)[i] == updates@[i]@);
            }
        }
        updates
    }

    fn updates_for(&self, message: &Message, commitment: Option<CommitmentLevel>) -> (r:
        FilteredUpdates)
        ensures
            updates_of(r@) == self@.updates(*message, commitment),
    {
        proof {
            use_type_invariant(self);
        }
        match message {
            Message::Account(message) => self.accounts.get_updates(
                message,
                &self.accounts_data_slice,
            ),
            Message::Slot(message) => self.slots.get_updates(message, commitment),
            Message::Transaction(message) => {
                let mut updates = self.transactions.get_updates(message);
                let mut statuses = self.transactions_status.get_updates(message);
                let ghost first = updates@;
                let ghost last = statuses@;
                updates.append(&mut statuses);
                assert(updates_of(updates@) =~= updates_of(first) + updates_of(last));
                updates
            },
            Message::DeshredTransaction(_) => {
                let updates: FilteredUpdates = Vec::new();
                assert(updates_of(updates@) =~= Seq::empty());
                updates
            },
            Message::Entry(message) => self.entries.get_updates(message),
            Message::Block(message) => self.blocks.get_updates(
                message,
                &self.accounts_data_slice,
            ),
            Message::BlockMeta(message) => self.blocks_meta.get_updates(message),
        }
    }

    /// The answer to the ping of the request, if there was one.
    pub fn get_pong_msg(&self) -> (r: Option<FilteredUpdate>)
        ensures
            match (r, self@.ping) {
                (Some(pong), Some(id)) => pong@ == (UpdateView {
                    filters: Seq::empty(),
                    message: UpdateBody::Pong { id },
                    created_at: None,
                }),
                (None, None) => true,
                _ => false,
            },
    {
        match self.ping {
            Some(id) => Some(FilteredUpdate::new_empty(FilteredUpdateOneof::pong(id))),
            None => None,
        }
    }
}

/// The counts of a subscriber's filters, by what they count.
pub open spec fn metrics(filter: FilterView) -> Seq<(&'static str, usize)> {
    seq![
        ("accounts", filter.accounts.len() as usize),
        ("slots", filter.slots.len() as usize),
        ("transactions", filter.transactions.len() as usize),
        ("transactions_status", filter.transactions_status.len() as usize),
        ("entries", filter.entries.len() as usize),
        ("blocks", filter.blocks.len() as usize),
        ("blocks_meta", filter.blocks_meta.len() as usize),
        ("all", filter.count() as usize),
    ]
}

} // verus!
